//! The parts of a JSON schema that describe the input of a tool.

use vstd::prelude::*;

use crate::json;
use crate::json::{Json, JsonObject, JsonView};
use crate::json_text;
use crate::json_text::print_json;
use crate::text;

verus! {

/// The properties that a schema describes, in order, if it has an object of them.
pub open spec fn properties(schema: JsonView) -> Option<Seq<(Seq<char>, JsonView)>> {
    match schema.get("properties"@) {
        Some(JsonView::Object(members)) => Some(members),
        _ => None,
    }
}

/// Whether the schema lists the property as required.
pub open spec fn is_required(schema: JsonView, key: Seq<char>) -> bool {
    match schema.get("required"@) {
        Some(JsonView::Array(items)) => items.contains(JsonView::Text(key)),
        _ => false,
    }
}

/// A value as a reader sees it: a text without quotation marks, any other value as JSON.
pub open spec fn shown(value: JsonView) -> Seq<char> {
    match value {
        JsonView::Text(characters) => characters,
        _ => json_text::json_text(value),
    }
}

/// The values that a schema allows, if it lists them.
pub open spec fn allowed_values(schema: JsonView) -> Seq<Seq<char>> {
    match schema.get("enum"@) {
        Some(JsonView::Array(items)) => items.map_values(|value: JsonView| shown(value)),
        _ => Seq::empty(),
    }
}

/// The properties of a schema.
pub fn properties_of(schema: &Json) -> (found: Option<&JsonObject>)
    ensures
        match found {
            Some(object) => properties(schema@) == Some(object@),
            None => properties(schema@) is None,
        },
{
    match schema.get("properties") {
        Some(Json::Object(object)) => Some(object),
        _ => None,
    }
}

/// Decides `is_required`.
pub fn requires_property(schema: &Json, key: &str) -> (required: bool)
    ensures
        required == is_required(schema@, key@),
{
    match schema.get("required") {
        Some(Json::Array(items)) => {
            let ghost views = schema@.get("required"@)->Some_0->Array_0;
            let mut i: usize = 0;
            while i < items.len()
                invariant
                    0 <= i <= items@.len(),
                    views == json::json_views(items@),
                    schema@.get("required"@) == Some(JsonView::Array(views)),
                    forall|j: int| 0 <= j < i ==> #[trigger] views[j] != JsonView::Text(key@),
                decreases items@.len() - i,
            {
                assert(views[i as int] == items@[i as int]@);
                if let Some(name) = items[i].as_text() {
                    if text::same_text(name.as_str(), key) {
                        assert(views[i as int] == JsonView::Text(key@));
                        return true;
                    }
                }
                i = i + 1;
            }
            false
        },
        _ => false,
    }
}

/// A value as a reader sees it.
pub fn shown_text(value: &Json) -> (seen: String)
    ensures
        seen@ == shown(value@),
{
    match value {
        Json::Text(characters) => characters.clone(),
        _ => print_json(value),
    }
}

/// The values that a schema allows.
pub fn allowed_values_of(schema: &Json) -> (values: Vec<String>)
    ensures
        text::texts(values@) == allowed_values(schema@),
{
    let mut values: Vec<String> = Vec::new();
    match schema.get("enum") {
        Some(Json::Array(items)) => {
            let ghost views = schema@.get("enum"@)->Some_0->Array_0;
            let mut i: usize = 0;
            while i < items.len()
                invariant
                    0 <= i <= items@.len(),
                    views == json::json_views(items@),
                    values@.len() == i,
                    forall|j: int| 0 <= j < i ==> (#[trigger] values@[j])@ == shown(views[j]),
                decreases items@.len() - i,
            {
                values.push(shown_text(&items[i]));
                i = i + 1;
            }
            assert(text::texts(values@) =~= allowed_values(schema@));
        },
        _ => {
            assert(text::texts(values@) =~= allowed_values(schema@));
        },
    }
    values
}

}
