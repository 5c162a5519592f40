//! The results of tools as hosts show them.

use vstd::prelude::*;

use crate::entries;
use crate::json;
use crate::json::{Json, JsonView};
use crate::json_text;
use crate::json_text::print_json;
use crate::text;

verus! {

/// The text of an item of MCP content, if it is a text item.
pub open spec fn text_item(item: JsonView) -> Option<Seq<char>> {
    if item.get_text("type"@) == Some("text"@) {
        item.get_text("text"@)
    } else {
        None
    }
}

/// The texts of the text items of MCP content, in order.
pub open spec fn text_parts(items: Seq<JsonView>) -> Seq<Seq<char>>
    decreases items.len(),
{
    if items.len() == 0 {
        Seq::empty()
    } else {
        let earlier = text_parts(items.drop_last());
        match text_item(items.last()) {
            Some(part) => earlier.push(part),
            None => earlier,
        }
    }
}

/// The text of MCP content: its text items, one to a line. Content without text items has none.
pub open spec fn content_text(content: Option<JsonView>) -> Option<Seq<char>> {
    match content {
        Some(JsonView::Array(items)) => if text_parts(items).len() > 0 {
            Some(text::join(text_parts(items), seq!['\n']))
        } else {
            None
        },
        _ => None,
    }
}

/// A result as a text: a text stands for itself; what an object holds under `result`, when it
/// holds nothing else, stands for the object; MCP content stands for the text in it; any other
/// value stands as JSON.
pub open spec fn result_text(value: JsonView) -> Seq<char>
    decreases value,
{
    match value {
        JsonView::Text(characters) => characters,
        JsonView::Object(members) => if members.len() == 1 && members[0].0 == "result"@ {
            result_text(members[0].1)
        } else {
            match content_text(value.get("content"@)) {
                Some(found) => found,
                None => json_text::json_text(value),
            }
        },
        _ => json_text::json_text(value),
    }
}

/// Whether a result stands as JSON: it is no text, no object with the key `result` alone, and
/// holds no text as MCP content.
pub open spec fn stands_as_json(value: JsonView) -> bool {
    match value {
        JsonView::Text(_) => false,
        JsonView::Object(members) => {
            &&& !(members.len() == 1 && members[0].0 == "result"@)
            &&& content_text(value.get("content"@)) is None
        },
        _ => true,
    }
}

/// A result that stands as JSON is shown whole, as its compact text.
pub proof fn law_json_result(value: JsonView)
    requires
        stands_as_json(value),
    ensures
        result_text(value) == json_text::json_text(value),
{
}

/// A text is its own result.
pub proof fn law_text_result(characters: Seq<char>)
    ensures
        result_text(JsonView::Text(characters)) == characters,
{
}

/// Wrapping a result under the key `result` alone does not change its text.
pub proof fn law_wrapped_result(value: JsonView)
    ensures
        result_text(JsonView::Object(seq![("result"@, value)])) == result_text(value),
{
}

/// One text item as MCP content gives its text back.
pub proof fn law_single_text_content(characters: Seq<char>)
    ensures
        result_text(
            JsonView::Object(
                seq![
                    (
                        "content"@,
                        JsonView::Array(
                            seq![
                                JsonView::Object(
                                    seq![
                                        ("type"@, JsonView::Text("text"@)),
                                        ("text"@, JsonView::Text(characters)),
                                    ],
                                ),
                            ],
                        ),
                    ),
                ],
            ),
        ) == characters,
{
    let members = seq![
        ("type"@, JsonView::Text("text"@)),
        ("text"@, JsonView::Text(characters)),
    ];
    let item = JsonView::Object(members);
    let items = seq![item];
    let content = seq![("content"@, JsonView::Array(items))];
    reveal_strlit("type");
    reveal_strlit("text");
    reveal_strlit("content");
    reveal_strlit("result");
    assert("type"@[1] != "text"@[1]);
    assert("content"@.len() != "result"@.len());
    entries::lemma_lookup_at(members, 0);
    entries::lemma_lookup_at(members, 1);
    entries::lemma_lookup_at(content, 0);
    assert(text_item(item) == Some(characters));
    assert(items.drop_last() =~= Seq::empty());
    reveal_with_fuel(text_parts, 2);
    assert(text_parts(items) =~= seq![characters]);
}

/// The text of MCP content.
pub fn mcp_text_content_to_string(content: Option<&Json>) -> (found: Option<String>)
    ensures
        content_text(
            match content {
                Some(value) => Some(value@),
                None => None,
            },
        ) == (match found {
            Some(characters) => Some(characters@),
            None => None,
        }),
{
    match content {
        Some(Json::Array(items)) => {
            let ghost views = content->Some_0@->Array_0;
            let mut parts: Vec<String> = Vec::new();
            let mut i: usize = 0;
            assert(text::texts(parts@) =~= text_parts(views.take(0)));
            while i < items.len()
                invariant
                    0 <= i <= items@.len(),
                    views == json::json_views(items@),
                    text::texts(parts@) == text_parts(views.take(i as int)),
                decreases items@.len() - i,
            {
                let item = &items[i];
                let ghost above = parts@;
                proof {
                    let longer = views.take(i + 1);
                    assert(longer.drop_last() =~= views.take(i as int));
                    assert(longer.last() == item@);
                }
                let is_text = match item.get_text("type") {
                    Some(kind) => text::same_text(kind.as_str(), "text"),
                    None => false,
                };
                if is_text {
                    match item.get_text("text") {
                        Some(part) => {
                            parts.push(part.clone());
                            assert(text::texts(parts@) =~= text::texts(above).push(part@));
                        },
                        None => {},
                    }
                }
                i = i + 1;
            }
            assert(views.take(views.len() as int) =~= views);
            assert(text::texts(parts@).len() == parts@.len());
            if parts.len() == 0 {
                return None;
            }
            proof {
                reveal_strlit("\n");
                assert("\n"@ =~= seq!['\n']);
            }
            Some(text::joined(&parts, "\n"))
        },
        _ => None,
    }
}

/// A result as a text. From a result that stands as JSON, and has no floating-point numbers, the
/// value is read back.
pub fn value_to_string(value: &Json) -> (shown: String)
    ensures
        shown@ == result_text(value@),
        stands_as_json(value@) && json_text::plain(value@, 127) ==> json_text::parse_result(shown@)
            == Some(value@),
    decreases value@,
{
    match value {
        Json::Text(characters) => characters.clone(),
        Json::Object(object) => {
            let members = object.members();
            if members.len() == 1 && text::same_text(members[0].0.as_str(), "result") {
                assert(decreases_to!(value@ => value@->Object_0));
                assert(decreases_to!(value@->Object_0 => value@->Object_0[0]));
                assert(decreases_to!(value@->Object_0[0] => value@->Object_0[0].1));
                return value_to_string(&members[0].1);
            }
            match mcp_text_content_to_string(object.get("content")) {
                Some(found) => found,
                None => print_json(value),
            }
        },
        _ => print_json(value),
    }
}

/// Whether `output` is the text of a tool result for a host: the text of the result, or what
/// `to_toon` makes of that text.
pub open spec fn is_normalized<F: Fn(&str) -> String>(
    to_toon: F,
    value: JsonView,
    toonify: bool,
    output: String,
) -> bool {
    if toonify {
        exists|shown: &str|
            shown@ == result_text(value) && call_ensures(to_toon, (shown,), output)
    } else {
        output@ == result_text(value)
    }
}

/// Wrapping a result under the key `result` alone does not change its text for a host, where
/// `to_toon` makes the same of the same text.
pub proof fn law_wrapped_result_for_host<F: Fn(&str) -> String>(
    to_toon: F,
    value: JsonView,
    toonify: bool,
    wrapped: String,
    bare: String,
)
    requires
        forall|left: &str, right: &str, first: String, second: String|
            left@ == right@ && #[trigger] call_ensures(to_toon, (left,), first)
                && #[trigger] call_ensures(to_toon, (right,), second) ==> first@ == second@,
        is_normalized(to_toon, JsonView::Object(seq![("result"@, value)]), toonify, wrapped),
        is_normalized(to_toon, value, toonify, bare),
    ensures
        wrapped@ == bare@,
{
    law_wrapped_result(value);
}

/// The text of a tool result for a host. With `toonify` it is what `to_toon` makes of the text.
pub fn normalize_host_tool_result<F: Fn(&str) -> String>(
    value: Json,
    toonify: bool,
    to_toon: &F,
) -> (output: String)
    requires
        forall|shown: &str| call_requires(*to_toon, (shown,)),
    ensures
        is_normalized(*to_toon, value@, toonify, output),
        !toonify && stands_as_json(value@) && json_text::plain(value@, 127)
            ==> json_text::parse_result(output@) == Some(value@),
{
    let output = value_to_string(&value);
    if toonify {
        let shown = output.as_str();
        let rewritten = to_toon(shown);
        assert(shown@ == result_text(value@) && call_ensures(*to_toon, (shown,), rewritten));
        rewritten
    } else {
        output
    }
}

}
