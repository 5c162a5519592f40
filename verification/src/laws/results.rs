//! Tool results as texts.

use vstd::prelude::*;

use crate::entries;
use crate::ffi::host_result;
use crate::ffi::host_result::{
    mcp_text_content_to_string, normalize_host_tool_result, value_to_string,
};
use crate::json::{Json, JsonView};
use crate::json_text;
use crate::text;

verus! {

/// A text is shown as it is; nulls, booleans, numbers and arrays are shown as JSON.
pub proof fn law_simple_result(value: &Json, shown: String)
    requires
        call_ensures(value_to_string, (value,), shown),
    ensures
        value@ matches JsonView::Text(characters) ==> shown@ == characters,
        !(value@ is Text) && !(value@ is Object) ==> shown@ == json_text::json_text(value@),
{
}

/// An object with the key `result` alone is shown as what it holds there.
pub proof fn law_wrapped_value(value: &Json, wrapped: &Json, shown: String, unwrapped: String)
    requires
        wrapped@ == JsonView::Object(seq![("result"@, value@)]),
        call_ensures(value_to_string, (wrapped,), shown),
        call_ensures(value_to_string, (value,), unwrapped),
    ensures
        shown@ == unwrapped@,
{
}

/// Any other object is shown as the text of its MCP content, if it has one, and else as JSON.
pub proof fn law_object_result(
    value: &Json,
    members: Seq<(Seq<char>, JsonView)>,
    content: Option<&Json>,
    found: Option<String>,
    shown: String,
)
    requires
        value@ == JsonView::Object(members),
        !(members.len() == 1 && members[0].0 == "result"@),
        match content {
            Some(inner) => entries::lookup(members, "content"@) == Some(inner@),
            None => entries::lookup(members, "content"@) is None,
        },
        call_ensures(mcp_text_content_to_string, (content,), found),
        call_ensures(value_to_string, (value,), shown),
    ensures
        match found {
            Some(characters) => shown@ == characters@,
            None => shown@ == json_text::json_text(value@),
        },
{
}

/// What is no array has no text as MCP content, and an empty array has none.
pub proof fn law_no_content(content: Option<&Json>, found: Option<String>)
    requires
        !(content matches Some(value) && value@ matches JsonView::Array(items) && items.len() > 0),
        call_ensures(mcp_text_content_to_string, (content,), found),
    ensures
        found is None,
{
}

/// One more item of MCP content adds its text on a line of its own, if it is a text item, and
/// nothing otherwise.
pub proof fn law_content_grows(
    content: &Json,
    longer: &Json,
    items: Seq<JsonView>,
    item: JsonView,
    found: Option<String>,
    grown: Option<String>,
)
    requires
        content@ == JsonView::Array(items),
        longer@ == JsonView::Array(items.push(item)),
        call_ensures(mcp_text_content_to_string, (Some(content),), found),
        call_ensures(mcp_text_content_to_string, (Some(longer),), grown),
    ensures
        match (item.get("type"@), item.get("text"@)) {
            (Some(JsonView::Text(kind)), Some(JsonView::Text(added))) => if kind == "text"@ {
                grown matches Some(all) && all@ == (match found {
                    Some(earlier) => earlier@ + seq!['\n'] + added,
                    None => added,
                })
            } else {
                (grown is Some) == (found is Some) && (grown is Some ==> grown->Some_0@
                    == found->Some_0@)
            },
            _ => (grown is Some) == (found is Some) && (grown is Some ==> grown->Some_0@
                == found->Some_0@),
        },
{
    let parts = host_result::text_parts(items);
    assert(items.push(item).drop_last() =~= items);
    match host_result::text_item(item) {
        Some(added) => {
            assert(parts.push(added).drop_last() =~= parts);
            assert(text::join(parts.push(added), seq!['\n']) =~= if parts.len() > 0 {
                text::join(parts, seq!['\n']) + seq!['\n'] + added
            } else {
                added
            });
        },
        None => {},
    }
}

/// Without rewriting, a result for a host is the text of the result; with rewriting, it is what the
/// rewriting makes of that text.
pub proof fn law_result_for_host<F: Fn(&str) -> String>(
    value: &Json,
    handed: Json,
    toonify: bool,
    to_toon: &F,
    shown: String,
    output: String,
)
    requires
        handed@ == value@,
        call_ensures(value_to_string, (value,), shown),
        call_ensures(normalize_host_tool_result::<F>, (handed, toonify, to_toon), output),
    ensures
        !toonify ==> output@ == shown@,
        toonify ==> exists|given: &str|
            given@ == shown@ && #[trigger] call_ensures(*to_toon, (given,), output),
{
}

}
