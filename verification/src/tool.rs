//! The tools of a server.

use vstd::prelude::*;

use crate::json::{Json, JsonView};

verus! {

/// What a tool holds: its name, its description, and the schema of its input.
#[verifier::ext_equal]
pub struct ToolView {
    pub name: Seq<char>,
    pub description: Option<Seq<char>>,
    pub input_schema: JsonView,
}

/// The characters of an optional text.
pub open spec fn optional_view(text: Option<String>) -> Option<Seq<char>> {
    match text {
        Some(found) => Some(found@),
        None => None,
    }
}

/// A copy of an optional text.
pub fn copy_optional(text: &Option<String>) -> (copy: Option<String>)
    ensures
        optional_view(copy) == optional_view(*text),
{
    match text {
        Some(found) => Some(found.clone()),
        None => None,
    }
}

/// A tool of the server behind the proxy.
#[derive(Debug, PartialEq, Eq)]
pub struct Tool {
    pub name: String,
    pub description: Option<String>,
    pub input_schema: Json,
}

impl View for Tool {
    type V = ToolView;

    open spec fn view(&self) -> ToolView {
        ToolView {
            name: self.name@,
            description: optional_view(self.description),
            input_schema: self.input_schema@,
        }
    }
}

impl Tool {
    /// A tool with the given name, description and input schema.
    pub fn new(name: &str, description: Option<String>, input_schema: Json) -> (tool: Tool)
        ensures
            tool@ == (ToolView {
                name: name@,
                description: optional_view(description),
                input_schema: input_schema@,
            }),
    {
        Tool { name: name.to_owned(), description, input_schema }
    }
}

impl Clone for Tool {
    fn clone(&self) -> (copy: Tool)
        ensures
            copy@ == self@,
    {
        Tool {
            name: self.name.clone(),
            description: copy_optional(&self.description),
            input_schema: self.input_schema.clone(),
        }
    }
}

/// What the tools of a list hold.
pub open spec fn tool_views(tools: Seq<Tool>) -> Seq<ToolView> {
    tools.map_values(|tool: Tool| tool@)
}

}
