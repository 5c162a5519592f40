//! The values that hosts hand over.

use vstd::prelude::*;

use crate::client_gen::generator::{CliBridgeEntry, ConfigView, GeneratorConfig};
use crate::json::Json;
use crate::tool;
use crate::tool::{Tool, ToolView};

verus! {

/// A tool as a host hands it over.
#[derive(Debug, PartialEq, Eq)]
pub struct FfiTool {
    pub name: String,
    pub description: Option<String>,
    pub input_schema: Json,
}

impl View for FfiTool {
    type V = ToolView;

    open spec fn view(&self) -> ToolView {
        ToolView {
            name: self.name@,
            description: tool::optional_view(self.description),
            input_schema: self.input_schema@,
        }
    }
}

impl Clone for FfiTool {
    fn clone(&self) -> (copy: FfiTool)
        ensures
            copy@ == self@,
    {
        FfiTool {
            name: self.name.clone(),
            description: tool::copy_optional(&self.description),
            input_schema: self.input_schema.clone(),
        }
    }
}

impl FfiTool {
    /// The tool as the generators take it.
    pub fn to_engine(&self) -> (converted: Tool)
        ensures
            converted@ == self@,
    {
        Tool {
            name: self.name.clone(),
            description: tool::copy_optional(&self.description),
            input_schema: self.input_schema.clone(),
        }
    }
}

/// What the tools of a list hold.
pub open spec fn ffi_tool_views(tools: Seq<FfiTool>) -> Seq<ToolView> {
    tools.map_values(|tool: FfiTool| tool@)
}

/// The tools of a list as the generators take them.
pub fn ffi_tools_to_engine(tools: &Vec<FfiTool>) -> (converted: Vec<Tool>)
    ensures
        tool::tool_views(converted@) == ffi_tool_views(tools@),
{
    let mut converted: Vec<Tool> = Vec::new();
    let mut i: usize = 0;
    while i < tools.len()
        invariant
            0 <= i <= tools@.len(),
            converted@.len() == i,
            forall|j: int| 0 <= j < i ==> (#[trigger] converted@[j])@ == tools@[j]@,
        decreases tools@.len() - i,
    {
        converted.push(tools[i].to_engine());
        i = i + 1;
    }
    assert(tool::tool_views(converted@) =~= ffi_tool_views(tools@));
    converted
}

/// A copy of a list of tools.
pub fn copy_tools(tools: &Vec<FfiTool>) -> (copy: Vec<FfiTool>)
    ensures
        ffi_tool_views(copy@) == ffi_tool_views(tools@),
{
    let mut copy: Vec<FfiTool> = Vec::new();
    let mut i: usize = 0;
    while i < tools.len()
        invariant
            0 <= i <= tools@.len(),
            copy@.len() == i,
            forall|j: int| 0 <= j < i ==> (#[trigger] copy@[j])@ == tools@[j]@,
        decreases tools@.len() - i,
    {
        copy.push(tools[i].clone());
        i = i + 1;
    }
    assert(ffi_tool_views(copy@) =~= ffi_tool_views(tools@));
    copy
}

/// The kinds of generated clients.
#[derive(Debug, Clone, Copy, PartialEq, Eq, Structural)]
pub enum FfiClientArtifactKind {
    Cli,
    Python,
    TypeScript,
}

/// What a client is generated from, as a host hands it over.
#[derive(Debug)]
pub struct FfiGeneratorConfig {
    pub cli_name: String,
    pub bridge_url: String,
    pub token: String,
    pub tools: Vec<FfiTool>,
    pub session_pid: u32,
    pub output_dir: String,
}

impl View for FfiGeneratorConfig {
    type V = ConfigView;

    /// A host hands over no bridges of other sessions.
    open spec fn view(&self) -> ConfigView {
        ConfigView {
            cli_name: self.cli_name@,
            bridge_url: self.bridge_url@,
            token: self.token@,
            tools: ffi_tool_views(self.tools@),
            session_pid: self.session_pid,
            output_dir: self.output_dir@,
            extra_cli_bridges: Seq::empty(),
        }
    }
}

impl FfiGeneratorConfig {
    /// The configuration as the generators take it.
    pub fn into_generator_config(self) -> (config: GeneratorConfig)
        ensures
            config@ == self@,
    {
        let bridges: Vec<CliBridgeEntry> = Vec::new();
        let config = GeneratorConfig {
            tools: ffi_tools_to_engine(&self.tools),
            cli_name: self.cli_name,
            bridge_url: self.bridge_url,
            token: self.token,
            session_pid: self.session_pid,
            output_dir: self.output_dir,
            extra_cli_bridges: bridges,
        };
        assert(config@.extra_cli_bridges =~= Seq::empty());
        config
    }
}

}
