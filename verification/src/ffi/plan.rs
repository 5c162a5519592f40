//! Host transforms and their plans.

use vstd::prelude::*;

use crate::ffi::dto;
use crate::ffi::dto::{copy_tools, FfiTool};
use crate::json::{Json, JsonView};
use crate::platform::Platform;
use crate::sorted_map::SortedMap;
use crate::text;
use crate::tool;
use crate::tool::ToolView;

verus! {

/// The forms in which a host can offer the tools of a server.
#[derive(Debug, Clone, Copy, PartialEq, Eq, Structural)]
pub enum FfiHostTransformKind {
    Cli,
    JustBash,
    Python,
    TypeScript,
}

/// The process of the host: its platform and its process number.
#[derive(Debug, Clone, Copy, PartialEq, Eq, Structural)]
pub struct HostEnvironment {
    pub platform: Platform,
    pub process_id: u32,
}

/// What a host asks for.
#[derive(Debug)]
pub struct FfiHostTransformConfig {
    pub kind: FfiHostTransformKind,
    pub server_name: String,
    pub tools: Vec<FfiTool>,
    pub output_dir: Option<String>,
    pub command_name: Option<String>,
    pub bridge_url: Option<String>,
    pub token: Option<String>,
    pub session_pid: Option<u32>,
}

/// What the request of a host holds.
#[verifier::ext_equal]
pub struct HostConfigView {
    pub kind: FfiHostTransformKind,
    pub server_name: Seq<char>,
    pub tools: Seq<ToolView>,
    pub output_dir: Option<Seq<char>>,
    pub command_name: Option<Seq<char>>,
    pub bridge_url: Option<Seq<char>>,
    pub token: Option<Seq<char>>,
    pub session_pid: Option<u32>,
}

impl View for FfiHostTransformConfig {
    type V = HostConfigView;

    open spec fn view(&self) -> HostConfigView {
        HostConfigView {
            kind: self.kind,
            server_name: self.server_name@,
            tools: dto::ffi_tool_views(self.tools@),
            output_dir: tool::optional_view(self.output_dir),
            command_name: tool::optional_view(self.command_name),
            bridge_url: tool::optional_view(self.bridge_url),
            token: tool::optional_view(self.token),
            session_pid: self.session_pid,
        }
    }
}

impl Clone for FfiHostTransformConfig {
    fn clone(&self) -> (copy: FfiHostTransformConfig)
        ensures
            copy@ == self@,
    {
        FfiHostTransformConfig {
            kind: self.kind,
            server_name: self.server_name.clone(),
            tools: copy_tools(&self.tools),
            output_dir: tool::copy_optional(&self.output_dir),
            command_name: tool::copy_optional(&self.command_name),
            bridge_url: tool::copy_optional(&self.bridge_url),
            token: tool::copy_optional(&self.token),
            session_pid: self.session_pid,
        }
    }
}

/// A command of an in-process shell: the tool behind it, and how it is described.
#[derive(Debug, PartialEq, Eq)]
pub struct FfiHostJustBashCommandPlan {
    pub command_name: String,
    pub backend_tool_name: String,
    pub description: Option<String>,
    pub input_schema: Json,
}

/// What a command of an in-process shell holds.
#[verifier::ext_equal]
pub struct CommandView {
    pub command_name: Seq<char>,
    pub backend_tool_name: Seq<char>,
    pub description: Option<Seq<char>>,
    pub input_schema: JsonView,
}

impl View for FfiHostJustBashCommandPlan {
    type V = CommandView;

    open spec fn view(&self) -> CommandView {
        CommandView {
            command_name: self.command_name@,
            backend_tool_name: self.backend_tool_name@,
            description: tool::optional_view(self.description),
            input_schema: self.input_schema@,
        }
    }
}

impl Clone for FfiHostJustBashCommandPlan {
    fn clone(&self) -> (copy: FfiHostJustBashCommandPlan)
        ensures
            copy@ == self@,
    {
        FfiHostJustBashCommandPlan {
            command_name: self.command_name.clone(),
            backend_tool_name: self.backend_tool_name.clone(),
            description: tool::copy_optional(&self.description),
            input_schema: self.input_schema.clone(),
        }
    }
}

/// What the commands of a list hold.
pub open spec fn command_views(commands: Seq<FfiHostJustBashCommandPlan>) -> Seq<CommandView> {
    commands.map_values(|command: FfiHostJustBashCommandPlan| command@)
}

/// The commands that a server adds to an in-process shell.
#[derive(Debug, PartialEq, Eq)]
pub struct FfiHostJustBashPlan {
    pub provider_name: String,
    pub command_name: String,
    pub help_tool_name: String,
    pub commands: Vec<FfiHostJustBashCommandPlan>,
}

/// What the plan of an in-process shell holds.
#[verifier::ext_equal]
pub struct JustBashView {
    pub provider_name: Seq<char>,
    pub command_name: Seq<char>,
    pub help_tool_name: Seq<char>,
    pub commands: Seq<CommandView>,
}

impl View for FfiHostJustBashPlan {
    type V = JustBashView;

    open spec fn view(&self) -> JustBashView {
        JustBashView {
            provider_name: self.provider_name@,
            command_name: self.command_name@,
            help_tool_name: self.help_tool_name@,
            commands: command_views(self.commands@),
        }
    }
}

impl Clone for FfiHostJustBashPlan {
    fn clone(&self) -> (copy: FfiHostJustBashPlan)
        ensures
            copy@ == self@,
    {
        let mut commands: Vec<FfiHostJustBashCommandPlan> = Vec::new();
        let mut i: usize = 0;
        while i < self.commands.len()
            invariant
                0 <= i <= self.commands@.len(),
                commands@.len() == i,
                forall|j: int| 0 <= j < i ==> (#[trigger] commands@[j])@ == self.commands@[j]@,
            decreases self.commands@.len() - i,
        {
            commands.push(self.commands[i].clone());
            i = i + 1;
        }
        assert(command_views(commands@) =~= command_views(self.commands@));
        FfiHostJustBashPlan {
            provider_name: self.provider_name.clone(),
            command_name: self.command_name.clone(),
            help_tool_name: self.help_tool_name.clone(),
            commands,
        }
    }
}

/// What a host has to do: the help tool to offer, the files to write and where, the variables to
/// set, and the commands to add to an in-process shell. A plan itself writes no file.
#[derive(Debug)]
pub struct FfiHostTransformPlan {
    pub help_tool_name: String,
    pub help_description: String,
    pub output_dir: Option<String>,
    pub files: SortedMap<String>,
    pub paths: Vec<String>,
    pub environment: SortedMap<String>,
    pub just_bash: Option<FfiHostJustBashPlan>,
}

/// What a plan holds.
#[verifier::ext_equal]
pub struct PlanView {
    pub help_tool_name: Seq<char>,
    pub help_description: Seq<char>,
    pub output_dir: Option<Seq<char>>,
    pub files: Seq<(Seq<char>, Seq<char>)>,
    pub paths: Seq<Seq<char>>,
    pub environment: Seq<(Seq<char>, Seq<char>)>,
    pub just_bash: Option<JustBashView>,
}

impl View for FfiHostTransformPlan {
    type V = PlanView;

    open spec fn view(&self) -> PlanView {
        PlanView {
            help_tool_name: self.help_tool_name@,
            help_description: self.help_description@,
            output_dir: tool::optional_view(self.output_dir),
            files: self.files@,
            paths: text::texts(self.paths@),
            environment: self.environment@,
            just_bash: match self.just_bash {
                Some(plan) => Some(plan@),
                None => None,
            },
        }
    }
}

impl Clone for FfiHostTransformPlan {
    fn clone(&self) -> (copy: FfiHostTransformPlan)
        ensures
            copy@ == self@,
    {
        let mut paths: Vec<String> = Vec::new();
        let mut i: usize = 0;
        while i < self.paths.len()
            invariant
                0 <= i <= self.paths@.len(),
                paths@.len() == i,
                forall|j: int| 0 <= j < i ==> (#[trigger] paths@[j])@ == self.paths@[j]@,
            decreases self.paths@.len() - i,
        {
            paths.push(self.paths[i].clone());
            i = i + 1;
        }
        assert(text::texts(paths@) =~= text::texts(self.paths@));
        FfiHostTransformPlan {
            help_tool_name: self.help_tool_name.clone(),
            help_description: self.help_description.clone(),
            output_dir: tool::copy_optional(&self.output_dir),
            files: self.files.clone(),
            paths,
            environment: self.environment.clone(),
            just_bash: match &self.just_bash {
                Some(plan) => Some(plan.clone()),
                None => None,
            },
        }
    }
}

}
