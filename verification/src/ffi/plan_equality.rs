//! When two requests or two plans are equal: their paths are compared as the machine compares paths.

use vstd::prelude::*;
use vstd::std_specs::cmp::PartialEqSpecImpl;

use crate::ffi::dto;
use crate::ffi::dto::FfiTool;
use crate::ffi::plan;
use crate::ffi::plan::{
    CommandView, FfiHostJustBashCommandPlan, FfiHostJustBashPlan, FfiHostTransformConfig,
    FfiHostTransformPlan, HostConfigView, JustBashView, PlanView,
};
use crate::json_equality;
use crate::platform;
use crate::platform::same_path;
use crate::sorted_map;
use crate::sorted_map::SortedMap;
use crate::text;
use crate::text::same_text;
use crate::tool;
use crate::tool::ToolView;

verus! {

/// Whether `same` may be the answer to whether two optional paths are equal.
pub open spec fn is_optional_path_equality(
    left: Option<Seq<char>>,
    right: Option<Seq<char>>,
    same: bool,
) -> bool {
    match (left, right) {
        (Some(first), Some(second)) => platform::is_path_equality(first, second, same),
        (None, None) => same,
        _ => !same,
    }
}

/// Whether two optional paths are equal on this machine.
fn same_optional_path(left: &Option<String>, right: &Option<String>) -> (same: bool)
    ensures
        is_optional_path_equality(tool::optional_view(*left), tool::optional_view(*right), same),
{
    match (left, right) {
        (Some(first), Some(second)) => same_path(first.as_str(), second.as_str()),
        (None, None) => true,
        _ => false,
    }
}

/// Whether `each` may be the answers to whether the paths of two lists are equal, one by one.
pub open spec fn are_path_equalities(
    left: Seq<Seq<char>>,
    right: Seq<Seq<char>>,
    each: Seq<bool>,
) -> bool {
    &&& each.len() == left.len()
    &&& forall|i: int|
        0 <= i < each.len() ==> platform::is_path_equality(left[i], right[i], #[trigger] each[i])
}

/// Whether `same` may be the answer to whether two lists of paths are equal.
pub open spec fn is_path_list_equality(
    left: Seq<Seq<char>>,
    right: Seq<Seq<char>>,
    same: bool,
) -> bool {
    if left.len() == right.len() {
        exists|each: Seq<bool>| #[trigger]
            are_path_equalities(left, right, each) && same == !each.contains(false)
    } else {
        !same
    }
}

/// Whether two lists of paths are equal on this machine.
fn same_paths(left: &Vec<String>, right: &Vec<String>) -> (same: bool)
    ensures
        is_path_list_equality(text::texts(left@), text::texts(right@), same),
{
    let ghost first = text::texts(left@);
    let ghost second = text::texts(right@);
    if left.len() != right.len() {
        return false;
    }
    let ghost mut each: Seq<bool> = Seq::empty();
    let mut same = true;
    let mut i: usize = 0;
    while i < left.len()
        invariant
            0 <= i <= left@.len(),
            left@.len() == right@.len(),
            first == text::texts(left@),
            second == text::texts(right@),
            each.len() == i,
            forall|j: int|
                0 <= j < i ==> platform::is_path_equality(
                    first[j],
                    second[j],
                    #[trigger] each[j],
                ),
            same == !each.contains(false),
        decreases left@.len() - i,
    {
        let answer: bool = same_path(left[i].as_str(), right[i].as_str());
        proof {
            let longer = each.push(answer);
            assert(longer[i as int] == answer);
            if each.contains(false) {
                assert(longer[each.index_of(false)] == false);
            }
            each = longer;
        }
        same = same && answer;
        i = i + 1;
    }
    assert(are_path_equalities(first, second, each));
    same
}

/// Whether two optional texts are equal.
fn same_optional_text(left: &Option<String>, right: &Option<String>) -> (same: bool)
    ensures
        same == (tool::optional_view(*left) == tool::optional_view(*right)),
{
    match (left, right) {
        (Some(first), Some(second)) => same_text(first.as_str(), second.as_str()),
        (None, None) => true,
        _ => false,
    }
}

/// Whether two tools are equal.
pub open spec fn equal_tool(left: ToolView, right: ToolView) -> bool {
    &&& left.name == right.name
    &&& left.description == right.description
    &&& json_equality::equal(left.input_schema, right.input_schema)
}

/// Whether the tools of two lists are equal, one by one.
pub open spec fn equal_tools(left: Seq<ToolView>, right: Seq<ToolView>) -> bool {
    &&& left.len() == right.len()
    &&& forall|i: int| 0 <= i < left.len() ==> equal_tool(#[trigger] left[i], right[i])
}

/// Decides `equal_tools`.
fn same_tools(left: &Vec<FfiTool>, right: &Vec<FfiTool>) -> (same: bool)
    ensures
        same == equal_tools(dto::ffi_tool_views(left@), dto::ffi_tool_views(right@)),
{
    let ghost first = dto::ffi_tool_views(left@);
    let ghost second = dto::ffi_tool_views(right@);
    if left.len() != right.len() {
        return false;
    }
    let mut i: usize = 0;
    while i < left.len()
        invariant
            0 <= i <= left@.len(),
            left@.len() == right@.len(),
            first == dto::ffi_tool_views(left@),
            second == dto::ffi_tool_views(right@),
            forall|j: int| 0 <= j < i ==> equal_tool(#[trigger] first[j], second[j]),
        decreases left@.len() - i,
    {
        assert(first[i as int] == left@[i as int]@ && second[i as int] == right@[i as int]@);
        if !same_text(left[i].name.as_str(), right[i].name.as_str()) || !same_optional_text(
            &left[i].description,
            &right[i].description,
        ) || left[i].input_schema != right[i].input_schema {
            return false;
        }
        i = i + 1;
    }
    true
}

/// Whether two requests are equal in all but their directories.
pub open spec fn equal_but_dir(left: HostConfigView, right: HostConfigView) -> bool {
    &&& left.kind == right.kind
    &&& left.server_name == right.server_name
    &&& equal_tools(left.tools, right.tools)
    &&& left.command_name == right.command_name
    &&& left.bridge_url == right.bridge_url
    &&& left.token == right.token
    &&& left.session_pid == right.session_pid
}

/// Whether `same` may be the answer to whether two requests are equal.
pub open spec fn is_config_equality(
    left: HostConfigView,
    right: HostConfigView,
    same: bool,
) -> bool {
    exists|dir: bool|
        {
            &&& #[trigger] is_optional_path_equality(left.output_dir, right.output_dir, dir)
            &&& same == (dir && equal_but_dir(left, right))
        }
}

impl PartialEq for FfiHostTransformConfig {
    fn eq(&self, other: &FfiHostTransformConfig) -> (same: bool)
        ensures
            is_config_equality(self@, other@, same),
    {
        let dir: bool = same_optional_path(&self.output_dir, &other.output_dir);
        let same_session = match (self.session_pid, other.session_pid) {
            (Some(first), Some(second)) => first == second,
            (None, None) => true,
            _ => false,
        };
        assert(is_optional_path_equality(self@.output_dir, other@.output_dir, dir));
        dir && self.kind == other.kind && same_text(
            self.server_name.as_str(),
            other.server_name.as_str(),
        ) && same_tools(&self.tools, &other.tools) && same_optional_text(
            &self.command_name,
            &other.command_name,
        ) && same_optional_text(&self.bridge_url, &other.bridge_url) && same_optional_text(
            &self.token,
            &other.token,
        ) && same_session
    }
}

impl PartialEqSpecImpl for FfiHostTransformConfig {
    /// Machines compare paths in different ways, so `==` is no function of the requests alone.
    open spec fn obeys_eq_spec() -> bool {
        false
    }

    open spec fn eq_spec(&self, other: &FfiHostTransformConfig) -> bool {
        is_config_equality(self@, other@, true)
    }
}

/// Whether two commands of an in-process shell are equal.
pub open spec fn equal_command(left: CommandView, right: CommandView) -> bool {
    &&& left.command_name == right.command_name
    &&& left.backend_tool_name == right.backend_tool_name
    &&& left.description == right.description
    &&& json_equality::equal(left.input_schema, right.input_schema)
}

/// Whether two plans of an in-process shell are equal.
pub open spec fn equal_just_bash(left: Option<JustBashView>, right: Option<JustBashView>) -> bool {
    match (left, right) {
        (Some(first), Some(second)) => {
            &&& first.provider_name == second.provider_name
            &&& first.command_name == second.command_name
            &&& first.help_tool_name == second.help_tool_name
            &&& first.commands.len() == second.commands.len()
            &&& forall|i: int|
                0 <= i < first.commands.len() ==> equal_command(
                    #[trigger] first.commands[i],
                    second.commands[i],
                )
        },
        (None, None) => true,
        _ => false,
    }
}

/// Decides whether the commands of two lists are equal, one by one.
fn same_commands(
    left: &Vec<FfiHostJustBashCommandPlan>,
    right: &Vec<FfiHostJustBashCommandPlan>,
) -> (same: bool)
    ensures
        same == (left@.len() == right@.len() && forall|i: int|
            0 <= i < left@.len() ==> equal_command(
                #[trigger] plan::command_views(left@)[i],
                plan::command_views(right@)[i],
            )),
{
    let ghost first = plan::command_views(left@);
    let ghost second = plan::command_views(right@);
    if left.len() != right.len() {
        return false;
    }
    let mut i: usize = 0;
    while i < left.len()
        invariant
            0 <= i <= left@.len(),
            left@.len() == right@.len(),
            first == plan::command_views(left@),
            second == plan::command_views(right@),
            forall|j: int| 0 <= j < i ==> equal_command(#[trigger] first[j], second[j]),
        decreases left@.len() - i,
    {
        assert(first[i as int] == left@[i as int]@ && second[i as int] == right@[i as int]@);
        if !same_text(left[i].command_name.as_str(), right[i].command_name.as_str()) || !same_text(
            left[i].backend_tool_name.as_str(),
            right[i].backend_tool_name.as_str(),
        ) || !same_optional_text(&left[i].description, &right[i].description)
            || left[i].input_schema != right[i].input_schema {
            return false;
        }
        i = i + 1;
    }
    true
}

/// Decides `equal_just_bash`.
fn same_just_bash(
    left: &Option<FfiHostJustBashPlan>,
    right: &Option<FfiHostJustBashPlan>,
) -> (same: bool)
    ensures
        same == equal_just_bash(
            match *left {
                Some(found) => Some(found@),
                None => None,
            },
            match *right {
                Some(found) => Some(found@),
                None => None,
            },
        ),
{
    match (left, right) {
        (Some(first), Some(second)) => same_text(
            first.provider_name.as_str(),
            second.provider_name.as_str(),
        ) && same_text(first.command_name.as_str(), second.command_name.as_str()) && same_text(
            first.help_tool_name.as_str(),
            second.help_tool_name.as_str(),
        ) && same_commands(&first.commands, &second.commands),
        (None, None) => true,
        _ => false,
    }
}

/// Whether two maps of texts hold the same entries.
fn same_entries(left: &SortedMap<String>, right: &SortedMap<String>) -> (same: bool)
    ensures
        same == (left@ == right@),
{
    let first = left.entries();
    let second = right.entries();
    if first.len() != second.len() {
        assert(left@.len() != right@.len());
        return false;
    }
    let mut i: usize = 0;
    while i < first.len()
        invariant
            0 <= i <= first@.len(),
            first@.len() == second@.len(),
            sorted_map::entry_views(first@) == left@,
            sorted_map::entry_views(second@) == right@,
            forall|j: int| 0 <= j < i ==> #[trigger] left@[j] == right@[j],
        decreases first@.len() - i,
    {
        assert(left@[i as int] == (first@[i as int].0@, first@[i as int].1@));
        assert(right@[i as int] == (second@[i as int].0@, second@[i as int].1@));
        if !same_text(first[i].0.as_str(), second[i].0.as_str()) || !same_text(
            first[i].1.as_str(),
            second[i].1.as_str(),
        ) {
            return false;
        }
        i = i + 1;
    }
    assert(left@ =~= right@);
    true
}

/// Whether two plans are equal in all but their directories and paths.
pub open spec fn equal_but_paths(left: PlanView, right: PlanView) -> bool {
    &&& left.help_tool_name == right.help_tool_name
    &&& left.help_description == right.help_description
    &&& left.files == right.files
    &&& left.environment == right.environment
    &&& equal_just_bash(left.just_bash, right.just_bash)
}

/// Whether `same` may be the answer to whether two plans are equal.
pub open spec fn is_plan_equality(left: PlanView, right: PlanView, same: bool) -> bool {
    exists|dir: bool, paths: bool|
        {
            &&& #[trigger] is_optional_path_equality(left.output_dir, right.output_dir, dir)
            &&& #[trigger] is_path_list_equality(left.paths, right.paths, paths)
            &&& same == (dir && paths && equal_but_paths(left, right))
        }
}

impl PartialEq for FfiHostTransformPlan {
    fn eq(&self, other: &FfiHostTransformPlan) -> (same: bool)
        ensures
            is_plan_equality(self@, other@, same),
    {
        let dir: bool = same_optional_path(&self.output_dir, &other.output_dir);
        let paths: bool = same_paths(&self.paths, &other.paths);
        assert(is_optional_path_equality(self@.output_dir, other@.output_dir, dir));
        assert(is_path_list_equality(self@.paths, other@.paths, paths));
        dir && paths && same_text(
            self.help_tool_name.as_str(),
            other.help_tool_name.as_str(),
        ) && same_text(self.help_description.as_str(), other.help_description.as_str())
            && same_entries(&self.files, &other.files) && same_entries(
            &self.environment,
            &other.environment,
        ) && same_just_bash(&self.just_bash, &other.just_bash)
    }
}

impl PartialEqSpecImpl for FfiHostTransformPlan {
    /// Machines compare paths in different ways, so `==` is no function of the plans alone.
    open spec fn obeys_eq_spec() -> bool {
        false
    }

    open spec fn eq_spec(&self, other: &FfiHostTransformPlan) -> bool {
        is_plan_equality(self@, other@, true)
    }
}

}
