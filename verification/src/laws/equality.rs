//! When values, requests and plans are equal.

use vstd::prelude::*;

use crate::entries;
use crate::ffi::dto;
use crate::ffi::dto::FfiTool;
use crate::ffi::plan::{FfiHostTransformConfig, FfiHostTransformPlan};
use crate::ffi::plan_equality;
use crate::json;
use crate::json::{Json, JsonView};
use crate::json_equality;
use crate::text;
use crate::tool;

verus! {

/// Whether the values are of one kind.
pub open spec fn of_one_kind(left: JsonView, right: JsonView) -> bool {
    match (left, right) {
        (JsonView::Null, JsonView::Null) => true,
        (JsonView::Bool(_), JsonView::Bool(_)) => true,
        (JsonView::Number(_), JsonView::Number(_)) => true,
        (JsonView::Text(_), JsonView::Text(_)) => true,
        (JsonView::Array(_), JsonView::Array(_)) => true,
        (JsonView::Object(_), JsonView::Object(_)) => true,
        _ => false,
    }
}

/// Equal values are of one kind. Booleans and texts are equal if they are the same; numbers if they
/// have the same text, or are the two zeros that are no integers.
pub proof fn law_equal_scalars(left: &Json, right: &Json, same: bool)
    requires
        call_ensures(Json::eq, (left, right), same),
    ensures
        same ==> of_one_kind(left@, right@),
        left@ is Null && right@ is Null ==> same,
        left@ is Bool && right@ is Bool ==> same == (left@ == right@),
        left@ is Text && right@ is Text ==> same == (left@ == right@),
        left@ is Number && right@ is Number ==> same == (left@ == right@ || ((
        left@->Number_0 == "0.0"@ || left@->Number_0 == "-0.0"@) && (right@->Number_0 == "0.0"@
            || right@->Number_0 == "-0.0"@))),
{
}

/// Arrays are equal if they are of one length and their items are equal, one by one.
pub proof fn law_equal_arrays(
    left: &Json,
    right: &Json,
    first: Seq<Json>,
    second: Seq<Json>,
    each: Seq<bool>,
    same: bool,
)
    requires
        left@ == JsonView::Array(json::json_views(first)),
        right@ == JsonView::Array(json::json_views(second)),
        each.len() == first.len(),
        forall|i: int|
            0 <= i < first.len() && i < second.len() ==> call_ensures(
                Json::eq,
                (&first[i], &second[i]),
                #[trigger] each[i],
            ),
        call_ensures(Json::eq, (left, right), same),
    ensures
        same == (first.len() == second.len() && forall|i: int|
            0 <= i < first.len() ==> #[trigger] each[i]),
{
    if first.len() == second.len() {
        assert forall|i: int| 0 <= i < first.len() implies #[trigger] each[i]
            == json_equality::equal(first[i]@, second[i]@) by {}
        let views = json::json_views(first);
        let others = json::json_views(second);
        if same {
            assert forall|i: int| 0 <= i < first.len() implies #[trigger] each[i] by {
                assert(json_equality::equal(views[i], others[i]));
            }
        }
        if forall|i: int| 0 <= i < first.len() ==> #[trigger] each[i] {
            assert forall|i: int| 0 <= i < views.len() implies json_equality::equal(
                #[trigger] views[i],
                others[i],
            ) by {
                assert(each[i]);
            }
        }
    }
}

/// Objects are equal if they have the same number of members, and each member of the one has a
/// member with its key and an equal value in the other, wherever that stands.
pub proof fn law_equal_objects(
    left: &Json,
    right: &Json,
    first: Seq<(Seq<char>, JsonView)>,
    second: Seq<(Seq<char>, JsonView)>,
    same: bool,
)
    requires
        left@ == JsonView::Object(first),
        right@ == JsonView::Object(second),
        entries::distinct_keys(second),
        call_ensures(Json::eq, (left, right), same),
    ensures
        same == (first.len() == second.len() && forall|i: int|
            0 <= i < first.len() ==> has_equal_member(second, #[trigger] first[i])),
{
    assert forall|i: int| 0 <= i < first.len() implies has_equal_member(second, #[trigger] first[i])
        == (match entries::lookup(second, first[i].0) {
        Some(value) => json_equality::equal(first[i].1, value),
        None => false,
    }) by {
        lemma_lookup_member(second, first[i]);
    }
    assert(same == json_equality::equal_members(first, second));
    if first.len() == second.len() && forall|i: int|
        0 <= i < first.len() ==> has_equal_member(second, #[trigger] first[i]) {
        assert forall|i: int| 0 <= i < first.len() implies match entries::lookup(
            second,
            (#[trigger] first[i]).0,
        ) {
            Some(value) => json_equality::equal(first[i].1, value),
            None => false,
        } by {
            assert(has_equal_member(second, first[i]));
        }
    }
}

/// Whether a member has the same key and an equal value among the members of an object.
pub open spec fn has_equal_member(
    members: Seq<(Seq<char>, JsonView)>,
    wanted: (Seq<char>, JsonView),
) -> bool {
    exists|j: int|
        0 <= j < members.len() && (#[trigger] members[j]).0 == wanted.0 && json_equality::equal(
            wanted.1,
            members[j].1,
        )
}

/// A member is found by its key.
proof fn lemma_lookup_member(
    members: Seq<(Seq<char>, JsonView)>,
    wanted: (Seq<char>, JsonView),
)
    requires
        entries::distinct_keys(members),
    ensures
        has_equal_member(members, wanted) == (match entries::lookup(members, wanted.0) {
            Some(value) => json_equality::equal(wanted.1, value),
            None => false,
        }),
{
    if exists|j: int| 0 <= j < members.len() && (#[trigger] members[j]).0 == wanted.0 {
        let j = choose|j: int| 0 <= j < members.len() && (#[trigger] members[j]).0 == wanted.0;
        assert forall|i: int| 0 <= i < j implies (#[trigger] members[i]).0 != members[j].0 by {}
        entries::lemma_lookup_at(members, j);
        if has_equal_member(members, wanted) {
            let k = choose|k: int|
                0 <= k < members.len() && (#[trigger] members[k]).0 == wanted.0
                    && json_equality::equal(wanted.1, members[k].1);
            if k < j {
                assert(members[k].0 != members[j].0);
            } else if j < k {
                assert(members[j].0 != members[k].0);
            }
        }
    } else {
        entries::lemma_lookup_absent(members, wanted.0);
    }
}

/// Whether two lists of tools hold the same: names, descriptions and equal input schemas.
pub open spec fn same_tools(left: Seq<FfiTool>, right: Seq<FfiTool>) -> bool {
    &&& left.len() == right.len()
    &&& forall|i: int|
        0 <= i < left.len() ==> {
            &&& (#[trigger] left[i]).name@ == right[i].name@
            &&& tool::optional_view(left[i].description) == tool::optional_view(
                right[i].description,
            )
            &&& json_equality::equal(left[i].input_schema@, right[i].input_schema@)
        }
}

/// Whether two requests hold the same in all but their directories.
pub open spec fn same_request(
    left: FfiHostTransformConfig,
    right: FfiHostTransformConfig,
) -> bool {
    &&& left.kind == right.kind
    &&& left.server_name@ == right.server_name@
    &&& same_tools(left.tools@, right.tools@)
    &&& tool::optional_view(left.command_name) == tool::optional_view(right.command_name)
    &&& tool::optional_view(left.bridge_url) == tool::optional_view(right.bridge_url)
    &&& tool::optional_view(left.token) == tool::optional_view(right.token)
    &&& left.session_pid == right.session_pid
}

/// Equal requests hold the same in all but their directories, and both or neither name one; and
/// requests that hold the same, with the same directory, are equal.
pub proof fn law_equal_requests(
    left: &FfiHostTransformConfig,
    right: &FfiHostTransformConfig,
    same: bool,
)
    requires
        call_ensures(FfiHostTransformConfig::eq, (left, right), same),
    ensures
        same ==> same_request(*left, *right) && (left.output_dir is Some) == (
        right.output_dir is Some),
        same_request(*left, *right) && tool::optional_view(left.output_dir) == tool::optional_view(
            right.output_dir,
        ) ==> same,
{
    lemma_same_tools(left.tools@, right.tools@);
}

/// Tools hold the same exactly if they are equal.
proof fn lemma_same_tools(left: Seq<FfiTool>, right: Seq<FfiTool>)
    ensures
        same_tools(left, right) == plan_equality::equal_tools(
            dto::ffi_tool_views(left),
            dto::ffi_tool_views(right),
        ),
{
    let first = dto::ffi_tool_views(left);
    let second = dto::ffi_tool_views(right);
    if left.len() == right.len() {
        assert forall|i: int| 0 <= i < left.len() implies first[i] == (
        #[trigger] left[i])@ && second[i] == right[i]@ by {}
        if same_tools(left, right) {
            assert forall|i: int| 0 <= i < first.len() implies plan_equality::equal_tool(
                #[trigger] first[i],
                second[i],
            ) by {
                assert(left[i].name@ == right[i].name@);
            }
        }
        if plan_equality::equal_tools(first, second) {
            assert forall|i: int| 0 <= i < left.len() implies {
                &&& (#[trigger] left[i]).name@ == right[i].name@
                &&& tool::optional_view(left[i].description) == tool::optional_view(
                    right[i].description,
                )
                &&& json_equality::equal(left[i].input_schema@, right[i].input_schema@)
            } by {
                assert(plan_equality::equal_tool(first[i], second[i]));
            }
        }
    }
}

/// Whether two plans hold the same commands for an in-process shell, or neither holds any.
pub open spec fn same_commands(left: FfiHostTransformPlan, right: FfiHostTransformPlan) -> bool {
    match (left.just_bash, right.just_bash) {
        (Some(first), Some(second)) => {
            &&& first.provider_name@ == second.provider_name@
            &&& first.command_name@ == second.command_name@
            &&& first.help_tool_name@ == second.help_tool_name@
            &&& first.commands@.len() == second.commands@.len()
            &&& forall|i: int|
                0 <= i < first.commands@.len() ==> {
                    let one = #[trigger] first.commands@[i];
                    let other = second.commands@[i];
                    &&& one.command_name@ == other.command_name@
                    &&& one.backend_tool_name@ == other.backend_tool_name@
                    &&& tool::optional_view(one.description) == tool::optional_view(
                        other.description,
                    )
                    &&& json_equality::equal(one.input_schema@, other.input_schema@)
                }
        },
        (None, None) => true,
        _ => false,
    }
}

/// Plans hold the same commands exactly if these are equal.
proof fn lemma_same_commands(left: FfiHostTransformPlan, right: FfiHostTransformPlan)
    ensures
        same_commands(left, right) == plan_equality::equal_just_bash(
            left@.just_bash,
            right@.just_bash,
        ),
{
    match (left.just_bash, right.just_bash) {
        (Some(first), Some(second)) => {
            let one = first@.commands;
            let other = second@.commands;
            assert(one.len() == first.commands@.len() && other.len() == second.commands@.len());
            if one.len() == other.len() {
                assert forall|i: int| 0 <= i < one.len() implies (#[trigger] one[i])
                    == first.commands@[i]@ && other[i] == second.commands@[i]@ by {}
                assert forall|i: int| 0 <= i < one.len() implies (
                #[trigger] first.commands@[i])@ == one[i] by {}
                if same_commands(left, right) {
                    assert forall|i: int| 0 <= i < one.len() implies plan_equality::equal_command(
                        #[trigger] one[i],
                        other[i],
                    ) by {
                        assert(first.commands@[i].command_name@
                            == second.commands@[i].command_name@);
                    }
                }
                if plan_equality::equal_just_bash(left@.just_bash, right@.just_bash) {
                    assert forall|i: int| 0 <= i < first.commands@.len() implies {
                        let command = #[trigger] first.commands@[i];
                        let matched = second.commands@[i];
                        &&& command.command_name@ == matched.command_name@
                        &&& command.backend_tool_name@ == matched.backend_tool_name@
                        &&& tool::optional_view(command.description) == tool::optional_view(
                            matched.description,
                        )
                        &&& json_equality::equal(command.input_schema@, matched.input_schema@)
                    } by {
                        assert(plan_equality::equal_command(one[i], other[i]));
                    }
                }
            }
        },
        _ => {},
    }
}

/// Equal plans have the same help, files, variables and commands, as many paths, and both or neither
/// a directory; and plans with the same of all these, and the same directory and paths, are equal.
pub proof fn law_equal_plans(
    left: &FfiHostTransformPlan,
    right: &FfiHostTransformPlan,
    same: bool,
)
    requires
        call_ensures(FfiHostTransformPlan::eq, (left, right), same),
    ensures
        same ==> {
            &&& left.help_tool_name@ == right.help_tool_name@
            &&& left.help_description@ == right.help_description@
            &&& left.files@ == right.files@
            &&& left.environment@ == right.environment@
            &&& left.paths@.len() == right.paths@.len()
            &&& (left.output_dir is Some) == (right.output_dir is Some)
            &&& same_commands(*left, *right)
        },
        left.help_tool_name@ == right.help_tool_name@ && left.help_description@
            == right.help_description@ && left.files@ == right.files@ && left.environment@
            == right.environment@ && text::texts(left.paths@) == text::texts(right.paths@)
            && tool::optional_view(left.output_dir) == tool::optional_view(right.output_dir)
            && same_commands(*left, *right) ==> same,
{
    let first = text::texts(left.paths@);
    let second = text::texts(right.paths@);
    assert(first.len() == left.paths@.len() && second.len() == right.paths@.len());
    lemma_same_commands(*left, *right);
    assert forall|each: Seq<bool>|
        #[trigger] plan_equality::are_path_equalities(first, second, each) && first
            == second implies !each.contains(false) by {
        assert forall|i: int| 0 <= i < each.len() implies each[i] by {}
    }
}

}
