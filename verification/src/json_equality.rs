//! When two JSON values are equal: the order of the members of an object does not matter.

use vstd::prelude::*;
use vstd::std_specs::cmp::PartialEqSpecImpl;

use crate::entries;
use crate::json;
use crate::json::{Json, JsonObject, JsonView};
use crate::text;

verus! {

/// Whether the text is that of a floating-point zero.
pub open spec fn is_zero(digits: Seq<char>) -> bool {
    digits == "0.0"@ || digits == "-0.0"@
}

/// Whether two texts stand for equal numbers. An integer and a floating-point number are
/// never equal; the two floating-point zeros are.
pub open spec fn equal_numbers(left: Seq<char>, right: Seq<char>) -> bool {
    left == right || (is_zero(left) && is_zero(right))
}

/// Whether two JSON values are equal.
pub open spec fn equal(left: JsonView, right: JsonView) -> bool
    decreases left,
{
    match (left, right) {
        (JsonView::Null, JsonView::Null) => true,
        (JsonView::Bool(first), JsonView::Bool(second)) => first == second,
        (JsonView::Number(first), JsonView::Number(second)) => equal_numbers(first, second),
        (JsonView::Text(first), JsonView::Text(second)) => first == second,
        (JsonView::Array(first), JsonView::Array(second)) => {
            &&& first.len() == second.len()
            &&& forall|i: int| 0 <= i < first.len() ==> equal(#[trigger] first[i], second[i])
        },
        (JsonView::Object(first), JsonView::Object(second)) => equal_members(first, second),
        _ => false,
    }
}

/// Whether two objects are equal: they have the same number of members, and each member of the one
/// has an equal value under its key in the other.
pub open spec fn equal_members(
    left: Seq<(Seq<char>, JsonView)>,
    right: Seq<(Seq<char>, JsonView)>,
) -> bool
    decreases left,
{
    &&& left.len() == right.len()
    &&& forall|i: int|
        0 <= i < left.len() ==> match entries::lookup(right, (#[trigger] left[i]).0) {
            Some(value) => equal(left[i].1, value),
            None => false,
        }
}

/// `==` of `serde_json::Number`: integers are equal to the same integers, and floating-point
/// numbers to those of the same value. Different numbers have different texts, and of two equal
/// ones the texts differ only where one is the negative zero.
#[verifier::external_body]
fn same_number(left: &serde_json::Number, right: &serde_json::Number) -> (same: bool)
    ensures
        same == equal_numbers(json::number_text(*left), json::number_text(*right)),
{
    *left == *right
}

/// Decides whether two JSON values are equal.
fn same_json(left: &Json, right: &Json) -> (same: bool)
    ensures
        same == equal(left@, right@),
    decreases left@,
{
    match (left, right) {
        (Json::Null, Json::Null) => true,
        (Json::Bool(first), Json::Bool(second)) => *first == *second,
        (Json::Number(first), Json::Number(second)) => same_number(first, second),
        (Json::Text(first), Json::Text(second)) => text::same_text(
            first.as_str(),
            second.as_str(),
        ),
        (Json::Array(first), Json::Array(second)) => {
            if first.len() != second.len() {
                return false;
            }
            let ghost left_items = left@->Array_0;
            let ghost right_items = right@->Array_0;
            let mut i: usize = 0;
            while i < first.len()
                invariant
                    0 <= i <= first@.len(),
                    first@.len() == second@.len(),
                    left_items == json::json_views(first@),
                    right_items == json::json_views(second@),
                    left@ == JsonView::Array(left_items),
                    right@ == JsonView::Array(right_items),
                    forall|j: int|
                        0 <= j < i ==> equal(#[trigger] left_items[j], right_items[j]),
                decreases first@.len() - i,
            {
                assert(left_items[i as int] == first@[i as int]@);
                assert(right_items[i as int] == second@[i as int]@);
                assert(decreases_to!(left@ => left@->Array_0));
                assert(decreases_to!(left@->Array_0 => left@->Array_0[i as int]));
                if !same_json(&first[i], &second[i]) {
                    return false;
                }
                i = i + 1;
            }
            true
        },
        (Json::Object(first), Json::Object(second)) => {
            assert(decreases_to!(left@ => left@->Object_0));
            same_object(first, second)
        },
        _ => false,
    }
}

/// Decides whether two objects are equal.
fn same_object(left: &JsonObject, right: &JsonObject) -> (same: bool)
    ensures
        same == equal_members(left@, right@),
    decreases left@,
{
    if left.len() != right.len() {
        return false;
    }
    let members = left.members();
    let mut i: usize = 0;
    while i < members.len()
        invariant
            0 <= i <= members@.len(),
            left@.len() == right@.len(),
            json::member_views(members@) == left@,
            forall|j: int|
                0 <= j < i ==> match entries::lookup(right@, (#[trigger] left@[j]).0) {
                    Some(value) => equal(left@[j].1, value),
                    None => false,
                },
        decreases members@.len() - i,
    {
        assert(left@[i as int] == (members@[i as int].0@, members@[i as int].1@));
        assert(decreases_to!(left@ => left@[i as int]));
        assert(decreases_to!(left@[i as int] => left@[i as int].1));
        let same = match right.get(members[i].0.as_str()) {
            Some(value) => same_json(&members[i].1, value),
            None => false,
        };
        if !same {
            return false;
        }
        i = i + 1;
    }
    true
}

impl PartialEq for Json {
    fn eq(&self, other: &Json) -> (same: bool) {
        same_json(self, other)
    }
}

impl PartialEqSpecImpl for Json {
    open spec fn obeys_eq_spec() -> bool {
        true
    }

    open spec fn eq_spec(&self, other: &Json) -> bool {
        equal(self@, other@)
    }
}

impl PartialEq for JsonObject {
    fn eq(&self, other: &JsonObject) -> (same: bool) {
        same_object(self, other)
    }
}

impl PartialEqSpecImpl for JsonObject {
    open spec fn obeys_eq_spec() -> bool {
        true
    }

    open spec fn eq_spec(&self, other: &JsonObject) -> bool {
        equal_members(self@, other@)
    }
}

}
