//! JSON values and what they hold.

use vstd::prelude::*;

use crate::entries;
use crate::text;

verus! {

/// A JSON number as `serde_json` holds it; only its text is of interest here.
#[verifier::external_type_specification]
#[verifier::external_body]
pub struct ExNumber(serde_json::Number);

/// The text that `serde_json` writes for a number.
pub uninterp spec fn number_text(number: serde_json::Number) -> Seq<char>;

/// What a JSON value holds. A number is given by its text; an object by its members, in order.
#[verifier::ext_equal]
pub enum JsonView {
    Null,
    Bool(bool),
    Number(Seq<char>),
    Text(Seq<char>),
    Array(Seq<JsonView>),
    Object(Seq<(Seq<char>, JsonView)>),
}

impl JsonView {
    /// What the value holds under `key`, if it is an object that has the key.
    pub open spec fn get(self, key: Seq<char>) -> Option<JsonView> {
        match self {
            JsonView::Object(members) => entries::lookup(members, key),
            _ => None,
        }
    }

    /// The characters of the value, if it is a text.
    pub open spec fn as_text(self) -> Option<Seq<char>> {
        match self {
            JsonView::Text(text) => Some(text),
            _ => None,
        }
    }

    /// The text that the value holds under `key`, if there is one.
    pub open spec fn get_text(self, key: Seq<char>) -> Option<Seq<char>> {
        match self.get(key) {
            Some(value) => value.as_text(),
            None => None,
        }
    }
}

/// A JSON value.
#[derive(Debug, Eq)]
pub enum Json {
    Null,
    Bool(bool),
    Number(serde_json::Number),
    Text(String),
    Array(Vec<Json>),
    Object(JsonObject),
}

/// The members of a JSON object, each under a key of its own, in the order in which the keys
/// were first inserted.
#[derive(Debug, Eq)]
pub struct JsonObject {
    members: Vec<(String, Json)>,
}

/// What a JSON value holds.
pub open spec fn json_view(json: Json) -> JsonView
    decreases json,
{
    match json {
        Json::Null => JsonView::Null,
        Json::Bool(flag) => JsonView::Bool(flag),
        Json::Number(number) => JsonView::Number(number_text(number)),
        Json::Text(text) => JsonView::Text(text@),
        Json::Array(items) => JsonView::Array(
            Seq::new(
                items@.len(),
                |i: int|
                    if 0 <= i < items@.len() {
                        json_view(items@[i])
                    } else {
                        JsonView::Null
                    },
            ),
        ),
        Json::Object(object) => JsonView::Object(object_view(object)),
    }
}

/// The members of a JSON object.
pub closed spec fn object_view(object: JsonObject) -> Seq<(Seq<char>, JsonView)>
    decreases object,
{
    Seq::new(
        object.members@.len(),
        |i: int|
            if 0 <= i < object.members@.len() {
                (object.members@[i].0@, json_view(object.members@[i].1))
            } else {
                (Seq::empty(), JsonView::Null)
            },
    )
}

impl View for Json {
    type V = JsonView;

    open spec fn view(&self) -> JsonView {
        json_view(*self)
    }
}

impl View for JsonObject {
    type V = Seq<(Seq<char>, JsonView)>;

    open spec fn view(&self) -> Seq<(Seq<char>, JsonView)> {
        object_view(*self)
    }
}

/// What the values of a list hold.
pub open spec fn json_views(list: Seq<Json>) -> Seq<JsonView> {
    list.map_values(|json: Json| json@)
}

/// What the members of a list hold.
pub open spec fn member_views(members: Seq<(String, Json)>) -> Seq<(Seq<char>, JsonView)> {
    members.map_values(|member: (String, Json)| (member.0@, member.1@))
}

impl Json {
    /// What the value holds under `key`, if it is an object that has the key.
    pub fn get(&self, key: &str) -> (value: Option<&Json>)
        ensures
            match value {
                Some(found) => self@.get(key@) == Some(found@),
                None => self@.get(key@) is None,
            },
    {
        match self {
            Json::Object(object) => object.get(key),
            _ => None,
        }
    }

    /// The text, if the value is one.
    pub fn as_text(&self) -> (text: Option<&String>)
        ensures
            match text {
                Some(found) => self@.as_text() == Some(found@),
                None => self@.as_text() is None,
            },
    {
        match self {
            Json::Text(text) => Some(text),
            _ => None,
        }
    }

    /// The text that the value holds under `key`, if there is one.
    pub fn get_text(&self, key: &str) -> (text: Option<&String>)
        ensures
            match text {
                Some(found) => self@.get_text(key@) == Some(found@),
                None => self@.get_text(key@) is None,
            },
    {
        match self.get(key) {
            Some(value) => value.as_text(),
            None => None,
        }
    }
}

/// The clone of a `serde_json::Number` is the same number.
pub assume_specification[ <serde_json::Number as std::clone::Clone>::clone ](
    number: &serde_json::Number,
) -> (copy: serde_json::Number)
    ensures
        number_text(copy) == number_text(*number),
;

impl Clone for Json {
    fn clone(&self) -> (copy: Json)
        ensures
            copy@ == self@,
        decreases self,
    {
        match self {
            Json::Null => Json::Null,
            Json::Bool(flag) => Json::Bool(*flag),
            Json::Number(number) => Json::Number(number.clone()),
            Json::Text(text) => Json::Text(text.clone()),
            Json::Array(items) => {
                let mut copies: Vec<Json> = Vec::new();
                let mut i: usize = 0;
                while i < items.len()
                    invariant
                        0 <= i <= items@.len(),
                        copies@.len() == i,
                        self == Json::Array(*items),
                        forall|j: int| 0 <= j < i ==> (#[trigger] copies@[j])@ == items@[j]@,
                    decreases items@.len() - i,
                {
                    assert(decreases_to!(*self => self->Array_0));
                    assert(decreases_to!(*items => items@));
                    assert(decreases_to!(items@ => items@[i as int]));
                    copies.push(items[i].clone());
                    i = i + 1;
                }
                let copy = Json::Array(copies);
                assert(copy@->Array_0 =~= self@->Array_0);
                copy
            },
            Json::Object(object) => Json::Object(object.clone()),
        }
    }
}

impl Clone for JsonObject {
    fn clone(&self) -> (copy: JsonObject)
        ensures
            copy@ == self@,
        decreases self,
    {
        proof {
            use_type_invariant(self);
        }
        let mut members: Vec<(String, Json)> = Vec::new();
        let mut i: usize = 0;
        while i < self.members.len()
            invariant
                0 <= i <= self.members@.len(),
                members@.len() == i,
                forall|j: int|
                    0 <= j < i ==> (#[trigger] members@[j]).0@ == self.members@[j].0@
                        && members@[j].1@ == self.members@[j].1@,
            decreases self.members@.len() - i,
        {
            assert(decreases_to!(self => self.members@[i as int].1));
            members.push((self.members[i].0.clone(), self.members[i].1.clone()));
            i = i + 1;
        }
        assert forall|i: int, j: int| 0 <= i < j < members@.len() implies (
        #[trigger] members@[i]).0@ != (#[trigger] members@[j]).0@ by {
            assert(self.members@[i].0@ != self.members@[j].0@);
        }
        let copy = JsonObject { members };
        assert(copy@ =~= self@);
        copy
    }
}

impl JsonObject {
    #[verifier::type_invariant]
    spec fn keys_differ(self) -> bool {
        forall|i: int, j: int|
            0 <= i < j < self.members@.len() ==> (#[trigger] self.members@[i]).0@ != (
            #[trigger] self.members@[j]).0@
    }

    /// The object without members.
    pub fn new() -> (object: JsonObject)
        ensures
            object@ == Seq::<(Seq<char>, JsonView)>::empty(),
    {
        let object = JsonObject { members: Vec::new() };
        assert(object@ =~= Seq::<(Seq<char>, JsonView)>::empty());
        object
    }

    /// Puts `value` under `key`: in the place of the member that had the key, or else behind all
    /// others.
    pub fn insert(&mut self, key: String, value: Json)
        ensures
            final(self)@ == entries::put(old(self)@, key@, value@),
    {
        proof {
            use_type_invariant(&*self);
        }
        let mut members: Vec<(String, Json)> = Vec::new();
        std::mem::swap(&mut members, &mut self.members);
        let ghost before = member_views(members@);
        proof {
            assert(before =~= old(self)@);
        }
        let mut i: usize = 0;
        while i < members.len() && !text::same_text(members[i].0.as_str(), key.as_str())
            invariant
                0 <= i <= members@.len(),
                before == member_views(members@),
                forall|j: int| 0 <= j < i ==> (#[trigger] before[j]).0 != key@,
            decreases members@.len() - i,
        {
            assert(before[i as int].0 == members@[i as int].0@);
            i = i + 1;
        }
        let ghost key_view = key@;
        let ghost value_view = value@;
        if i < members.len() {
            proof {
                entries::lemma_put_at(before, i as int, value_view);
            }
            members.set(i, (key, value));
            assert(member_views(members@) =~= entries::put(before, key_view, value_view));
        } else {
            proof {
                entries::lemma_put_absent(before, key_view, value_view);
            }
            members.push((key, value));
            assert(member_views(members@) =~= entries::put(before, key_view, value_view));
        }
        proof {
            let after = member_views(members@);
            entries::law_put(before, key_view, value_view);
            assert(entries::distinct_keys(before)) by {
                assert forall|i: int, j: int| 0 <= i < j < before.len() implies (
                #[trigger] before[i]).0 != (#[trigger] before[j]).0 by {
                    assert(old(self).members@[i].0@ != old(self).members@[j].0@);
                }
            }
            assert forall|i: int, j: int| 0 <= i < j < members@.len() implies (
            #[trigger] members@[i]).0@ != (#[trigger] members@[j]).0@ by {
                assert(after[i].0 != after[j].0);
            }
        }
        self.members = members;
        assert(self@ =~= member_views(self.members@));
    }

    /// The number of members.
    pub fn len(&self) -> (count: usize)
        ensures
            count == self@.len(),
    {
        self.members.len()
    }

    /// What the object holds under `key`.
    pub fn get(&self, key: &str) -> (value: Option<&Json>)
        ensures
            match value {
                Some(found) => entries::lookup(self@, key@) == Some(found@),
                None => entries::lookup(self@, key@) is None,
            },
    {
        let mut i: usize = 0;
        while i < self.members.len()
            invariant
                0 <= i <= self.members@.len(),
                forall|j: int| 0 <= j < i ==> (#[trigger] self@[j]).0 != key@,
            decreases self.members@.len() - i,
        {
            if text::same_text(self.members[i].0.as_str(), key) {
                proof {
                    entries::lemma_lookup_at(self@, i as int);
                }
                return Some(&self.members[i].1);
            }
            i = i + 1;
        }
        proof {
            entries::lemma_lookup_absent(self@, key@);
        }
        None
    }

    /// The members, in order.
    pub fn members(&self) -> (members: &Vec<(String, Json)>)
        ensures
            member_views(members@) == self@,
            entries::distinct_keys(self@),
    {
        proof {
            use_type_invariant(self);
            assert forall|i: int, j: int| 0 <= i < j < self@.len() implies (#[trigger] self@[i]).0
                != (#[trigger] self@[j]).0 by {
                assert(self.members@[i].0@ != self.members@[j].0@);
            }
        }
        assert(member_views(self.members@) =~= self@);
        &self.members
    }
}

}
