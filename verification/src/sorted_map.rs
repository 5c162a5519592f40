//! A map from texts to values that keeps its entries in the order of their keys.

use vstd::prelude::*;

use crate::entries;

verus! {

/// Whether `left` comes before `right`: the first characters in which they differ decide, and a
/// proper prefix comes first.
pub open spec fn text_before(left: Seq<char>, right: Seq<char>) -> bool
    decreases left.len(),
{
    if right.len() == 0 {
        false
    } else if left.len() == 0 {
        true
    } else if left[0] == right[0] {
        text_before(left.skip(1), right.skip(1))
    } else {
        left[0] < right[0]
    }
}

/// No text comes before itself.
pub proof fn lemma_before_irreflexive(text: Seq<char>)
    ensures
        !text_before(text, text),
    decreases text.len(),
{
    if text.len() > 0 {
        lemma_before_irreflexive(text.skip(1));
    }
}

/// Of two different texts one comes before the other.
pub proof fn lemma_before_total(left: Seq<char>, right: Seq<char>)
    ensures
        left == right || text_before(left, right) || text_before(right, left),
    decreases left.len(),
{
    if left.len() == 0 || right.len() == 0 {
        if left.len() == right.len() {
            assert(left =~= right);
        }
    } else if left[0] == right[0] {
        lemma_before_total(left.skip(1), right.skip(1));
        if left.skip(1) == right.skip(1) {
            assert(left =~= seq![left[0]] + left.skip(1));
            assert(right =~= seq![right[0]] + right.skip(1));
        }
    }
}

/// The order of texts is transitive.
pub proof fn lemma_before_transitive(first: Seq<char>, second: Seq<char>, third: Seq<char>)
    requires
        text_before(first, second),
        text_before(second, third),
    ensures
        text_before(first, third),
    decreases first.len(),
{
    if first.len() > 0 && first[0] == second[0] && second[0] == third[0] {
        lemma_before_transitive(first.skip(1), second.skip(1), third.skip(1));
    }
}

/// Decides `text_before`.
pub fn comes_before(left: &str, right: &str) -> (before: bool)
    ensures
        before == text_before(left@, right@),
{
    let left_chars = crate::text::chars_of(left);
    let right_chars = crate::text::chars_of(right);
    let mut i: usize = 0;
    assert(left@.skip(0) =~= left@);
    assert(right@.skip(0) =~= right@);
    while i < left_chars.len() && i < right_chars.len()
        invariant
            left_chars@ == left@,
            right_chars@ == right@,
            0 <= i <= left@.len(),
            i <= right@.len(),
            text_before(left@.skip(i as int), right@.skip(i as int)) == text_before(left@, right@),
        decreases left@.len() - i,
    {
        if left_chars[i] != right_chars[i] {
            return left_chars[i] < right_chars[i];
        }
        assert(left@.skip(i as int).skip(1) =~= left@.skip(i + 1));
        assert(right@.skip(i as int).skip(1) =~= right@.skip(i + 1));
        i = i + 1;
    }
    i < right_chars.len()
}

/// Whether each key comes before those of all later entries.
pub open spec fn strictly_sorted<T>(entries: Seq<(Seq<char>, T)>) -> bool {
    forall|i: int, j: int|
        0 <= i < j < entries.len() ==> text_before(
            (#[trigger] entries[i]).0,
            (#[trigger] entries[j]).0,
        )
}

/// The entries with `value` under `key`: in the place of the entry that had the key, or else
/// before the first entry with a later key.
pub open spec fn sorted_insert<T>(
    entries: Seq<(Seq<char>, T)>,
    key: Seq<char>,
    value: T,
) -> Seq<(Seq<char>, T)>
    decreases entries.len(),
{
    if entries.len() == 0 {
        seq![(key, value)]
    } else if text_before(entries[0].0, key) {
        seq![entries[0]] + sorted_insert(entries.skip(1), key, value)
    } else if entries[0].0 == key {
        seq![(key, value)] + entries.skip(1)
    } else {
        seq![(key, value)] + entries
    }
}

/// Insertion leaves the entries before the place of the key as they are.
proof fn lemma_sorted_insert_at<T>(
    entries: Seq<(Seq<char>, T)>,
    key: Seq<char>,
    value: T,
    at: int,
)
    requires
        0 <= at <= entries.len(),
        forall|i: int| 0 <= i < at ==> text_before((#[trigger] entries[i]).0, key),
    ensures
        sorted_insert(entries, key, value) == entries.take(at) + sorted_insert(
            entries.skip(at),
            key,
            value,
        ),
    decreases at,
{
    if at == 0 {
        assert(entries.skip(0) =~= entries);
        assert(entries.take(0) + sorted_insert(entries, key, value) =~= sorted_insert(
            entries,
            key,
            value,
        ));
    } else {
        let rest = entries.skip(1);
        assert forall|i: int| 0 <= i < at - 1 implies text_before((#[trigger] rest[i]).0, key) by {
            assert(rest[i] == entries[i + 1]);
        }
        lemma_sorted_insert_at(rest, key, value, at - 1);
        assert(rest.skip(at - 1) =~= entries.skip(at));
        assert(entries.take(at) =~= seq![entries[0]] + rest.take(at - 1));
        assert(text_before(entries[0].0, key));
        assert(sorted_insert(entries, key, value) =~= entries.take(at) + sorted_insert(
            entries.skip(at),
            key,
            value,
        ));
    }
}

/// Insertion keeps the entries sorted, puts the value under the key, and leaves what the other
/// keys hold as it was.
pub proof fn law_sorted_insert<T>(entries: Seq<(Seq<char>, T)>, key: Seq<char>, value: T)
    requires
        strictly_sorted(entries),
    ensures
        strictly_sorted(sorted_insert(entries, key, value)),
        entries::lookup(sorted_insert(entries, key, value), key) == Some(value),
        forall|other: Seq<char>|
            other != key ==> #[trigger] entries::lookup(sorted_insert(entries, key, value), other)
                == entries::lookup(entries, other),
        forall|i: int|
            0 <= i < sorted_insert(entries, key, value).len() ==> {
                let entry = #[trigger] sorted_insert(entries, key, value)[i];
                entry == (key, value) || entries.contains(entry)
            },
    decreases entries.len(),
{
    let result = sorted_insert(entries, key, value);
    if entries.len() == 0 {
        assert(result.skip(1) =~= entries);
    } else {
        let rest = entries.skip(1);
        assert forall|i: int, j: int| 0 <= i < j < rest.len() implies text_before(
            (#[trigger] rest[i]).0,
            (#[trigger] rest[j]).0,
        ) by {
            assert(rest[i] == entries[i + 1] && rest[j] == entries[j + 1]);
        }
        lemma_before_irreflexive(key);
        if text_before(entries[0].0, key) {
            law_sorted_insert(rest, key, value);
            let tail = sorted_insert(rest, key, value);
            assert(result.skip(1) =~= tail);
            assert(result[0] == entries[0]);
            assert forall|other: Seq<char>| other != key implies #[trigger] entries::lookup(result, other)
                == entries::lookup(entries, other) by {
                assert(entries::lookup(tail, other) == entries::lookup(rest, other));
            }
            assert forall|i: int, j: int| 0 <= i < j < result.len() implies text_before(
                (#[trigger] result[i]).0,
                (#[trigger] result[j]).0,
            ) by {
                assert(result[j] == tail[j - 1]);
                if i == 0 {
                    if tail[j - 1] != (key, value) {
                        let k = choose|k: int| 0 <= k < rest.len() && rest[k] == tail[j - 1];
                        assert(rest[k] == entries[k + 1]);
                    }
                } else {
                    assert(result[i] == tail[i - 1]);
                }
            }
            assert forall|i: int| 0 <= i < result.len() implies {
                let entry = #[trigger] result[i];
                entry == (key, value) || entries.contains(entry)
            } by {
                if i == 0 {
                    assert(entries.contains(entries[0]));
                } else {
                    assert(result[i] == tail[i - 1]);
                    if tail[i - 1] != (key, value) {
                        let k = choose|k: int| 0 <= k < rest.len() && rest[k] == tail[i - 1];
                        assert(entries[k + 1] == result[i]);
                    }
                }
            }
        } else if entries[0].0 == key {
            assert(result.skip(1) =~= rest);
            assert forall|other: Seq<char>| other != key implies #[trigger] entries::lookup(result, other)
                == entries::lookup(entries, other) by {
                assert(entries::lookup(result.skip(1), other) == entries::lookup(rest, other));
            }
            assert forall|i: int, j: int| 0 <= i < j < result.len() implies text_before(
                (#[trigger] result[i]).0,
                (#[trigger] result[j]).0,
            ) by {
                assert(result[j] == entries[j]);
                assert(result[i].0 == entries[i].0);
            }
            assert forall|i: int| 0 <= i < result.len() implies {
                let entry = #[trigger] result[i];
                entry == (key, value) || entries.contains(entry)
            } by {
                if i > 0 {
                    assert(result[i] == entries[i]);
                }
            }
        } else {
            lemma_before_total(entries[0].0, key);
            assert(result.skip(1) =~= entries);
            assert forall|other: Seq<char>| other != key implies #[trigger] entries::lookup(result, other)
                == entries::lookup(entries, other) by {
                assert(entries::lookup(result.skip(1), other) == entries::lookup(entries, other));
            }
            assert forall|i: int, j: int| 0 <= i < j < result.len() implies text_before(
                (#[trigger] result[i]).0,
                (#[trigger] result[j]).0,
            ) by {
                assert(result[j] == entries[j - 1]);
                if i == 0 {
                    if j > 1 {
                        lemma_before_transitive(key, entries[0].0, entries[j - 1].0);
                    }
                } else {
                    assert(result[i] == entries[i - 1]);
                }
            }
            assert forall|i: int| 0 <= i < result.len() implies {
                let entry = #[trigger] result[i];
                entry == (key, value) || entries.contains(entry)
            } by {
                if i > 0 {
                    assert(result[i] == entries[i - 1]);
                }
            }
        }
    }
}

/// A map from texts to values, sorted by key.
#[derive(Debug, PartialEq, Eq)]
pub struct SortedMap<V> {
    entries: Vec<(String, V)>,
}

impl<V: View> View for SortedMap<V> {
    type V = Seq<(Seq<char>, V::V)>;

    closed spec fn view(&self) -> Seq<(Seq<char>, V::V)> {
        entry_views(self.entries@)
    }
}

/// The views of the keys and values of a list of entries.
pub open spec fn entry_views<V: View>(entries: Seq<(String, V)>) -> Seq<(Seq<char>, V::V)> {
    entries.map_values(|entry: (String, V)| (entry.0@, entry.1@))
}

impl<V> SortedMap<V> {
    #[verifier::type_invariant]
    spec fn sorted(self) -> bool {
        forall|i: int, j: int|
            0 <= i < j < self.entries@.len() ==> text_before(
                (#[trigger] self.entries@[i]).0@,
                (#[trigger] self.entries@[j]).0@,
            )
    }
}

/// The keys of the entries decide whether their views are sorted.
proof fn lemma_sorted_views<V: View>(entries: Seq<(String, V)>)
    ensures
        strictly_sorted(entry_views(entries)) <==> forall|i: int, j: int|
            0 <= i < j < entries.len() ==> text_before(
                (#[trigger] entries[i]).0@,
                (#[trigger] entries[j]).0@,
            ),
{
    let views = entry_views(entries);
    assert forall|i: int| 0 <= i < entries.len() implies (#[trigger] views[i]).0
        == entries[i].0@ by {}
    if strictly_sorted(views) {
        assert forall|i: int, j: int| 0 <= i < j < entries.len() implies text_before(
            (#[trigger] entries[i]).0@,
            (#[trigger] entries[j]).0@,
        ) by {
            assert(text_before(views[i].0, views[j].0));
        }
    }
}

impl<V: View> SortedMap<V> {
    /// The map without entries.
    pub fn new() -> (map: SortedMap<V>)
        ensures
            map@ == Seq::<(Seq<char>, V::V)>::empty(),
    {
        let entries: Vec<(String, V)> = Vec::new();
        assert(entry_views(entries@) =~= Seq::<(Seq<char>, V::V)>::empty());
        SortedMap { entries }
    }

    /// Puts `value` under `key`, in the place of what the key held before.
    pub fn insert(&mut self, key: String, value: V)
        ensures
            strictly_sorted(old(self)@),
            strictly_sorted(final(self)@),
            final(self)@ == sorted_insert(old(self)@, key@, value@),
    {
        proof {
            use_type_invariant(&*self);
            lemma_sorted_views(self.entries@);
        }
        let mut entries: Vec<(String, V)> = Vec::new();
        std::mem::swap(&mut entries, &mut self.entries);
        let ghost before = entry_views(entries@);
        let ghost key_view = key@;
        let ghost value_view = value@;
        let mut at: usize = 0;
        while at < entries.len() && comes_before(entries[at].0.as_str(), key.as_str())
            invariant
                0 <= at <= entries@.len(),
                before == entry_views(entries@),
                key@ == key_view,
                forall|i: int| 0 <= i < at ==> text_before((#[trigger] before[i]).0, key_view),
            decreases entries@.len() - at,
        {
            assert(before[at as int].0 == entries@[at as int].0@);
            at = at + 1;
        }
        proof {
            lemma_sorted_insert_at(before, key_view, value_view, at as int);
            law_sorted_insert(before, key_view, value_view);
        }
        let ghost rest = before.skip(at as int);
        if at < entries.len() && entries[at].0 == key {
            proof {
                lemma_before_irreflexive(key_view);
                assert(rest[0].0 == key_view);
            }
            entries.set(at, (key, value));
            assert(entry_views(entries@) =~= before.take(at as int) + (seq![
                (key_view, value_view),
            ] + rest.skip(1)));
        } else {
            proof {
                if at < entries@.len() {
                    assert(rest[0].0 == entries@[at as int].0@);
                } else {
                    assert(rest.len() == 0);
                }
            }
            entries.insert(at, (key, value));
            assert(entry_views(entries@) =~= before.take(at as int) + (seq![
                (key_view, value_view),
            ] + rest));
            assert(entry_views(entries@) =~= sorted_insert(before, key_view, value_view));
        }
        proof {
            lemma_sorted_views(entries@);
        }
        self.entries = entries;
    }

    /// What the map holds under `key`.
    pub fn get(&self, key: &str) -> (value: Option<&V>)
        ensures
            match value {
                Some(found) => entries::lookup(self@, key@) == Some(found@),
                None => entries::lookup(self@, key@) is None,
            },
    {
        let mut i: usize = 0;
        while i < self.entries.len()
            invariant
                0 <= i <= self.entries@.len(),
                self@ == entry_views(self.entries@),
                forall|j: int| 0 <= j < i ==> (#[trigger] self@[j]).0 != key@,
            decreases self.entries@.len() - i,
        {
            assert(self@[i as int].0 == self.entries@[i as int].0@);
            if crate::text::same_text(self.entries[i].0.as_str(), key) {
                proof {
                    entries::lemma_lookup_at(self@, i as int);
                }
                return Some(&self.entries[i].1);
            }
            i = i + 1;
        }
        proof {
            entries::lemma_lookup_absent(self@, key@);
        }
        None
    }

    /// Whether the map holds something under `key`.
    pub fn contains_key(&self, key: &str) -> (found: bool)
        ensures
            found == (entries::lookup(self@, key@) is Some),
    {
        self.get(key).is_some()
    }

    /// The number of entries.
    pub fn len(&self) -> (count: usize)
        ensures
            count == self@.len(),
    {
        self.entries.len()
    }

    /// The entries, in the order of their keys.
    pub fn entries(&self) -> (entries: &Vec<(String, V)>)
        ensures
            entry_views(entries@) == self@,
            strictly_sorted(self@),
    {
        proof {
            use_type_invariant(&*self);
            lemma_sorted_views(self.entries@);
        }
        &self.entries
    }
}

impl Clone for SortedMap<String> {
    fn clone(&self) -> (copy: SortedMap<String>)
        ensures
            copy@ == self@,
    {
        proof {
            use_type_invariant(&*self);
        }
        let mut entries: Vec<(String, String)> = Vec::new();
        let mut i: usize = 0;
        while i < self.entries.len()
            invariant
                0 <= i <= self.entries@.len(),
                entries@.len() == i,
                forall|j: int|
                    0 <= j < i ==> (#[trigger] entries@[j]).0@ == self.entries@[j].0@
                        && entries@[j].1@ == self.entries@[j].1@,
            decreases self.entries@.len() - i,
        {
            entries.push((self.entries[i].0.clone(), self.entries[i].1.clone()));
            i = i + 1;
        }
        assert(entry_views(entries@) =~= entry_views(self.entries@));
        SortedMap { entries }
    }
}

}
