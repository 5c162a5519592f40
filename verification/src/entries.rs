//! Lists of entries, each a key and a value, as the contents of maps.

use vstd::prelude::*;

verus! {

/// The value that the first entry with the key holds.
pub open spec fn lookup<T>(entries: Seq<(Seq<char>, T)>, key: Seq<char>) -> Option<T>
    decreases entries.len(),
{
    if entries.len() == 0 {
        None
    } else if entries[0].0 == key {
        Some(entries[0].1)
    } else {
        lookup(entries.skip(1), key)
    }
}

/// A key that no entry has is not found.
pub proof fn lemma_lookup_absent<T>(entries: Seq<(Seq<char>, T)>, key: Seq<char>)
    requires
        forall|i: int| 0 <= i < entries.len() ==> (#[trigger] entries[i]).0 != key,
    ensures
        lookup(entries, key) is None,
    decreases entries.len(),
{
    if entries.len() > 0 {
        let rest = entries.skip(1);
        assert forall|i: int| 0 <= i < rest.len() implies (#[trigger] rest[i]).0 != key by {
            assert(rest[i] == entries[i + 1]);
        }
        lemma_lookup_absent(rest, key);
    }
}

/// A key that an entry has, and none before it, is found there.
pub proof fn lemma_lookup_at<T>(entries: Seq<(Seq<char>, T)>, at: int)
    requires
        0 <= at < entries.len(),
        forall|i: int| 0 <= i < at ==> (#[trigger] entries[i]).0 != entries[at].0,
    ensures
        lookup(entries, entries[at].0) == Some(entries[at].1),
    decreases entries.len(),
{
    if at > 0 {
        let rest = entries.skip(1);
        assert forall|i: int| 0 <= i < at - 1 implies (#[trigger] rest[i]).0 != rest[at - 1].0 by {
            assert(rest[i] == entries[i + 1]);
        }
        lemma_lookup_at(rest, at - 1);
        assert(rest[at - 1] == entries[at]);
    }
}

/// Whether no two entries have the same key.
pub open spec fn distinct_keys<T>(entries: Seq<(Seq<char>, T)>) -> bool {
    forall|i: int, j: int|
        0 <= i < j < entries.len() ==> (#[trigger] entries[i]).0 != (#[trigger] entries[j]).0
}

/// The entries with `value` under `key`: in the place of the entry that had the key, or else
/// behind all others.
pub open spec fn put<T>(entries: Seq<(Seq<char>, T)>, key: Seq<char>, value: T) -> Seq<
    (Seq<char>, T),
>
    decreases entries.len(),
{
    if entries.len() == 0 {
        seq![(key, value)]
    } else if entries[0].0 == key {
        seq![(key, value)] + entries.skip(1)
    } else {
        seq![entries[0]] + put(entries.skip(1), key, value)
    }
}

/// Putting under a key that no entry has appends an entry.
pub proof fn lemma_put_absent<T>(entries: Seq<(Seq<char>, T)>, key: Seq<char>, value: T)
    requires
        forall|i: int| 0 <= i < entries.len() ==> (#[trigger] entries[i]).0 != key,
    ensures
        put(entries, key, value) == entries.push((key, value)),
    decreases entries.len(),
{
    if entries.len() == 0 {
        assert(put(entries, key, value) =~= entries.push((key, value)));
    } else {
        let rest = entries.skip(1);
        assert forall|i: int| 0 <= i < rest.len() implies (#[trigger] rest[i]).0 != key by {
            assert(rest[i] == entries[i + 1]);
        }
        lemma_put_absent(rest, key, value);
        assert(put(entries, key, value) =~= entries.push((key, value)));
    }
}

/// Putting under the key of an entry, when no earlier entry has it, replaces that entry.
pub proof fn lemma_put_at<T>(entries: Seq<(Seq<char>, T)>, at: int, value: T)
    requires
        0 <= at < entries.len(),
        forall|i: int| 0 <= i < at ==> (#[trigger] entries[i]).0 != entries[at].0,
    ensures
        put(entries, entries[at].0, value) == entries.update(at, (entries[at].0, value)),
    decreases entries.len(),
{
    let key = entries[at].0;
    if at == 0 {
        assert(put(entries, key, value) =~= entries.update(at, (key, value)));
    } else {
        let rest = entries.skip(1);
        assert forall|i: int| 0 <= i < at - 1 implies (#[trigger] rest[i]).0 != rest[at - 1].0 by {
            assert(rest[i] == entries[i + 1]);
        }
        lemma_put_at(rest, at - 1, value);
        assert(put(entries, key, value) =~= entries.update(at, (key, value)));
    }
}

/// Putting keeps the keys distinct, puts the value under the key, and leaves what the other keys
/// hold as it was.
pub proof fn law_put<T>(entries: Seq<(Seq<char>, T)>, key: Seq<char>, value: T)
    ensures
        distinct_keys(entries) ==> distinct_keys(put(entries, key, value)),
        lookup(put(entries, key, value), key) == Some(value),
        forall|other: Seq<char>|
            other != key ==> #[trigger] lookup(put(entries, key, value), other) == lookup(
                entries,
                other,
            ),
        forall|i: int|
            0 <= i < put(entries, key, value).len() ==> {
                let entry = #[trigger] put(entries, key, value)[i];
                entry == (key, value) || entries.contains(entry)
            },
    decreases entries.len(),
{
    let result = put(entries, key, value);
    if entries.len() == 0 {
        assert(result.skip(1) =~= entries);
    } else {
        let rest = entries.skip(1);
        if entries[0].0 == key {
            assert(result.skip(1) =~= rest);
            assert forall|i: int| 0 <= i < result.len() implies {
                let entry = #[trigger] result[i];
                entry == (key, value) || entries.contains(entry)
            } by {
                if i > 0 {
                    assert(result[i] == entries[i]);
                }
            }
            assert forall|i: int| 0 <= i < result.len() implies (#[trigger] result[i]).0
                == entries[i].0 by {}
        } else {
            law_put(rest, key, value);
            let tail = put(rest, key, value);
            assert(result.skip(1) =~= tail);
            assert(result[0] == entries[0]);
            assert forall|other: Seq<char>| other != key implies #[trigger] lookup(result, other)
                == lookup(entries, other) by {
                assert(lookup(tail, other) == lookup(rest, other));
            }
            assert forall|i: int| 0 <= i < result.len() implies {
                let entry = #[trigger] result[i];
                entry == (key, value) || entries.contains(entry)
            } by {
                if i == 0 {
                    assert(entries.contains(entries[0]));
                } else {
                    assert(result[i] == tail[i - 1]);
                    if tail[i - 1] != (key, value) {
                        let k = choose|k: int| 0 <= k < rest.len() && rest[k] == tail[i - 1];
                        assert(entries[k + 1] == result[i]);
                    }
                }
            }
            if distinct_keys(entries) {
                assert(distinct_keys(rest)) by {
                    assert forall|i: int, j: int| 0 <= i < j < rest.len() implies (
                    #[trigger] rest[i]).0 != (#[trigger] rest[j]).0 by {
                        assert(rest[i] == entries[i + 1] && rest[j] == entries[j + 1]);
                    }
                }
                assert forall|i: int, j: int| 0 <= i < j < result.len() implies (
                #[trigger] result[i]).0 != (#[trigger] result[j]).0 by {
                    assert(result[j] == tail[j - 1]);
                    if i == 0 {
                        if tail[j - 1] != (key, value) {
                            let k = choose|k: int| 0 <= k < rest.len() && rest[k] == tail[j - 1];
                            assert(rest[k] == entries[k + 1]);
                        }
                    } else {
                        assert(result[i] == tail[i - 1]);
                    }
                }
            }
        }
    }
}

}
