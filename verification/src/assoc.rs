//! Association lists: pairs of a key and a value in the order in which the
//! keys were first stored, with at most one value in use per key.

use vstd::prelude::*;

verus! {

/// The value stored under `key` in a list of pairs: that of the first pair
/// with this key.
pub open spec fn lookup<K, V>(entries: Seq<(K, V)>, key: K) -> Option<V>
    decreases entries.len(),
{
    if entries.len() == 0 {
        None
    } else if entries[0].0 == key {
        Some(entries[0].1)
    } else {
        lookup(entries.drop_first(), key)
    }
}

/// The list after `value` has been stored under `key`: the first pair with
/// this key is overwritten where it stands, or a new pair is added at the
/// end.
pub open spec fn stored<K, V>(entries: Seq<(K, V)>, key: K, value: V) -> Seq<(K, V)>
    decreases entries.len(),
{
    if entries.len() == 0 {
        seq![(key, value)]
    } else if entries[0].0 == key {
        seq![(key, value)] + entries.drop_first()
    } else {
        seq![entries[0]] + stored(entries.drop_first(), key, value)
    }
}

/// No two pairs of the list have the same key.
pub open spec fn distinct_keys<K, V>(entries: Seq<(K, V)>) -> bool {
    forall|i: int, j: int|
        0 <= i < j < entries.len() ==> (#[trigger] entries[i]).0 != (#[trigger] entries[j]).0
}

/// A key that no pair carries is added at the end.
pub proof fn lemma_stored_fresh<K, V>(entries: Seq<(K, V)>, key: K, value: V)
    requires
        forall|i: int| 0 <= i < entries.len() ==> (#[trigger] entries[i]).0 != key,
    ensures
        stored(entries, key, value) == entries.push((key, value)),
    decreases entries.len(),
{
    if entries.len() == 0 {
        assert(stored(entries, key, value) =~= entries.push((key, value)));
    } else {
        let rest = entries.drop_first();
        assert forall|i: int| 0 <= i < rest.len() implies (#[trigger] rest[i]).0 != key by {
            assert(rest[i] == entries[i + 1]);
        }
        lemma_stored_fresh(rest, key, value);
        assert(entries[0].0 != key);
        assert(seq![entries[0]] + rest.push((key, value)) =~= entries.push((key, value)));
    }
}

/// After a value has been stored under a key, that key yields the value
/// and every other key yields what it did before.
pub proof fn lemma_lookup_stored<K, V>(entries: Seq<(K, V)>, key: K, value: V, other: K)
    ensures
        lookup(stored(entries, key, value), key) == Some(value),
        other != key ==> lookup(stored(entries, key, value), other) == lookup(entries, other),
    decreases entries.len(),
{
    let after = stored(entries, key, value);
    if entries.len() == 0 {
        assert(after.drop_first() =~= entries);
    } else if entries[0].0 == key {
        assert(after[0] == (key, value));
        assert(after.drop_first() =~= entries.drop_first());
    } else {
        lemma_lookup_stored(entries.drop_first(), key, value, other);
        assert(after[0] == entries[0]);
        assert(after.drop_first() =~= stored(entries.drop_first(), key, value));
    }
}

/// Storing a value keeps the keys distinct.
pub proof fn lemma_stored_distinct<K, V>(entries: Seq<(K, V)>, key: K, value: V)
    requires
        distinct_keys(entries),
    ensures
        distinct_keys(stored(entries, key, value)),
        stored(entries, key, value).len() >= entries.len(),
        forall|i: int|
            0 <= i < stored(entries, key, value).len() ==> (#[trigger] stored(
                entries,
                key,
                value,
            )[i]).0 == key || (i < entries.len() && stored(entries, key, value)[i] == entries[i]),
    decreases entries.len(),
{
    let after = stored(entries, key, value);
    if entries.len() == 0 {
    } else if entries[0].0 == key {
        assert forall|i: int, j: int| 0 <= i < j < after.len() implies (#[trigger] after[i]).0 != (
        #[trigger] after[j]).0 by {
            assert(after[j] == entries[j]);
            if i > 0 {
                assert(after[i] == entries[i]);
            } else {
                assert(entries[0].0 != entries[j].0);
            }
        }
    } else {
        let rest = entries.drop_first();
        assert forall|i: int, j: int| 0 <= i < j < rest.len() implies (#[trigger] rest[i]).0 != (
        #[trigger] rest[j]).0 by {
            assert(rest[i] == entries[i + 1] && rest[j] == entries[j + 1]);
        }
        lemma_stored_distinct(rest, key, value);
        let tail = stored(rest, key, value);
        assert forall|i: int| 0 <= i < after.len() implies (#[trigger] after[i]).0 == key || (i
            < entries.len() && after[i] == entries[i]) by {
            if i > 0 {
                assert(after[i] == tail[i - 1]);
                if tail[i - 1].0 != key {
                    assert(tail[i - 1] == rest[i - 1]);
                    assert(rest[i - 1] == entries[i]);
                }
            }
        }
        assert forall|i: int, j: int| 0 <= i < j < after.len() implies (#[trigger] after[i]).0 != (
        #[trigger] after[j]).0 by {
            assert(after[j] == tail[j - 1]);
            if i > 0 {
                assert(after[i] == tail[i - 1]);
            } else {
                assert(after[0] == entries[0]);
                if tail[j - 1].0 != key {
                    assert(tail[j - 1] == rest[j - 1]);
                    assert(rest[j - 1] == entries[j]);
                    assert(entries[0].0 != entries[j].0);
                }
            }
        }
    }
}

/// The list `under` with every pair of `over` stored into it, in order:
/// where both have a key, the value of `over` is the one in force.
pub open spec fn overlaid<K, V>(under: Seq<(K, V)>, over: Seq<(K, V)>) -> Seq<(K, V)>
    decreases over.len(),
{
    if over.len() == 0 {
        under
    } else {
        overlaid(stored(under, over[0].0, over[0].1), over.drop_first())
    }
}

/// An overlay yields under every key the value of `over` where it has
/// one, and the value of `under` otherwise; and its keys stay distinct.
pub proof fn lemma_overlaid<K, V>(under: Seq<(K, V)>, over: Seq<(K, V)>, key: K)
    requires
        distinct_keys(over),
    ensures
        lookup(overlaid(under, over), key) == match lookup(over, key) {
            Some(value) => Some(value),
            None => lookup(under, key),
        },
        distinct_keys(under) ==> distinct_keys(overlaid(under, over)),
    decreases over.len(),
{
    if over.len() > 0 {
        let rest = over.drop_first();
        let next = stored(under, over[0].0, over[0].1);
        assert forall|i: int, j: int| 0 <= i < j < rest.len() implies (#[trigger] rest[i]).0 != (
        #[trigger] rest[j]).0 by {
            assert(rest[i] == over[i + 1] && rest[j] == over[j + 1]);
        }
        lemma_overlaid(next, rest, key);
        lemma_lookup_stored(under, over[0].0, over[0].1, key);
        if distinct_keys(under) {
            lemma_stored_distinct(under, over[0].0, over[0].1);
        }
        if key == over[0].0 {
            lemma_absent(rest, key);
            assert forall|i: int| 0 <= i < rest.len() implies (#[trigger] rest[i]).0 != key by {
                assert(rest[i] == over[i + 1]);
                assert(over[0].0 != over[i + 1].0);
            }
        }
    }
}

/// A key that no pair carries yields nothing.
pub proof fn lemma_absent<K, V>(entries: Seq<(K, V)>, key: K)
    ensures
        (forall|i: int| 0 <= i < entries.len() ==> (#[trigger] entries[i]).0 != key) ==> lookup(
            entries,
            key,
        ) is None,
    decreases entries.len(),
{
    if entries.len() > 0 {
        let rest = entries.drop_first();
        lemma_absent(rest, key);
        if forall|i: int| 0 <= i < entries.len() ==> (#[trigger] entries[i]).0 != key {
            assert(entries[0].0 != key);
            assert forall|i: int| 0 <= i < rest.len() implies (#[trigger] rest[i]).0 != key by {
                assert(rest[i] == entries[i + 1]);
            }
        }
    }
}

} // verus!
