//! The typed data map: values that a router shares with the handlers
//! beneath it, one value per type.
//!
//! A type is known here by a 64-bit key that stands for it, and a value by
//! whatever the embedding program stores for it. Storing a second value
//! under a key replaces the first: the last value stored wins.

use crate::assoc::{
    distinct_keys, lemma_lookup_stored, lemma_overlaid, lemma_stored_distinct, lookup, overlaid,
    stored,
};
use vstd::prelude::*;

verus! {

/// A store of one value per type key, in the order in which the keys were
/// first stored.
#[derive(Debug)]
pub struct DataMap<V> {
    entries: Vec<(u64, V)>,
}

impl<V> View for DataMap<V> {
    type V = Seq<(u64, V)>;

    closed spec fn view(&self) -> Seq<(u64, V)> {
        self.entries@
    }
}

impl<V> DataMap<V> {
    /// No key occurs twice.
    #[verifier::type_invariant]
    pub open spec fn wf(&self) -> bool {
        distinct_keys(self@)
    }

    /// The value the map holds for `key`.
    pub open spec fn value(&self, key: u64) -> Option<V> {
        lookup(self@, key)
    }

    /// An empty map.
    pub fn new() -> (map: DataMap<V>)
        ensures
            map@ == Seq::<(u64, V)>::empty(),
            map.wf(),
    {
        DataMap { entries: Vec::new() }
    }

    /// Stores `value` under `key`, in place of the value the key had.
    pub fn insert(self, key: u64, value: V) -> (map: DataMap<V>)
        ensures
            map@ == stored(self@, key, value),
            map.wf(),
            map.value(key) == Some(value),
            forall|other: u64| other != key ==> map.value(other) == self.value(other),
    {
        proof {
            use_type_invariant(&self);
            lemma_stored_distinct(self@, key, value);
            lemma_lookup_stored(self@, key, value, key);
            assert forall|other: u64| other != key implies #[trigger] lookup(
                stored(self@, key, value),
                other,
            ) == lookup(self@, other) by {
                lemma_lookup_stored(self@, key, value, other);
            }
        }
        let ghost before = self@;
        let mut entries = self.entries;
        let mut i: usize = 0;
        assert(before.skip(0) =~= before);
        assert(before.take(0) + stored(before, key, value) =~= stored(before, key, value));
        while i < entries.len() && entries[i].0 != key
            invariant
                i <= entries.len(),
                entries@ == before,
                stored(before, key, value) == before.take(i as int) + stored(
                    before.skip(i as int),
                    key,
                    value,
                ),
            decreases entries.len() - i,
        {
            let ghost tail = before.skip(i as int);
            assert(tail[0] == before[i as int]);
            assert(tail.drop_first() =~= before.skip(i + 1));
            assert(before.take(i as int) + (seq![tail[0]] + stored(tail.drop_first(), key, value))
                =~= before.take(i + 1) + stored(before.skip(i + 1), key, value));
            i += 1;
        }
        let ghost tail = before.skip(i as int);
        if i < entries.len() {
            assert(tail[0] == before[i as int]);
            assert(stored(tail, key, value) == seq![(key, value)] + tail.drop_first());
            assert(tail.drop_first() =~= before.skip(i + 1));
            entries.set(i, (key, value));
            assert(entries@ =~= before.take(i as int) + (seq![(key, value)] + tail.drop_first()));
        } else {
            assert(tail =~= Seq::empty());
            assert(before.take(i as int) =~= before);
            entries.push((key, value));
            assert(entries@ =~= before + seq![(key, value)]);
        }
        DataMap { entries }
    }

    /// The map of a scope nested in another: `parent` with every value of
    /// `child` stored into it. Under every key the value of `child` is in
    /// force where it has one, and the value of `parent` otherwise.
    pub fn merge(parent: DataMap<V>, child: DataMap<V>) -> (map: DataMap<V>)
        ensures
            map@ == overlaid(parent@, child@),
            map.wf(),
            forall|key: u64|
                #[trigger] map.value(key) == match child.value(key) {
                    Some(value) => Some(value),
                    None => parent.value(key),
                },
    {
        proof {
            use_type_invariant(&parent);
            use_type_invariant(&child);
            assert forall|key: u64|
                #[trigger] lookup(overlaid(parent@, child@), key) == match lookup(child@, key) {
                    Some(value) => Some(value),
                    None => lookup(parent@, key),
                } by {
                lemma_overlaid(parent@, child@, key);
            }
        }
        let ghost goal = overlaid(parent@, child@);
        let ghost mut pending = child@;
        let mut map = parent;
        let mut rest = child.entries;
        let ghost all = rest@;
        let mut back: Vec<(u64, V)> = Vec::new();
        while rest.len() > 0
            invariant
                rest@.len() + back@.len() == all.len(),
                forall|k: int| 0 <= k < rest@.len() ==> rest@[k] == all[k],
                forall|k: int| 0 <= k < back@.len() ==> back@[k] == all[all.len() - 1 - k],
            decreases rest@.len(),
        {
            let entry = rest.pop().unwrap();
            back.push(entry);
        }
        while back.len() > 0
            invariant
                pending.len() == back@.len(),
                forall|j: int|
                    0 <= j < back@.len() ==> (#[trigger] back@[j]) == pending[pending.len() - 1 - j],
                goal == overlaid(map@, pending),
            decreases back@.len(),
        {
            let ghost last = back@.len() - 1;
            assert(back@[last] == pending[0]);
            let entry = back.pop().unwrap();
            proof {
                let shorter = pending.drop_first();
                assert forall|j: int| 0 <= j < back@.len() implies (#[trigger] back@[j])
                    == shorter[shorter.len() - 1 - j] by {
                    assert(shorter[shorter.len() - 1 - j] == pending[pending.len() - 1 - j]);
                }
                pending = shorter;
            }
            map = map.insert(entry.0, entry.1);
        }
        proof {
            use_type_invariant(&map);
        }
        map
    }

    /// The value stored under `key`.
    pub fn get(&self, key: u64) -> (value: Option<&V>)
        ensures
            match value {
                Some(v) => self.value(key) == Some(*v),
                None => self.value(key) is None,
            },
    {
        let mut i: usize = 0;
        assert(self@.skip(0) =~= self@);
        while i < self.entries.len()
            invariant
                i <= self.entries.len(),
                lookup(self@, key) == lookup(self@.skip(i as int), key),
            decreases self.entries.len() - i,
        {
            let ghost tail = self@.skip(i as int);
            assert(tail[0] == self@[i as int]);
            assert(tail.drop_first() =~= self@.skip(i + 1));
            if self.entries[i].0 == key {
                return Some(&self.entries[i].1);
            }
            i += 1;
        }
        assert(self@.skip(i as int) =~= Seq::empty());
        None
    }

    /// Whether a value is stored under `key`.
    pub fn contains(&self, key: u64) -> (found: bool)
        ensures
            found == self.value(key) is Some,
    {
        self.get(key).is_some()
    }

    /// The number of values.
    pub fn len(&self) -> (n: usize)
        ensures
            n == self@.len(),
    {
        self.entries.len()
    }

    /// Whether the map holds no value.
    pub fn is_empty(&self) -> (empty: bool)
        ensures
            empty == (self@.len() == 0),
    {
        self.entries.len() == 0
    }
}

} // verus!
