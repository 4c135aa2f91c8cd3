//! The parameters that a route's pattern captured from a request path.

use crate::assoc::{lookup, stored};
use vstd::prelude::*;
use vstd::string::StringExecFns;

verus! {

/// Named string values in the order in which they were first stored, one
/// value per name.
#[derive(Debug)]
pub struct RouteParams {
    entries: Vec<(String, String)>,
}

impl View for RouteParams {
    type V = Seq<(Seq<char>, Seq<char>)>;

    closed spec fn view(&self) -> Seq<(Seq<char>, Seq<char>)> {
        Seq::new(self.entries@.len(), |i: int| (self.entries@[i].0@, self.entries@[i].1@))
    }
}

impl RouteParams {
    /// No parameters.
    pub fn new() -> (params: RouteParams)
        ensures
            params@ == Seq::<(Seq<char>, Seq<char>)>::empty(),
    {
        let params = RouteParams { entries: Vec::new() };
        assert(params@ =~= Seq::empty());
        params
    }

    /// No parameters, with room for `capacity` of them.
    pub fn with_capacity(capacity: usize) -> (params: RouteParams)
        ensures
            params@ == Seq::<(Seq<char>, Seq<char>)>::empty(),
    {
        let params = RouteParams { entries: Vec::with_capacity(capacity) };
        assert(params@ =~= Seq::empty());
        params
    }

    /// Stores `value` under `name`, replacing the value the name had.
    pub fn set(&mut self, name: String, value: String)
        ensures
            final(self)@ == stored(old(self)@, name@, value@),
    {
        let ghost before = self@;
        let mut i: usize = 0;
        assert(before.skip(0) =~= before);
        assert(before.take(0) + stored(before, name@, value@) =~= stored(before, name@, value@));
        while i < self.entries.len()
            invariant
                i <= self.entries.len(),
                self@ == before,
                before == old(self)@,
                stored(before, name@, value@) == before.take(i as int) + stored(
                    before.skip(i as int),
                    name@,
                    value@,
                ),
            decreases self.entries.len() - i,
        {
            let ghost tail = before.skip(i as int);
            assert(tail[0] == before[i as int]);
            assert(tail.drop_first() =~= before.skip(i + 1));
            if self.entries[i].0 == name {
                assert(tail[0].0 == name@);
                assert(stored(tail, name@, value@) == seq![(name@, value@)] + tail.drop_first());
                self.entries.set(i, (name, value));
                assert(self@ =~= before.take(i as int) + (seq![(name@, value@)]
                    + tail.drop_first()));
                return ;
            }
            assert(tail[0].0 != name@);
            assert(before.take(i as int) + (seq![tail[0]] + stored(
                tail.drop_first(),
                name@,
                value@,
            )) =~= before.take(i + 1) + stored(before.skip(i + 1), name@, value@));
            i += 1;
        }
        assert(before.skip(i as int) =~= Seq::empty());
        assert(before.take(i as int) =~= before);
        self.entries.push((name, value));
        assert(self@ =~= before + seq![(name@, value@)]);
    }

    /// The value stored under `name`.
    pub fn get(&self, name: &str) -> (value: Option<&String>)
        ensures
            match value {
                Some(v) => lookup(self@, name@) == Some(v@),
                None => lookup(self@, name@) is None,
            },
    {
        let key = String::from_str(name);
        let mut i: usize = 0;
        assert(self@.skip(0) =~= self@);
        while i < self.entries.len()
            invariant
                i <= self.entries.len(),
                key@ == name@,
                lookup(self@, name@) == lookup(self@.skip(i as int), name@),
            decreases self.entries.len() - i,
        {
            let ghost tail = self@.skip(i as int);
            assert(tail[0] == self@[i as int]);
            assert(tail.drop_first() =~= self@.skip(i + 1));
            if self.entries[i].0 == key {
                return Some(&self.entries[i].1);
            }
            i += 1;
        }
        assert(self@.skip(i as int) =~= Seq::empty());
        None
    }

    /// Whether a value is stored under `name`.
    pub fn has(&self, name: &str) -> (found: bool)
        ensures
            found == lookup(self@, name@) is Some,
    {
        self.get(name).is_some()
    }

    /// The number of parameters.
    pub fn len(&self) -> (n: usize)
        ensures
            n == self@.len(),
    {
        self.entries.len()
    }

    /// Whether there is no parameter.
    pub fn is_empty(&self) -> (empty: bool)
        ensures
            empty == (self@.len() == 0),
    {
        self.entries.len() == 0
    }

    /// The name of the parameter at position `index`, if there is one.
    pub fn name_at(&self, index: usize) -> (name: Option<&String>)
        ensures
            match name {
                Some(n) => index < self@.len() && n@ == self@[index as int].0,
                None => index >= self@.len(),
            },
    {
        if index < self.entries.len() {
            Some(&self.entries[index].0)
        } else {
            None
        }
    }

    /// The value of the parameter at position `index`, if there is one.
    pub fn value_at(&self, index: usize) -> (value: Option<&String>)
        ensures
            match value {
                Some(v) => index < self@.len() && v@ == self@[index as int].1,
                None => index >= self@.len(),
            },
    {
        if index < self.entries.len() {
            Some(&self.entries[index].1)
        } else {
            None
        }
    }
}

} // verus!
