use crate::interp::{Mapping, Value};
use std::collections::HashMap;
use vstd::prelude::*;

verus! {

broadcast use vstd::std_specs::hash::group_hash_axioms;

/// Memoised values of a mapping, keyed by pixel offset. Each offset is
/// interpolated at most once; the number of entries counts the
/// interpolations made.
/// The entries after a request for offset `x`: unchanged where `x` was
/// present, else with the value of `x` added.
pub open spec fn after_request(e: Map<i32, Value>, m: Mapping, x: i32) -> Map<i32, Value> {
    if e.contains_key(x) {
        e
    } else {
        e.insert(x, m.mapped(x as int))
    }
}

pub struct ValueCache {
    mapping: Mapping,
    values: HashMap<i32, Value>,
}

impl ValueCache {
    pub closed spec fn mapping(&self) -> Mapping {
        self.mapping
    }

    /// The values computed so far, by pixel offset.
    pub closed spec fn entries(&self) -> Map<i32, Value> {
        self.values@
    }

    /// Every entry holds the mapping's value of its offset.
    pub open spec fn wf(&self) -> bool {
        &&& self.mapping().wf()
        &&& forall|x: i32| #[trigger]
            self.entries().contains_key(x) ==> self.entries()[x] == self.mapping().mapped(x as int)
    }

    /// An empty cache over `mapping`.
    pub fn new(mapping: Mapping) -> (r: ValueCache)
        requires
            mapping.wf(),
        ensures
            r.wf(),
            r.mapping() == mapping,
            r.entries() == Map::<i32, Value>::empty(),
    {
        ValueCache { mapping, values: HashMap::new() }
    }

    pub fn mapping_of(&self) -> (r: Mapping)
        ensures
            r == self.mapping(),
    {
        self.mapping
    }

    /// The value of pixel `x`: taken from the cache where it was computed
    /// before, else interpolated and stored.
    pub fn value(&mut self, x: i32) -> (r: Value)
        requires
            old(self).wf(),
        ensures
            final(self).wf(),
            final(self).mapping() == old(self).mapping(),
            r == old(self).mapping().mapped(x as int),
            final(self).entries() == after_request(old(self).entries(), old(self).mapping(), x),
    {
        match self.values.get(&x) {
            Some(v) => {
                assert(self.entries().contains_key(x));
                *v
            },
            None => {
                let v = self.mapping.interpolate(x);
                self.values.insert(x, v);
                assert(self.values@ == old(self).values@.insert(x, v));
                assert forall|y: i32| #[trigger]
                    self.entries().contains_key(y) implies self.entries()[y]
                    == self.mapping().mapped(y as int) by {
                    if y != x {
                        assert(old(self).entries().contains_key(y));
                    }
                }
                v
            },
        }
    }

    /// How many values have been interpolated: the number of entries.
    pub fn computations(&self) -> (r: usize)
        ensures
            r == self.entries().len(),
    {
        self.values.len()
    }
}

/// Asking twice for one offset gives the mapping's value of it both times,
/// and the second request changes nothing: no value is computed again.
pub proof fn lemma_repeat_is_cached(c: ValueCache, x: i32)
    requires
        c.wf(),
    ensures
        ({
            let once = after_request(c.entries(), c.mapping(), x);
            &&& once.contains_key(x)
            &&& once[x] == c.mapping().mapped(x as int)
            &&& after_request(once, c.mapping(), x) == once
        }),
{
}

} // verus!
