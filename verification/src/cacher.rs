//! A memoising cache: each input is computed once, and later requests for
//! it are answered from the cache.
use std::collections::HashMap;
use std::hash::Hash;
use vstd::prelude::*;
use vstd::std_specs::hash::obeys_key_model;

verus! {

broadcast use vstd::std_specs::hash::group_hash_axioms;

/// Computes values with `calc` and keeps each one it has computed.
#[verifier::reject_recursive_types(I)]
#[verifier::reject_recursive_types(O)]
pub struct Cacher<I, O, T> where T: Fn(I) -> O {
    calc: T,
    cache: HashMap<I, O>,
}

impl<I: Eq + Hash + Copy, O, T> Cacher<I, O, T> where T: Fn(I) -> O {
    /// The function that computes values.
    pub closed spec fn calc(&self) -> T {
        self.calc
    }

    /// The values computed so far, by input.
    pub closed spec fn cached(&self) -> Map<I, O> {
        self.cache@
    }

    /// A cache that has computed nothing yet.
    pub fn new(calc: T) -> (c: Self)
        ensures
            c.calc() == calc,
            c.cached() == Map::<I, O>::empty(),
    {
        Cacher { calc, cache: HashMap::new() }
    }

    /// The value for `n`: the one computed before, if there is one, else
    /// the one that `calc` computes now, which is kept.
    pub fn get(&mut self, n: &I) -> (r: &O)
        requires
            obeys_key_model::<I>(),
            call_requires(old(self).calc(), (*n,)),
        ensures
            final(self).calc() == old(self).calc(),
            old(self).cached().contains_key(*n) ==> *r == old(self).cached()[*n]
                && final(self).cached() == old(self).cached(),
            !old(self).cached().contains_key(*n) ==> call_ensures(old(self).calc(), (*n,), *r)
                && final(self).cached() == old(self).cached().insert(*n, *r),
    {
        let v = (self.calc)(*n);
        self.cache.entry(*n).or_insert(v)
    }
}

} // verus!
