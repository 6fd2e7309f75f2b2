use vstd::prelude::*;
use crate::interp::InterpreterError;

verus! {

/// A bijection between the names of global variables and functions and the ids
/// of the memory blocks that hold them.
pub struct GlobalMap {
    entries: Vec<(String, usize)>,
    var_to_bid: Ghost<Map<Seq<char>, usize>>,
    bid_to_var: Ghost<Map<usize, Seq<char>>>,
}

impl GlobalMap {
    /// The block id of each registered name.
    pub closed spec fn bids(&self) -> Map<Seq<char>, usize> {
        self.var_to_bid@
    }

    /// The name registered for each block id.
    pub closed spec fn vars(&self) -> Map<usize, Seq<char>> {
        self.bid_to_var@
    }

    /// The two maps are inverse to each other, and the entries hold exactly them.
    pub closed spec fn wf(&self) -> bool {
        &&& forall|i: int|
            0 <= i < self.entries@.len() ==> {
                let (n, b) = #[trigger] self.entries@[i];
                &&& self.var_to_bid@.contains_key(n@)
                &&& self.var_to_bid@[n@] == b
                &&& self.bid_to_var@.contains_key(b)
                &&& self.bid_to_var@[b] == n@
            }
        &&& forall|n: Seq<char>|
            #[trigger] self.var_to_bid@.contains_key(n) ==> exists|i: int|
                0 <= i < self.entries@.len() && self.entries@[i].0@ == n
        &&& forall|b: usize|
            #[trigger] self.bid_to_var@.contains_key(b) ==> exists|i: int|
                0 <= i < self.entries@.len() && self.entries@[i].1 == b
    }

    pub fn new() -> (r: GlobalMap)
        ensures
            r.wf(),
            r.bids() == Map::<Seq<char>, usize>::empty(),
            r.vars() == Map::<usize, Seq<char>>::empty(),
    {
        GlobalMap { entries: Vec::new(), var_to_bid: Ghost(Map::empty()), bid_to_var: Ghost(Map::empty()) }
    }

    /// Relates `var` and `bid` in both directions. Each name and each block id
    /// is registered at most once.
    pub fn insert(&mut self, var: String, bid: usize) -> (r: Result<(), InterpreterError>)
        requires
            old(self).wf(),
            !old(self).bids().contains_key(var@),
            !old(self).vars().contains_key(bid),
        ensures
            r is Ok,
            final(self).wf(),
            final(self).bids() == old(self).bids().insert(var@, bid),
            final(self).vars() == old(self).vars().insert(bid, var@),
    {
        let ghost name = var@;
        self.entries.push((var, bid));
        self.var_to_bid = Ghost(self.var_to_bid@.insert(name, bid));
        self.bid_to_var = Ghost(self.bid_to_var@.insert(bid, name));
        assert forall|i: int| 0 <= i < old(self).entries@.len() implies #[trigger] self.entries@[i].0@
            != name && self.entries@[i].1 != bid by {
            assert(old(self).entries@[i] == self.entries@[i]);
        }
        assert forall|n: Seq<char>| #[trigger] self.var_to_bid@.contains_key(n) implies exists|i: int|
            0 <= i < self.entries@.len() && self.entries@[i].0@ == n by {
            if n != name {
                let i = choose|i: int| 0 <= i < old(self).entries@.len() && old(self).entries@[i].0@ == n;
                assert(self.entries@[i].0@ == n);
            } else {
                assert(self.entries@[self.entries@.len() - 1].0@ == n);
            }
        }
        assert forall|b: usize| #[trigger] self.bid_to_var@.contains_key(b) implies exists|i: int|
            0 <= i < self.entries@.len() && self.entries@[i].1 == b by {
            if b != bid {
                let i = choose|i: int| 0 <= i < old(self).entries@.len() && old(self).entries@[i].1 == b;
                assert(self.entries@[i].1 == b);
            } else {
                assert(self.entries@[self.entries@.len() - 1].1 == b);
            }
        }
        Ok(())
    }

    /// The block id registered for `var`, if any.
    pub fn get_bid(&self, var: &String) -> (r: Option<usize>)
        requires
            self.wf(),
        ensures
            r == (if self.bids().contains_key(var@) {
                Some(self.bids()[var@])
            } else {
                None
            }),
    {
        let mut i: usize = 0;
        while i < self.entries.len()
            invariant
                self.wf(),
                i <= self.entries@.len(),
                forall|j: int| 0 <= j < i ==> self.entries@[j].0@ != var@,
            decreases self.entries@.len() - i,
        {
            if self.entries[i].0 == *var {
                return Some(self.entries[i].1);
            }
            i = i + 1;
        }
        None
    }

    /// The name registered for `bid`, if any.
    pub fn get_var(&self, bid: usize) -> (r: Option<String>)
        requires
            self.wf(),
        ensures
            match r {
                Some(s) => self.vars().contains_key(bid) && s@ == self.vars()[bid],
                None => !self.vars().contains_key(bid),
            },
    {
        let mut i: usize = 0;
        while i < self.entries.len()
            invariant
                self.wf(),
                i <= self.entries@.len(),
                forall|j: int| 0 <= j < i ==> self.entries@[j].1 != bid,
            decreases self.entries@.len() - i,
        {
            if self.entries[i].1 == bid {
                return Some(self.entries[i].0.clone());
            }
            i = i + 1;
        }
        None
    }
}

/// Looking a name up and then its block id gives the name back, and the other
/// way round.
pub proof fn law_lookups_are_inverse(g: GlobalMap)
    requires
        g.wf(),
    ensures
        forall|n: Seq<char>|
            #[trigger] g.bids().contains_key(n) ==> g.vars().contains_key(g.bids()[n])
                && g.vars()[g.bids()[n]] == n,
        forall|b: usize|
            #[trigger] g.vars().contains_key(b) ==> g.bids().contains_key(g.vars()[b])
                && g.bids()[g.vars()[b]] == b,
{
    assert forall|n: Seq<char>| #[trigger] g.bids().contains_key(n) implies g.vars().contains_key(
        g.bids()[n],
    ) && g.vars()[g.bids()[n]] == n by {
        let i = choose|i: int| 0 <= i < g.entries@.len() && g.entries@[i].0@ == n;
        assert(g.entries@[i] == g.entries@[i]);
    }
    assert forall|b: usize| #[trigger] g.vars().contains_key(b) implies g.bids().contains_key(
        g.vars()[b],
    ) && g.bids()[g.vars()[b]] == b by {
        let i = choose|i: int| 0 <= i < g.entries@.len() && g.entries@[i].1 == b;
        assert(g.entries@[i] == g.entries@[i]);
    }
}

} // verus!
