use vstd::prelude::*;
use crate::ir::RegisterId;
use crate::value::Value;

verus! {

/// The registers of one activation: each register id holds the value last written to it.
pub struct RegisterMap {
    inner: Vec<(RegisterId, Value)>,
    contents: Ghost<Map<RegisterId, Value>>,
}

impl View for RegisterMap {
    type V = Map<RegisterId, Value>;

    closed spec fn view(&self) -> Map<RegisterId, Value> {
        self.contents@
    }
}

impl RegisterMap {
    /// Each entry is in the map, no id has two entries, and each key has an entry.
    pub closed spec fn wf(&self) -> bool {
        &&& forall|i: int|
            0 <= i < self.inner@.len() ==> #[trigger] self.contents@.contains_key(self.inner@[i].0)
                && self.contents@[self.inner@[i].0] == self.inner@[i].1
        &&& forall|i: int, j: int|
            0 <= i < self.inner@.len() && 0 <= j < self.inner@.len() && #[trigger] self.inner@[i].0
                == #[trigger] self.inner@[j].0 ==> i == j
        &&& forall|k: RegisterId|
            #[trigger] self.contents@.contains_key(k) ==> exists|i: int|
                0 <= i < self.inner@.len() && self.inner@[i].0 == k
    }

    pub fn new() -> (r: RegisterMap)
        ensures
            r.wf(),
            r@ == Map::<RegisterId, Value>::empty(),
    {
        RegisterMap { inner: Vec::new(), contents: Ghost(Map::empty()) }
    }

    fn find(&self, rid: &RegisterId) -> (r: Option<usize>)
        requires
            self.wf(),
        ensures
            match r {
                Some(i) => i < self.inner@.len() && self.inner@[i as int].0 == *rid,
                None => !self@.contains_key(*rid),
            },
    {
        let mut i: usize = 0;
        while i < self.inner.len()
            invariant
                self.wf(),
                i <= self.inner@.len(),
                forall|j: int| 0 <= j < i ==> self.inner@[j].0 != *rid,
            decreases self.inner@.len() - i,
        {
            if self.inner[i].0 == *rid {
                return Some(i);
            }
            i = i + 1;
        }
        None
    }

    /// The value last written to `rid`, or `None` where nothing was written to it.
    pub fn read(&self, rid: &RegisterId) -> (r: Option<Value>)
        requires
            self.wf(),
        ensures
            r == (if self@.contains_key(*rid) {
                Some(self@[*rid])
            } else {
                None
            }),
    {
        match self.find(rid) {
            Some(i) => Some(self.inner[i].1),
            None => None,
        }
    }

    /// Writes `value` to `rid`, replacing what it held.
    pub fn write(&mut self, rid: RegisterId, value: Value)
        requires
            old(self).wf(),
        ensures
            final(self).wf(),
            final(self)@ == old(self)@.insert(rid, value),
    {
        let ghost new_map = self.contents@.insert(rid, value);
        match self.find(&rid) {
            Some(i) => {
                self.inner.set(i, (rid, value));
                self.contents = Ghost(new_map);
                assert forall|j: int| 0 <= j < self.inner@.len() implies #[trigger] self.contents@.contains_key(self.inner@[j].0)
                    && self.contents@[self.inner@[j].0] == self.inner@[j].1 by {
                    if j != i {
                        assert(old(self).inner@[j].0 != old(self).inner@[i as int].0);
                    }
                }
                assert forall|k: RegisterId| #[trigger] self.contents@.contains_key(k) implies exists|
                    j: int,
                | 0 <= j < self.inner@.len() && self.inner@[j].0 == k by {
                    if k != rid {
                        assert(old(self).contents@.contains_key(k));
                        let j = choose|j: int| 0 <= j < old(self).inner@.len() && old(self).inner@[j].0 == k;
                        assert(self.inner@[j].0 == k);
                    } else {
                        assert(self.inner@[i as int].0 == k);
                    }
                }
            },
            None => {
                self.inner.push((rid, value));
                self.contents = Ghost(new_map);
                assert forall|j: int| 0 <= j < old(self).inner@.len() implies #[trigger] self.inner@[j].0 != rid by {
                    assert(old(self).contents@.contains_key(old(self).inner@[j].0));
                }
                assert forall|k: RegisterId| #[trigger] self.contents@.contains_key(k) implies exists|
                    j: int,
                | 0 <= j < self.inner@.len() && self.inner@[j].0 == k by {
                    if k != rid {
                        assert(old(self).contents@.contains_key(k));
                        let j = choose|j: int| 0 <= j < old(self).inner@.len() && old(self).inner@[j].0 == k;
                        assert(self.inner@[j].0 == k);
                    } else {
                        assert(self.inner@[self.inner@.len() - 1].0 == k);
                    }
                }
            },
        }
    }
}

} // verus!
