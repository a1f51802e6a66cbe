//! Reaching definitions: the set of program points that may have produced
//! a location's current value.
use crate::lattice::{Lattice, LocIdx};
use vstd::prelude::*;

verus! {

/// A finite set of definition sites; meet is union and the default is the
/// empty set, so a larger set lies lower in the order.
#[derive(Debug)]
pub struct ReachLattice {
    pub defs: Vec<LocIdx>,
}

impl View for ReachLattice {
    type V = Set<LocIdx>;

    open spec fn view(&self) -> Set<LocIdx> {
        self.defs@.to_set()
    }
}

impl ReachLattice {
    /// The set holding just `loc`.
    pub fn singleton(loc: LocIdx) -> (r: Self)
        ensures
            r@ == Set::empty().insert(loc),
    {
        let mut defs: Vec<LocIdx> = Vec::new();
        defs.push(loc);
        let r = ReachLattice { defs };
        assert(r.defs@ =~= seq![loc]);
        assert(r@ =~= Set::empty().insert(loc)) by {
            assert forall|x: LocIdx| r@.contains(x) <==> x == loc by {
                if x == loc {
                    assert(r.defs@[0] == loc);
                }
            }
        }
        r
    }

    pub fn contains(&self, loc: &LocIdx) -> (r: bool)
        ensures
            r == self@.contains(*loc),
    {
        let mut i: usize = 0;
        while i < self.defs.len()
            invariant
                i <= self.defs.len(),
                forall|j: int| 0 <= j < i ==> self.defs@[j] != *loc,
            decreases self.defs.len() - i,
        {
            if self.defs[i] == *loc {
                assert(self.defs@[i as int] == *loc);
                return true;
            }
            i = i + 1;
        }
        false
    }

    pub fn is_empty(&self) -> (r: bool)
        ensures
            r == (self@ == Set::<LocIdx>::empty()),
    {
        if self.defs.len() == 0 {
            assert(self@ =~= Set::<LocIdx>::empty());
            true
        } else {
            assert(self@.contains(self.defs@[0]));
            false
        }
    }

    /// Whether every definition of `self` is one of `other`.
    fn subset_of(&self, other: &Self) -> (r: bool)
        ensures
            r == self@.subset_of(other@),
    {
        let mut i: usize = 0;
        while i < self.defs.len()
            invariant
                i <= self.defs.len(),
                forall|j: int| 0 <= j < i ==> other@.contains(#[trigger] self.defs@[j]),
            decreases self.defs.len() - i,
        {
            if !other.contains(&self.defs[i]) {
                assert(self@.contains(self.defs@[i as int]));
                return false;
            }
            i = i + 1;
        }
        true
    }
}

impl Lattice for ReachLattice {
    open spec fn wf(&self) -> bool {
        true
    }

    open spec fn le_v(a: Set<LocIdx>, b: Set<LocIdx>) -> bool {
        b.subset_of(a)
    }

    open spec fn meet_v(a: Set<LocIdx>, b: Set<LocIdx>) -> Set<LocIdx> {
        a.union(b)
    }

    open spec fn bot_v() -> Set<LocIdx> {
        Set::empty()
    }

    open spec fn valid_v(a: Set<LocIdx>) -> bool {
        true
    }

    proof fn lemma_valid(x: &Self) {
    }

    proof fn lemma_bot_valid() {
    }

    proof fn lemma_laws(a: Set<LocIdx>, b: Set<LocIdx>, c: Set<LocIdx>) {
        assert(a.union(a) =~= a);
    }

    fn meet(&self, other: &Self, loc: &LocIdx) -> (r: Self) {
        let mut defs: Vec<LocIdx> = Vec::new();
        let mut i: usize = 0;
        while i < self.defs.len()
            invariant
                i <= self.defs.len(),
                defs@ == self.defs@.take(i as int),
            decreases self.defs.len() - i,
        {
            defs.push(self.defs[i]);
            assert(self.defs@.take(i + 1) =~= self.defs@.take(i as int).push(self.defs@[i as int]));
            i = i + 1;
        }
        assert(self.defs@.take(i as int) =~= self.defs@);
        let mut j: usize = 0;
        while j < other.defs.len()
            invariant
                j <= other.defs.len(),
                defs@.to_set() == self@.union(other.defs@.take(j as int).to_set()),
            decreases other.defs.len() - j,
        {
            let x = other.defs[j];
            let cur = ReachLattice { defs };
            let found = cur.contains(&x);
            defs = cur.defs;
            let ghost before = defs@;
            if !found {
                defs.push(x);
            }
            let ghost t1 = other.defs@.take(j + 1);
            let ghost t0 = other.defs@.take(j as int);
            assert(t1 =~= t0.push(x));
            assert(defs@.to_set() =~= self@.union(other.defs@.take(j + 1).to_set())) by {
                assert forall|y: LocIdx| defs@.to_set().contains(y) <==> self@.union(
                    other.defs@.take(j + 1).to_set(),
                ).contains(y) by {
                    if y == x {
                        assert(t1[j as int] == x);
                        if !found {
                            assert(defs@[before.len() as int] == x);
                        }
                    }
                    if defs@.to_set().contains(y) {
                        let k = choose|k: int| 0 <= k < defs@.len() && defs@[k] == y;
                        if k < before.len() {
                            assert(before[k] == y);
                            assert(before.to_set().contains(y));
                        }
                    }
                    if before.to_set().contains(y) {
                        let k = choose|k: int| 0 <= k < before.len() && before[k] == y;
                        assert(defs@[k] == y);
                    }
                    if t1.to_set().contains(y) {
                        let k = choose|k: int| 0 <= k < t1.len() && #[trigger] t1[k] == y;
                        if k < j {
                            assert(t0[k] == y);
                        }
                    }
                    if t0.to_set().contains(y) {
                        let k = choose|k: int| 0 <= k < t0.len() && #[trigger] t0[k] == y;
                        assert(t1[k] == y);
                    }
                }
            }
            j = j + 1;
        }
        assert(other.defs@.take(j as int) =~= other.defs@);
        ReachLattice { defs }
    }

    fn bot() -> (r: Self) {
        let r = ReachLattice { defs: Vec::new() };
        assert(r@ =~= Set::<LocIdx>::empty());
        r
    }

    fn duplicate(&self) -> (r: Self) {
        let mut defs: Vec<LocIdx> = Vec::new();
        let mut i: usize = 0;
        while i < self.defs.len()
            invariant
                i <= self.defs.len(),
                defs@ == self.defs@.take(i as int),
            decreases self.defs.len() - i,
        {
            defs.push(self.defs[i]);
            assert(self.defs@.take(i + 1) =~= self.defs@.take(i as int).push(self.defs@[i as int]));
            i = i + 1;
        }
        assert(self.defs@.take(i as int) =~= self.defs@);
        ReachLattice { defs }
    }

    fn same(&self, other: &Self) -> (r: bool) {
        let r = self.subset_of(other) && other.subset_of(self);
        proof {
            if self@.subset_of(other@) && other@.subset_of(self@) {
                assert(self@ =~= other@);
            }
        }
        r
    }
}

} // verus!
