//! The stack analysis's value domain: how far `%rsp` has moved since entry,
//! how many bytes below it are known to have been probed, and where the
//! callee-saved registers were pushed.
use crate::lattice::{const_cmp, ConstLattice, Lattice, LocIdx};
use std::cmp::Ordering;
use std::collections::HashMap;
use vstd::prelude::*;

verus! {

broadcast use vstd::std_specs::hash::group_hash_axioms;

/// `(growth, probed, saved)`: `growth` is the displacement of `%rsp` from
/// entry, `probed` the number of bytes below the entry frame known to be
/// touched, `saved` maps each pushed callee-saved register to the growth at
/// which it was pushed.
pub type StackGrowthLattice = ConstLattice<(i64, i64, HashMap<u8, i64>)>;

pub type StackGrowthView = Option<(i64, i64, Map<u8, i64>)>;

/// Upper bound (exclusive) of WAMR stack reads, relative to entry.
pub const WAMR_STACK_UPPER_BOUND: i64 = 4096;
/// Number of guard pages below a WAMR stack.
pub const WAMR_GUARD_PAGE_COUNT: i64 = 3;
/// Lower bound (exclusive) of WAMR stack accesses, relative to entry.
pub const WAMR_STACK_LOWER_BOUND: i64 = -12288;

/// The state at function entry.
pub open spec fn sg_init() -> StackGrowthView {
    Some((0i64, 4096i64, Map::empty()))
}

impl View for ConstLattice<(i64, i64, HashMap<u8, i64>)> {
    type V = StackGrowthView;

    open spec fn view(&self) -> StackGrowthView {
        match self.v {
            Some((g, p, m)) => Some((g, p, m@)),
            None => None,
        }
    }
}

/// Whether two saved-register maps hold the same entries.
fn same_saved(a: &HashMap<u8, i64>, b: &HashMap<u8, i64>) -> (r: bool)
    ensures
        r == (a@ == b@),
{
    let mut k: u16 = 0;
    while k < 256
        invariant
            k <= 256,
            forall|j: u8|
                (j as int) < k ==> (#[trigger] a@.contains_key(j)) == b@.contains_key(j) && (
                a@.contains_key(j) ==> a@[j] == b@[j]),
        decreases 256 - k,
    {
        let key = k as u8;
        match (a.get(&key), b.get(&key)) {
            (None, None) => {},
            (Some(x), Some(y)) => {
                if *x != *y {
                    return false;
                }
            },
            _ => {
                return false;
            },
        }
        k = k + 1;
    }
    assert(a@ =~= b@);
    true
}

impl PartialEq for ConstLattice<(i64, i64, HashMap<u8, i64>)> {
    fn eq(&self, other: &Self) -> (r: bool) {
        match (&self.v, &other.v) {
            (None, None) => true,
            (Some((g1, p1, m1)), Some((g2, p2, m2))) => *g1 == *g2 && *p1 == *p2 && same_saved(m1, m2),
            _ => false,
        }
    }
}

impl vstd::std_specs::cmp::PartialEqSpecImpl for ConstLattice<(i64, i64, HashMap<u8, i64>)> {
    open spec fn obeys_eq_spec() -> bool {
        true
    }

    open spec fn eq_spec(&self, other: &Self) -> bool {
        self@ == other@
    }
}

impl PartialOrd for ConstLattice<(i64, i64, HashMap<u8, i64>)> {
    fn partial_cmp(&self, other: &Self) -> (r: Option<Ordering>) {
        if self.eq(other) {
            Some(Ordering::Equal)
        } else if self.v.is_none() {
            Some(Ordering::Less)
        } else if other.v.is_none() {
            Some(Ordering::Greater)
        } else {
            None
        }
    }
}

impl vstd::std_specs::cmp::PartialOrdSpecImpl for ConstLattice<(i64, i64, HashMap<u8, i64>)> {
    open spec fn obeys_partial_cmp_spec() -> bool {
        true
    }

    open spec fn partial_cmp_spec(&self, other: &Self) -> Option<Ordering> {
        const_cmp(self@, other@)
    }
}

impl Lattice for ConstLattice<(i64, i64, HashMap<u8, i64>)> {
    open spec fn wf(&self) -> bool {
        true
    }

    open spec fn le_v(a: StackGrowthView, b: StackGrowthView) -> bool {
        a is None || a == b
    }

    open spec fn meet_v(a: StackGrowthView, b: StackGrowthView) -> StackGrowthView {
        if a == b {
            a
        } else {
            None
        }
    }

    open spec fn bot_v() -> StackGrowthView {
        None
    }

    open spec fn valid_v(a: StackGrowthView) -> bool {
        true
    }

    proof fn lemma_valid(x: &Self) {
    }

    proof fn lemma_bot_valid() {
    }

    proof fn lemma_laws(a: StackGrowthView, b: StackGrowthView, c: StackGrowthView) {
    }

    fn meet(&self, other: &Self, loc: &LocIdx) -> (r: Self) {
        if self.eq(other) {
            self.duplicate()
        } else {
            ConstLattice { v: None }
        }
    }

    fn bot() -> (r: Self) {
        ConstLattice { v: None }
    }

    fn duplicate(&self) -> (r: Self) {
        match &self.v {
            Some((g, p, m)) => ConstLattice { v: Some((*g, *p, m.clone())) },
            None => ConstLattice { v: None },
        }
    }

    fn same(&self, other: &Self) -> (r: bool) {
        self.eq(other)
    }
}

impl StackGrowthLattice {
    pub fn get_stackgrowth(&self) -> (r: Option<i64>)
        ensures
            r == match self@ {
                Some(t) => Some(t.0),
                None => None,
            },
    {
        match &self.v {
            Some((g, _, _)) => Some(*g),
            None => None,
        }
    }

    pub fn get_probestack(&self) -> (r: Option<i64>)
        ensures
            r == match self@ {
                Some(t) => Some(t.1),
                None => None,
            },
    {
        match &self.v {
            Some((_, p, _)) => Some(*p),
            None => None,
        }
    }

    /// Back to the entry state, unless nothing is known.
    pub fn clear(&mut self)
        ensures
            final(self)@ == match old(self)@ {
                Some(_) => sg_init(),
                None => None,
            },
    {
        if self.v.is_some() {
            self.v = Some((0, 4096, HashMap::new()));
        }
    }
}

} // verus!
