//! Lattices: the value domains of the analyses and the laws they obey.
use std::cmp::Ordering;
use vstd::prelude::*;

verus! {

/// A program point: the address of an instruction and the index of one of
/// the statements it was lifted to.
#[derive(Clone, Copy, Debug, PartialEq, Eq, Structural)]
pub struct LocIdx {
    pub addr: u64,
    pub idx: u32,
}

/// A lattice value. `@` is its abstract value; `le_v` is the partial order
/// (`a ⊑ b`), `meet_v` the greatest lower bound and `bot_v` the default.
pub trait Lattice: Sized + View {
    spec fn wf(&self) -> bool;

    spec fn le_v(a: Self::V, b: Self::V) -> bool;

    spec fn meet_v(a: Self::V, b: Self::V) -> Self::V;

    spec fn bot_v() -> Self::V;

    /// The abstract values that well-formed lattice values have.
    spec fn valid_v(a: Self::V) -> bool;

    proof fn lemma_valid(x: &Self)
        requires
            x.wf(),
        ensures
            Self::valid_v(x@),
    ;

    proof fn lemma_bot_valid()
        ensures
            Self::valid_v(Self::bot_v()),
    ;

    /// The order is a preorder; meet is the greatest lower bound of its
    /// arguments and idempotent.
    proof fn lemma_laws(a: Self::V, b: Self::V, c: Self::V)
        requires
            Self::valid_v(a),
            Self::valid_v(b),
            Self::valid_v(c),
        ensures
            Self::valid_v(Self::meet_v(a, b)),
            Self::le_v(a, a),
            Self::le_v(a, b) && Self::le_v(b, c) ==> Self::le_v(a, c),
            Self::le_v(Self::meet_v(a, b), a),
            Self::le_v(Self::meet_v(a, b), b),
            Self::le_v(c, a) && Self::le_v(c, b) ==> Self::le_v(c, Self::meet_v(a, b)),
            Self::meet_v(a, a) == a,
    ;

    fn meet(&self, other: &Self, loc: &LocIdx) -> (r: Self)
        requires
            self.wf(),
            other.wf(),
        ensures
            r.wf(),
            r@ == Self::meet_v(self@, other@),
    ;

    fn bot() -> (r: Self)
        ensures
            r.wf(),
            r@ == Self::bot_v(),
    ;

    fn duplicate(&self) -> (r: Self)
        requires
            self.wf(),
        ensures
            r.wf(),
            r@ == self@,
    ;

    fn same(&self, other: &Self) -> (r: bool)
        requires
            self.wf(),
            other.wf(),
        ensures
            r == (self@ == other@),
    ;
}

/// Meet is idempotent in every domain: `x ⊓ x = x`.
pub proof fn lemma_meet_idempotent<L: Lattice>(x: L::V)
    requires
        L::valid_v(x),
    ensures
        L::meet_v(x, x) == x,
{
    L::lemma_laws(x, x, x);
}

/// Two-point lattice: `false ⊑ true`, meet is conjunction.
#[derive(Clone, Copy, Debug)]
pub struct BooleanLattice {
    pub v: bool,
}

impl View for BooleanLattice {
    type V = bool;

    open spec fn view(&self) -> bool {
        self.v
    }
}

pub open spec fn bool_cmp(a: bool, b: bool) -> Ordering {
    if a == b {
        Ordering::Equal
    } else if !a {
        Ordering::Less
    } else {
        Ordering::Greater
    }
}

impl PartialEq for BooleanLattice {
    fn eq(&self, other: &BooleanLattice) -> (r: bool) {
        self.v == other.v
    }
}

impl vstd::std_specs::cmp::PartialEqSpecImpl for BooleanLattice {
    open spec fn obeys_eq_spec() -> bool {
        true
    }

    open spec fn eq_spec(&self, other: &BooleanLattice) -> bool {
        self.v == other.v
    }
}

impl Eq for BooleanLattice {}

impl PartialOrd for BooleanLattice {
    fn partial_cmp(&self, other: &BooleanLattice) -> (r: Option<Ordering>) {
        if self.v == other.v {
            Some(Ordering::Equal)
        } else if !self.v {
            Some(Ordering::Less)
        } else {
            Some(Ordering::Greater)
        }
    }
}

impl vstd::std_specs::cmp::PartialOrdSpecImpl for BooleanLattice {
    open spec fn obeys_partial_cmp_spec() -> bool {
        true
    }

    open spec fn partial_cmp_spec(&self, other: &BooleanLattice) -> Option<Ordering> {
        Some(bool_cmp(self.v, other.v))
    }
}

impl Default for BooleanLattice {
    fn default() -> (r: BooleanLattice)
        ensures
            r.v == false,
    {
        BooleanLattice { v: false }
    }
}

impl Lattice for BooleanLattice {
    open spec fn wf(&self) -> bool {
        true
    }

    open spec fn le_v(a: bool, b: bool) -> bool {
        !a || b
    }

    open spec fn meet_v(a: bool, b: bool) -> bool {
        a && b
    }

    open spec fn bot_v() -> bool {
        false
    }

    open spec fn valid_v(a: bool) -> bool {
        true
    }

    proof fn lemma_valid(x: &Self) {
    }

    proof fn lemma_bot_valid() {
    }

    proof fn lemma_laws(a: bool, b: bool, c: bool) {
    }

    fn meet(&self, other: &Self, loc: &LocIdx) -> (r: Self) {
        BooleanLattice { v: self.v && other.v }
    }

    fn bot() -> (r: Self) {
        BooleanLattice { v: false }
    }

    fn duplicate(&self) -> (r: Self) {
        BooleanLattice { v: self.v }
    }

    fn same(&self, other: &Self) -> (r: bool) {
        self.v == other.v
    }
}

/// Flat lattice over `T`: `None` is the default and lies below every
/// constant; two different constants are unordered.
#[derive(Clone, Copy, Debug)]
pub struct ConstLattice<T> {
    pub v: Option<T>,
}

impl<T> ConstLattice<T> {
    pub fn new(v: T) -> (r: Self)
        ensures
            r.v == Some(v),
    {
        ConstLattice { v: Some(v) }
    }
}

pub open spec fn const_le<T>(a: Option<T>, b: Option<T>) -> bool {
    a is None || a == b
}

pub open spec fn const_meet<T>(a: Option<T>, b: Option<T>) -> Option<T> {
    if a == b {
        a
    } else {
        None
    }
}

pub open spec fn const_cmp<T>(a: Option<T>, b: Option<T>) -> Option<Ordering> {
    if a == b {
        Some(Ordering::Equal)
    } else if a is None {
        Some(Ordering::Less)
    } else if b is None {
        Some(Ordering::Greater)
    } else {
        None
    }
}

pub proof fn lemma_const_laws<T>(a: Option<T>, b: Option<T>, c: Option<T>)
    ensures
        const_le(a, a),
        const_le(a, b) && const_le(b, c) ==> const_le(a, c),
        const_le(const_meet(a, b), a),
        const_le(const_meet(a, b), b),
        const_meet(a, a) == a,
        const_meet(a, b) == const_meet(b, a),
{
}

/// Flat lattice over 32-bit constants.
pub type Constu32Lattice = ConstLattice<u32>;

impl View for ConstLattice<u32> {
    type V = Option<u32>;

    open spec fn view(&self) -> Option<u32> {
        self.v
    }
}

impl PartialEq for ConstLattice<u32> {
    fn eq(&self, other: &Self) -> (r: bool) {
        self.v == other.v
    }
}

impl vstd::std_specs::cmp::PartialEqSpecImpl for ConstLattice<u32> {
    open spec fn obeys_eq_spec() -> bool {
        true
    }

    open spec fn eq_spec(&self, other: &Self) -> bool {
        self.v == other.v
    }
}

impl Eq for ConstLattice<u32> {}

impl PartialOrd for ConstLattice<u32> {
    fn partial_cmp(&self, other: &Self) -> (r: Option<Ordering>) {
        match (self.v, other.v) {
            (None, None) => Some(Ordering::Equal),
            (None, _) => Some(Ordering::Less),
            (_, None) => Some(Ordering::Greater),
            (Some(x), Some(y)) => if x == y {
                Some(Ordering::Equal)
            } else {
                None
            },
        }
    }
}

impl vstd::std_specs::cmp::PartialOrdSpecImpl for ConstLattice<u32> {
    open spec fn obeys_partial_cmp_spec() -> bool {
        true
    }

    open spec fn partial_cmp_spec(&self, other: &Self) -> Option<Ordering> {
        const_cmp(self.v, other.v)
    }
}

impl Default for ConstLattice<u32> {
    fn default() -> (r: Self)
        ensures
            r.v is None,
    {
        ConstLattice { v: None }
    }
}

impl Lattice for ConstLattice<u32> {
    open spec fn wf(&self) -> bool {
        true
    }

    open spec fn le_v(a: Option<u32>, b: Option<u32>) -> bool {
        const_le(a, b)
    }

    open spec fn meet_v(a: Option<u32>, b: Option<u32>) -> Option<u32> {
        const_meet(a, b)
    }

    open spec fn bot_v() -> Option<u32> {
        None
    }

    open spec fn valid_v(a: Option<u32>) -> bool {
        true
    }

    proof fn lemma_valid(x: &Self) {
    }

    proof fn lemma_bot_valid() {
    }

    proof fn lemma_laws(a: Option<u32>, b: Option<u32>, c: Option<u32>) {
        lemma_const_laws(a, b, c);
    }

    fn meet(&self, other: &Self, loc: &LocIdx) -> (r: Self) {
        if self.v == other.v {
            ConstLattice { v: self.v }
        } else {
            ConstLattice { v: None }
        }
    }

    fn bot() -> (r: Self) {
        ConstLattice { v: None }
    }

    fn duplicate(&self) -> (r: Self) {
        ConstLattice { v: self.v }
    }

    fn same(&self, other: &Self) -> (r: bool) {
        self.v == other.v
    }
}

} // verus!
