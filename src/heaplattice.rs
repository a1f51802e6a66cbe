//! The heap analysis's value domain.
use crate::lattice::{const_cmp, const_le, const_meet, lemma_const_laws, ConstLattice, Lattice, LocIdx};
use std::cmp::Ordering;
use vstd::prelude::*;

verus! {

/// What a location is known to hold, as far as sandboxing is concerned.
#[derive(Clone, Copy, PartialEq, Eq, Debug, Structural)]
pub enum HeapValue {
    HeapBase,
    GlobalsBase,
    /// A value in `[0, 2^32)`.
    Bounded4GB,
    /// A value in `[0, 2^8)`.
    Bounded256B,
    LucetTables,
    GuestTable0,
    /// `%rdi` at entry of a WAMR function.
    WamrExecEnv,
    WamrModuleInstance,
    WamrStackLimit,
    WamrFuncTypeTable,
    WamrFuncPtrsTable,
}

/// Offset of the global data base within a WAMR ExecEnv.
pub const WAMR_GLOBALSBASE_OFFSET: i64 = 0x18;
/// Offset of the current ModuleInstance within a WAMR ExecEnv.
pub const WAMR_MODULEINSTANCE_OFFSET: i64 = 0x10;
/// Offset of the native stack limit within a WAMR ExecEnv.
pub const WAMR_STACKLIMIT_OFFSET: i64 = 0x20;
/// Offset of the linear memory base within a WAMR ModuleInstance.
pub const WAMR_HEAPBASE_OFFSET: i64 = 0x150;
/// Offset of the current exception within a WAMR ModuleInstance.
pub const WAMR_EXCEPTION_OFFSET: i64 = 0x68;
/// Offset of the memory bound within a WAMR ModuleInstance.
pub const WAMR_MEMBOUNDS_OFFSET: i64 = 0x1a0;
/// Offset of the function index table within a WAMR ModuleInstance.
pub const WAMR_FUNCINDS_OFFSET: i64 = 0x1a8;
/// Offset of the global variables within a WAMR ModuleInstance.
pub const WAMR_GLOBALS_OFFSET: i64 = 0x1a8;
/// Offset of the function pointer table within a WAMR ModuleInstance.
pub const WAMR_FUNCPTRS_OFFSET: i64 = 0x28;
/// Offset of the function type table within a WAMR ModuleInstance.
pub const WAMR_FUNCTYPE_OFFSET: i64 = 0x30;
/// Offset of the current page count within a WAMR ModuleInstance.
pub const WAMR_PAGECNT_OFFSET: i64 = 0x144;

pub type HeapValueLattice = ConstLattice<HeapValue>;

impl View for ConstLattice<HeapValue> {
    type V = Option<HeapValue>;

    open spec fn view(&self) -> Option<HeapValue> {
        self.v
    }
}

impl PartialEq for ConstLattice<HeapValue> {
    fn eq(&self, other: &Self) -> (r: bool) {
        self.v == other.v
    }
}

impl vstd::std_specs::cmp::PartialEqSpecImpl for ConstLattice<HeapValue> {
    open spec fn obeys_eq_spec() -> bool {
        true
    }

    open spec fn eq_spec(&self, other: &Self) -> bool {
        self.v == other.v
    }
}

impl Eq for ConstLattice<HeapValue> {}

impl PartialOrd for ConstLattice<HeapValue> {
    fn partial_cmp(&self, other: &Self) -> (r: Option<Ordering>) {
        match (self.v, other.v) {
            (None, None) => Some(Ordering::Equal),
            (None, _) => Some(Ordering::Less),
            (_, None) => Some(Ordering::Greater),
            (Some(x), Some(y)) => if x == y {
                Some(Ordering::Equal)
            } else {
                None
            },
        }
    }
}

impl vstd::std_specs::cmp::PartialOrdSpecImpl for ConstLattice<HeapValue> {
    open spec fn obeys_partial_cmp_spec() -> bool {
        true
    }

    open spec fn partial_cmp_spec(&self, other: &Self) -> Option<Ordering> {
        const_cmp(self.v, other.v)
    }
}

impl Default for ConstLattice<HeapValue> {
    fn default() -> (r: Self)
        ensures
            r.v is None,
    {
        ConstLattice { v: None }
    }
}

impl Lattice for ConstLattice<HeapValue> {
    open spec fn wf(&self) -> bool {
        true
    }

    open spec fn le_v(a: Option<HeapValue>, b: Option<HeapValue>) -> bool {
        const_le(a, b)
    }

    open spec fn meet_v(a: Option<HeapValue>, b: Option<HeapValue>) -> Option<HeapValue> {
        const_meet(a, b)
    }

    open spec fn bot_v() -> Option<HeapValue> {
        None
    }

    open spec fn valid_v(a: Option<HeapValue>) -> bool {
        true
    }

    proof fn lemma_valid(x: &Self) {
    }

    proof fn lemma_bot_valid() {
    }

    proof fn lemma_laws(a: Option<HeapValue>, b: Option<HeapValue>, c: Option<HeapValue>) {
        lemma_const_laws(a, b, c);
    }

    fn meet(&self, other: &Self, loc: &LocIdx) -> (r: Self) {
        if self.v == other.v {
            ConstLattice { v: self.v }
        } else {
            ConstLattice { v: None }
        }
    }

    fn bot() -> (r: Self) {
        ConstLattice { v: None }
    }

    fn duplicate(&self) -> (r: Self) {
        ConstLattice { v: self.v }
    }

    fn same(&self, other: &Self) -> (r: bool) {
        self.v == other.v
    }
}

} // verus!
