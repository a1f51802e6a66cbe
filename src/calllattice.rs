//! The call analysis's value domain.
use crate::lattice::{const_le, const_meet, lemma_const_laws, ConstLattice, Lattice, LocIdx};
use crate::reach::ReachLattice;
use crate::varstate::VariableState;
use vstd::prelude::*;

verus! {

/// Whether a table offset is known to have passed its bounds check; an
/// unchecked one remembers the definitions of the index it was computed
/// from, so that a later check of that index resolves it.
#[derive(Debug)]
pub enum DAV {
    Checked,
    Unchecked(ReachLattice),
}

#[derive(Debug)]
pub enum CallCheckValue {
    LucetTablesBase,
    GuestTableBase,
    TableSize,
    FnPtr,
    CheckedVal,
    /// The zero flag holds a comparison that, on the equality-taken edge,
    /// bounds register `.1` by `.0`.
    CheckFlag(u32, u8),
    PtrOffset(DAV),
    WamrExecEnv,
    WamrModuleInstance,
    WamrFuncPtrsTable,
    WamrFuncTypeTable,
    WamrFuncIdx,
    WamrChecked(u32),
}

pub enum DavView {
    Checked,
    Unchecked(Set<LocIdx>),
}

/// A call-lattice value with its definition sets taken as sets.
pub enum CallView {
    LucetTablesBase,
    GuestTableBase,
    TableSize,
    FnPtr,
    CheckedVal,
    CheckFlag(u32, u8),
    PtrOffset(DavView),
    WamrExecEnv,
    WamrModuleInstance,
    WamrFuncPtrsTable,
    WamrFuncTypeTable,
    WamrFuncIdx,
    WamrChecked(u32),
}

impl View for DAV {
    type V = DavView;

    open spec fn view(&self) -> DavView {
        match self {
            DAV::Checked => DavView::Checked,
            DAV::Unchecked(d) => DavView::Unchecked(d@),
        }
    }
}

impl View for CallCheckValue {
    type V = CallView;

    open spec fn view(&self) -> CallView {
        match self {
            CallCheckValue::LucetTablesBase => CallView::LucetTablesBase,
            CallCheckValue::GuestTableBase => CallView::GuestTableBase,
            CallCheckValue::TableSize => CallView::TableSize,
            CallCheckValue::FnPtr => CallView::FnPtr,
            CallCheckValue::CheckedVal => CallView::CheckedVal,
            CallCheckValue::CheckFlag(v, r) => CallView::CheckFlag(*v, *r),
            CallCheckValue::PtrOffset(d) => CallView::PtrOffset(d@),
            CallCheckValue::WamrExecEnv => CallView::WamrExecEnv,
            CallCheckValue::WamrModuleInstance => CallView::WamrModuleInstance,
            CallCheckValue::WamrFuncPtrsTable => CallView::WamrFuncPtrsTable,
            CallCheckValue::WamrFuncTypeTable => CallView::WamrFuncTypeTable,
            CallCheckValue::WamrFuncIdx => CallView::WamrFuncIdx,
            CallCheckValue::WamrChecked(v) => CallView::WamrChecked(*v),
        }
    }
}

impl CallCheckValue {
    pub fn duplicate(&self) -> (r: Self)
        ensures
            r@ == self@,
    {
        match self {
            CallCheckValue::LucetTablesBase => CallCheckValue::LucetTablesBase,
            CallCheckValue::GuestTableBase => CallCheckValue::GuestTableBase,
            CallCheckValue::TableSize => CallCheckValue::TableSize,
            CallCheckValue::FnPtr => CallCheckValue::FnPtr,
            CallCheckValue::CheckedVal => CallCheckValue::CheckedVal,
            CallCheckValue::CheckFlag(v, r) => CallCheckValue::CheckFlag(*v, *r),
            CallCheckValue::PtrOffset(DAV::Checked) => CallCheckValue::PtrOffset(DAV::Checked),
            CallCheckValue::PtrOffset(DAV::Unchecked(d)) => CallCheckValue::PtrOffset(
                DAV::Unchecked(d.duplicate()),
            ),
            CallCheckValue::WamrExecEnv => CallCheckValue::WamrExecEnv,
            CallCheckValue::WamrModuleInstance => CallCheckValue::WamrModuleInstance,
            CallCheckValue::WamrFuncPtrsTable => CallCheckValue::WamrFuncPtrsTable,
            CallCheckValue::WamrFuncTypeTable => CallCheckValue::WamrFuncTypeTable,
            CallCheckValue::WamrFuncIdx => CallCheckValue::WamrFuncIdx,
            CallCheckValue::WamrChecked(v) => CallCheckValue::WamrChecked(*v),
        }
    }

    pub fn same(&self, other: &Self) -> (r: bool)
        ensures
            r == (self@ == other@),
    {
        match (self, other) {
            (CallCheckValue::LucetTablesBase, CallCheckValue::LucetTablesBase) => true,
            (CallCheckValue::GuestTableBase, CallCheckValue::GuestTableBase) => true,
            (CallCheckValue::TableSize, CallCheckValue::TableSize) => true,
            (CallCheckValue::FnPtr, CallCheckValue::FnPtr) => true,
            (CallCheckValue::CheckedVal, CallCheckValue::CheckedVal) => true,
            (CallCheckValue::CheckFlag(v1, r1), CallCheckValue::CheckFlag(v2, r2)) => *v1 == *v2 && *r1
                == *r2,
            (CallCheckValue::PtrOffset(DAV::Checked), CallCheckValue::PtrOffset(DAV::Checked)) => true,
            (
                CallCheckValue::PtrOffset(DAV::Unchecked(d1)),
                CallCheckValue::PtrOffset(DAV::Unchecked(d2)),
            ) => d1.same(d2),
            (CallCheckValue::WamrExecEnv, CallCheckValue::WamrExecEnv) => true,
            (CallCheckValue::WamrModuleInstance, CallCheckValue::WamrModuleInstance) => true,
            (CallCheckValue::WamrFuncPtrsTable, CallCheckValue::WamrFuncPtrsTable) => true,
            (CallCheckValue::WamrFuncTypeTable, CallCheckValue::WamrFuncTypeTable) => true,
            (CallCheckValue::WamrFuncIdx, CallCheckValue::WamrFuncIdx) => true,
            (CallCheckValue::WamrChecked(v1), CallCheckValue::WamrChecked(v2)) => *v1 == *v2,
            _ => false,
        }
    }
}

pub type CallCheckValueLattice = ConstLattice<CallCheckValue>;

pub type CallCheckLattice = VariableState<CallCheckValueLattice>;

impl View for ConstLattice<CallCheckValue> {
    type V = Option<CallView>;

    open spec fn view(&self) -> Option<CallView> {
        match &self.v {
            Some(x) => Some(x@),
            None => None,
        }
    }
}

impl Lattice for ConstLattice<CallCheckValue> {
    open spec fn wf(&self) -> bool {
        true
    }

    open spec fn le_v(a: Option<CallView>, b: Option<CallView>) -> bool {
        const_le(a, b)
    }

    open spec fn meet_v(a: Option<CallView>, b: Option<CallView>) -> Option<CallView> {
        const_meet(a, b)
    }

    open spec fn bot_v() -> Option<CallView> {
        None
    }

    open spec fn valid_v(a: Option<CallView>) -> bool {
        true
    }

    proof fn lemma_valid(x: &Self) {
    }

    proof fn lemma_bot_valid() {
    }

    proof fn lemma_laws(a: Option<CallView>, b: Option<CallView>, c: Option<CallView>) {
        lemma_const_laws(a, b, c);
    }

    fn meet(&self, other: &Self, loc: &LocIdx) -> (r: Self) {
        if self.same(other) {
            self.duplicate()
        } else {
            ConstLattice { v: None }
        }
    }

    fn bot() -> (r: Self) {
        ConstLattice { v: None }
    }

    fn duplicate(&self) -> (r: Self) {
        match &self.v {
            Some(x) => ConstLattice { v: Some(x.duplicate()) },
            None => ConstLattice { v: None },
        }
    }

    fn same(&self, other: &Self) -> (r: bool) {
        match (&self.v, &other.v) {
            (None, None) => true,
            (Some(x), Some(y)) => x.same(y),
            _ => false,
        }
    }
}

} // verus!
