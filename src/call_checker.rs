//! Call checker: every indirect call goes through a checked table lookup,
//! every direct call lands on a known function, and every table lookup
//! uses a checked index.
use crate::analysis::{AnalysisResult, IRMap};
use crate::call_analyzer::{regc, CallAnalyzer, CallStateView};
use crate::calllattice::{CallCheckLattice, CallCheckValue, CallView, DavView, DAV};
use crate::checker::{check_state_at_statements, result_passes, Checker};
use crate::heaplattice::WAMR_GLOBALS_OFFSET;
use crate::ir::{MemArg, MemArgs, Stmt, ValSize, Value};
use crate::lattice::LocIdx;
use crate::metadata::{Compiler, CompilerMetadata};
use vstd::prelude::*;

verus! {

pub struct CallChecker<'a> {
    pub analyzer: &'a CallAnalyzer,
    /// Addresses of the functions that may be called.
    pub funcs: &'a Vec<u64>,
    /// Start and end (exclusive) of the PLT.
    pub plt: &'a (u64, u64),
}

/// Target of a relative call of displacement `imm` at `addr` (the call
/// instruction is five bytes long).
pub open spec fn call_target(imm: i64, addr: u64) -> u64 {
    (imm as int + addr as int + 5) as u64
}

pub open spec fn spec_lucet_indirect_call(
    s: CallStateView,
    target: Value,
    loc: LocIdx,
    funcs: Seq<u64>,
    plt: (u64, u64),
) -> bool {
    match target {
        Value::Reg(n, sz) => regc(s, n, sz) == Some(CallView::FnPtr),
        Value::Mem(_, _) => false,
        Value::Imm(_, _, imm) => {
            let t = call_target(imm, loc.addr);
            funcs.contains(t) || (plt.0 <= t && t < plt.1)
        },
    }
}

pub open spec fn spec_wamr_indirect_call(s: CallStateView, target: Value, loc: LocIdx, funcs: Seq<u64>) -> bool {
    match target {
        Value::Mem(
            _,
            MemArgs::MemScale(MemArg::Reg(b, bs), MemArg::Reg(i, ValSize::Size64), MemArg::Imm(_, _, 8)),
        ) => regc(s, b, bs) == Some(CallView::WamrFuncPtrsTable) && regc(s, i, ValSize::Size64) == Some(
            CallView::WamrFuncIdx,
        ),
        Value::Imm(_, _, imm) => funcs.contains(call_target(imm, loc.addr)),
        _ => false,
    }
}

pub open spec fn spec_lucet_lookup(s: CallStateView, m: MemArgs) -> bool {
    match m {
        MemArgs::Mem3Args(
            MemArg::Reg(n1, ValSize::Size64),
            MemArg::Reg(n2, ValSize::Size64),
            MemArg::Imm(_, _, 8),
        ) => {
            let v1 = regc(s, n1, ValSize::Size64);
            let v2 = regc(s, n2, ValSize::Size64);
            let base = Some(CallView::GuestTableBase);
            let off = Some(CallView::PtrOffset(DavView::Checked));
            (v1 == base && v2 == off) || (v1 == off && v2 == base) || (v1 != base && v2 != base)
        },
        _ => true,
    }
}

pub open spec fn spec_wamr_lookup(md: CompilerMetadata, s: CallStateView, m: MemArgs) -> bool {
    match m {
        MemArgs::Mem2Args(MemArg::Reg(n, ValSize::Size64), MemArg::Imm(_, _, k)) => {
            regc(s, n, ValSize::Size64) == Some(CallView::WamrModuleInstance) && k >= WAMR_GLOBALS_OFFSET
                ==> k <= WAMR_GLOBALS_OFFSET + md.globals_size
        },
        MemArgs::MemScaleDisp(
            MemArg::Reg(b, ValSize::Size64),
            MemArg::Reg(i, ValSize::Size64),
            MemArg::Imm(_, _, 4),
            MemArg::Imm(_, _, d),
        ) => d == WAMR_GLOBALS_OFFSET && regc(s, b, ValSize::Size64) == Some(
            CallView::WamrModuleInstance,
        ) ==> match regc(s, i, ValSize::Size64) {
            Some(CallView::WamrChecked(v)) => v < md.globals_size as u32,
            _ => false,
        },
        MemArgs::MemScale(MemArg::Reg(n, ValSize::Size64), MemArg::Reg(_, ValSize::Size64), MemArg::Imm(_, _, 4)) => regc(
            s,
            n,
            ValSize::Size64,
        ) == Some(CallView::WamrFuncTypeTable),
        _ => true,
    }
}

/// The call predicate for one statement.
pub open spec fn spec_call_check(
    md: CompilerMetadata,
    funcs: Seq<u64>,
    plt: (u64, u64),
    s: CallStateView,
    stmt: Stmt,
    loc: LocIdx,
) -> bool {
    match stmt {
        Stmt::Call(target) => match md.compiler {
            Compiler::Lucet => spec_lucet_indirect_call(s, target, loc, funcs, plt),
            Compiler::Wamr => spec_wamr_indirect_call(s, target, loc, funcs),
        },
        Stmt::Unop(_, _, Value::Mem(_, m)) => match md.compiler {
            Compiler::Lucet => spec_lucet_lookup(s, m),
            Compiler::Wamr => spec_wamr_lookup(md, s, m),
        },
        _ => true,
    }
}

fn holds(state: &CallCheckLattice, n: &u8, sz: &ValSize, v: CallCheckValue) -> (r: bool)
    requires
        state.wf(),
    ensures
        r == (regc(state@, *n, *sz) == Some(v@)),
{
    match state.regs.get(n, sz).v {
        Some(x) => x.same(&v),
        None => false,
    }
}

fn contains_addr(funcs: &Vec<u64>, t: u64) -> (r: bool)
    ensures
        r == funcs@.contains(t),
{
    let mut i: usize = 0;
    while i < funcs.len()
        invariant
            i <= funcs.len(),
            forall|j: int| 0 <= j < i ==> funcs@[j] != t,
        decreases funcs.len() - i,
    {
        if funcs[i] == t {
            assert(funcs@[i as int] == t);
            return true;
        }
        i = i + 1;
    }
    false
}

fn target_of(imm: i64, addr: u64) -> (r: u64)
    ensures
        r == call_target(imm, addr),
{
    #[verifier::truncate]
    ((imm as i128 + addr as i128 + 5) as u64)
}

impl<'a> CallChecker<'a> {
    fn check_indirect_call(&self, state: &CallCheckLattice, target: &Value, loc: &LocIdx) -> (r: bool)
        requires
            state.wf(),
        ensures
            r == match self.analyzer.metadata.compiler {
                Compiler::Lucet => spec_lucet_indirect_call(state@, *target, *loc, self.funcs@, *self.plt),
                Compiler::Wamr => spec_wamr_indirect_call(state@, *target, *loc, self.funcs@),
            },
    {
        match self.analyzer.metadata.compiler {
            Compiler::Lucet => match target {
                Value::Reg(n, sz) => holds(state, n, sz, CallCheckValue::FnPtr),
                Value::Mem(_, _) => false,
                Value::Imm(_, _, imm) => {
                    let t = target_of(*imm, loc.addr);
                    contains_addr(self.funcs, t) || (self.plt.0 <= t && t < self.plt.1)
                },
            },
            Compiler::Wamr => match target {
                Value::Mem(
                    _,
                    MemArgs::MemScale(
                        MemArg::Reg(b, bs),
                        MemArg::Reg(i, ValSize::Size64),
                        MemArg::Imm(_, _, 8),
                    ),
                ) => holds(state, b, bs, CallCheckValue::WamrFuncPtrsTable) && holds(
                    state,
                    i,
                    &ValSize::Size64,
                    CallCheckValue::WamrFuncIdx,
                ),
                Value::Imm(_, _, imm) => contains_addr(self.funcs, target_of(*imm, loc.addr)),
                _ => false,
            },
        }
    }

    fn lucet_check_calltable_lookup(&self, state: &CallCheckLattice, memargs: &MemArgs) -> (r: bool)
        requires
            state.wf(),
        ensures
            r == spec_lucet_lookup(state@, *memargs),
    {
        match memargs {
            MemArgs::Mem3Args(
                MemArg::Reg(n1, ValSize::Size64),
                MemArg::Reg(n2, ValSize::Size64),
                MemArg::Imm(_, _, 8),
            ) => {
                let b1 = holds(state, n1, &ValSize::Size64, CallCheckValue::GuestTableBase);
                let b2 = holds(state, n2, &ValSize::Size64, CallCheckValue::GuestTableBase);
                let o1 = holds(state, n1, &ValSize::Size64, CallCheckValue::PtrOffset(DAV::Checked));
                let o2 = holds(state, n2, &ValSize::Size64, CallCheckValue::PtrOffset(DAV::Checked));
                (b1 && o2) || (o1 && b2) || (!b1 && !b2)
            },
            _ => true,
        }
    }

    fn wamr_check_calltable_lookup(&self, state: &CallCheckLattice, memargs: &MemArgs) -> (r: bool)
        requires
            state.wf(),
        ensures
            r == spec_wamr_lookup(self.analyzer.metadata, state@, *memargs),
    {
        let md = &self.analyzer.metadata;
        match memargs {
            MemArgs::Mem2Args(MemArg::Reg(n, ValSize::Size64), MemArg::Imm(_, _, k)) => {
                if holds(state, n, &ValSize::Size64, CallCheckValue::WamrModuleInstance) && *k
                    >= WAMR_GLOBALS_OFFSET {
                    (*k as i128) <= (WAMR_GLOBALS_OFFSET as i128) + (md.globals_size as i128)
                } else {
                    true
                }
            },
            MemArgs::MemScaleDisp(
                MemArg::Reg(b, ValSize::Size64),
                MemArg::Reg(i, ValSize::Size64),
                MemArg::Imm(_, _, 4),
                MemArg::Imm(_, _, d),
            ) => {
                if *d == WAMR_GLOBALS_OFFSET && holds(
                    state,
                    b,
                    &ValSize::Size64,
                    CallCheckValue::WamrModuleInstance,
                ) {
                    match state.regs.get(i, &ValSize::Size64).v {
                        Some(CallCheckValue::WamrChecked(v)) => v < (#[verifier::truncate] (md.globals_size as u32)),
                        _ => false,
                    }
                } else {
                    true
                }
            },
            MemArgs::MemScale(
                MemArg::Reg(n, ValSize::Size64),
                MemArg::Reg(_, ValSize::Size64),
                MemArg::Imm(_, _, 4),
            ) => holds(state, n, &ValSize::Size64, CallCheckValue::WamrFuncTypeTable),
            _ => true,
        }
    }
}

impl<'a> Checker<CallCheckLattice> for CallChecker<'a> {
    open spec fn spec_check(&self, s: CallStateView, stmt: Stmt, loc: LocIdx) -> bool {
        spec_call_check(self.analyzer.metadata, self.funcs@, *self.plt, s, stmt, loc)
    }

    fn check_statement(&self, state: &CallCheckLattice, stmt: &Stmt, loc: &LocIdx) -> (r: bool) {
        match stmt {
            Stmt::Call(target) => self.check_indirect_call(state, target, loc),
            Stmt::Unop(_, _, Value::Mem(_, m)) => match self.analyzer.metadata.compiler {
                Compiler::Lucet => self.lucet_check_calltable_lookup(state, m),
                Compiler::Wamr => self.wamr_check_calltable_lookup(state, m),
            },
            _ => true,
        }
    }
}

/// Check call safety of a function from the call analysis's fixed point.
pub fn check_calls(
    result: &AnalysisResult<CallCheckLattice>,
    irmap: &IRMap,
    analyzer: &CallAnalyzer,
    funcs: &Vec<u64>,
    plt: &(u64, u64),
) -> (r: bool)
    requires
        result.wf(),
    ensures
        r == result_passes(
            CallChecker { analyzer, funcs, plt },
            *analyzer,
            result.states@,
            result.order@,
            irmap@,
        ),
{
    let c = CallChecker { analyzer, funcs, plt };
    check_state_at_statements(&c, analyzer, result, irmap)
}

} // verus!
