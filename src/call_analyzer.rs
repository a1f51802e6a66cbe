//! Call analysis: tracks the bounds check that must guard an indirect call
//! through a guest function table.
use crate::analysis::{run_block, run_stmts, AbstractAnalyzer, AnalysisResult, IRMap};
use crate::calllattice::{CallCheckLattice, CallCheckValue, CallCheckValueLattice, CallView, DavView, DAV};
use crate::heaplattice::{WAMR_FUNCPTRS_OFFSET, WAMR_FUNCTYPE_OFFSET, WAMR_GLOBALS_OFFSET, WAMR_MODULEINSTANCE_OFFSET};
use crate::ir::{is_stack_access, Binopcode, ImmType, IRBlock, IRInstr, MemArg, MemArgs, Stmt, ValSize, Value};
use crate::lattice::{ConstLattice, Lattice, LocIdx};
use crate::metadata::{Compiler, CompilerMetadata};
use crate::reach::ReachLattice;
use crate::reaching_defs::{ReachState, ReachView, ReachingDefnAnalyzer};
use crate::regs::{reg_read, reg_write};
use crate::varstate::{state_adjust, state_on_call, state_read, state_write, StateView, VariableState};
use vstd::prelude::*;

verus! {

broadcast use vstd::std_specs::hash::group_hash_axioms;

pub type CallStateView = StateView<Option<CallView>>;

pub struct CallAnalyzer {
    pub metadata: CompilerMetadata,
    /// Reaching definitions of the function, at a fixed point.
    pub reaching_defs: AnalysisResult<ReachState>,
    pub reaching_analyzer: ReachingDefnAnalyzer,
    /// The function's lifted code.
    pub irmap: IRMap,
}

pub open spec fn regc(s: CallStateView, n: u8, sz: ValSize) -> Option<CallView> {
    reg_read(s.0, n, sz, None)
}

/// `[R + 8]` with R the Lucet tables base: the table size.
pub open spec fn spec_is_table_size(s: CallStateView, m: MemArgs) -> bool {
    match m {
        MemArgs::Mem2Args(MemArg::Reg(n, sz), MemArg::Imm(_, _, 8)) => regc(s, n, sz) == Some(
            CallView::LucetTablesBase,
        ),
        _ => false,
    }
}

/// `[A + B + 8]` with {A, B} the guest table base and a checked offset.
pub open spec fn spec_is_fn_ptr(s: CallStateView, m: MemArgs) -> bool {
    match m {
        MemArgs::Mem3Args(MemArg::Reg(n1, sz1), MemArg::Reg(n2, sz2), MemArg::Imm(_, _, 8)) => {
            let v1 = regc(s, n1, sz1);
            let v2 = regc(s, n2, sz2);
            let base = Some(CallView::GuestTableBase);
            let off = Some(CallView::PtrOffset(DavView::Checked));
            (v1 == base && v2 == off) || (v1 == off && v2 == base)
        },
        _ => false,
    }
}

pub open spec fn spec_lucet_eval(md: CompilerMetadata, s: CallStateView, v: Value) -> Option<CallView> {
    match v {
        Value::Mem(_, m) => if spec_is_table_size(s, m) {
            Some(CallView::TableSize)
        } else if spec_is_fn_ptr(s, m) {
            Some(CallView::FnPtr)
        } else if is_stack_access(v) {
            state_read(s, v, None).unwrap()
        } else {
            None
        },
        Value::Reg(n, sz) => regc(s, n, sz),
        Value::Imm(_, _, x) => if x as u64 == md.guest_table_0 {
            Some(CallView::GuestTableBase)
        } else if x as u64 == md.lucet_tables {
            Some(CallView::LucetTablesBase)
        } else {
            None
        },
    }
}

pub open spec fn spec_wamr_eval(s: CallStateView, v: Value) -> Option<CallView> {
    match v {
        Value::Mem(_, MemArgs::Mem2Args(MemArg::Reg(n, sz), MemArg::Imm(_, _, k))) => if k
            == WAMR_MODULEINSTANCE_OFFSET {
            if regc(s, n, sz) == Some(CallView::WamrExecEnv) {
                Some(CallView::WamrModuleInstance)
            } else {
                None
            }
        } else if k == WAMR_FUNCPTRS_OFFSET {
            if regc(s, n, sz) == Some(CallView::WamrModuleInstance) {
                Some(CallView::WamrFuncPtrsTable)
            } else {
                None
            }
        } else if k == WAMR_FUNCTYPE_OFFSET {
            if regc(s, n, sz) == Some(CallView::WamrModuleInstance) {
                Some(CallView::WamrFuncTypeTable)
            } else {
                None
            }
        } else if sz == ValSize::Size64 && regc(s, n, sz) == Some(CallView::WamrModuleInstance) && k
            >= WAMR_GLOBALS_OFFSET - 8 {
            Some(CallView::WamrFuncIdx)
        } else {
            None
        },
        Value::Mem(
            _,
            MemArgs::MemScaleDisp(
                MemArg::Reg(n, ValSize::Size64),
                MemArg::Reg(_, ValSize::Size64),
                MemArg::Imm(_, _, 4),
                MemArg::Imm(_, _, k),
            ),
        ) => if regc(s, n, ValSize::Size64) == Some(CallView::WamrModuleInstance) && k
            >= WAMR_GLOBALS_OFFSET - 8 {
            Some(CallView::WamrFuncIdx)
        } else {
            None
        },
        _ => None,
    }
}

/// Symbolic value of a source operand.
pub open spec fn spec_call_eval(md: CompilerMetadata, s: CallStateView, v: Value) -> Option<CallView> {
    match md.compiler {
        Compiler::Lucet => spec_lucet_eval(md, s, v),
        Compiler::Wamr => spec_wamr_eval(s, v),
    }
}

/// Set the zero flag.
pub open spec fn with_zf(s: CallStateView, v: Option<CallView>) -> CallStateView {
    (s.0.insert(16, v), s.1)
}

/// A comparison of register `r` against a value that is the table size
/// sets the zero flag to `CheckFlag(0, r)`.
pub open spec fn spec_lucet_cmp(md: CompilerMetadata, s: CallStateView, src1: Value, src2: Value) -> CallStateView {
    let s1 = match src1 {
        Value::Reg(n, _) => if spec_lucet_eval(md, s, src2) == Some(CallView::TableSize) {
            with_zf(s, Some(CallView::CheckFlag(0, n)))
        } else {
            s
        },
        _ => s,
    };
    match src2 {
        Value::Reg(n, _) => if spec_lucet_eval(md, s, src1) == Some(CallView::TableSize) {
            with_zf(s1, Some(CallView::CheckFlag(0, n)))
        } else {
            s1
        },
        _ => s1,
    }
}

/// A comparison of an untracked register `r` against an immediate `v`
/// sets the zero flag to `CheckFlag(v, r)`.
pub open spec fn spec_wamr_cmp(s: CallStateView, src1: Value, src2: Value) -> CallStateView {
    match (src1, src2) {
        (Value::Imm(_, _, v), Value::Reg(n, sz)) | (Value::Reg(n, sz), Value::Imm(_, _, v)) => if regc(
            s,
            n,
            sz,
        ) is None {
            with_zf(s, Some(CallView::CheckFlag(v as u32, n)))
        } else {
            s
        },
        _ => s,
    }
}

/// First index from `i` on at which `order` names a block holding an
/// instruction at `addr`.
pub open spec fn block_index(order: Seq<u64>, irmap: Map<u64, IRBlock>, addr: u64, i: int) -> int
    decreases order.len() - i,
{
    if i >= order.len() || i < 0 {
        order.len() as int
    } else if irmap.contains_key(order[i]) && instr_index(irmap[order[i]]@, addr, 0) < irmap[order[i]]@.len() {
        i
    } else {
        block_index(order, irmap, addr, i + 1)
    }
}

/// First index from `j` on of an instruction at `addr`.
pub open spec fn instr_index(instrs: Seq<IRInstr>, addr: u64, j: int) -> int
    decreases instrs.len() - j,
{
    if j >= instrs.len() || j < 0 {
        instrs.len() as int
    } else if instrs[j].addr == addr {
        j
    } else {
        instr_index(instrs, addr, j + 1)
    }
}

/// Reaching definitions just before the statement at `loc`: the entry
/// state of the block holding `loc.addr`, run up to that statement; no
/// definitions where no block holds it.
pub open spec fn spec_defs_at(
    rd: Map<u64, ReachState>,
    order: Seq<u64>,
    irmap: Map<u64, IRBlock>,
    loc: LocIdx,
) -> ReachView {
    let bi = block_index(order, irmap, loc.addr, 0);
    if bi < order.len() && rd.contains_key(order[bi]) && rd[order[bi]].wf() {
        let instrs = irmap[order[bi]]@;
        let j = instr_index(instrs, loc.addr, 0);
        let stmts = instrs[j].stmts@;
        let k = if (loc.idx as int) < stmts.len() {
            loc.idx as int
        } else {
            stmts.len() as int
        };
        run_stmts(
            ReachingDefnAnalyzer {},
            run_block(ReachingDefnAnalyzer {}, rd[order[bi]]@, instrs.take(j)),
            stmts.take(k),
            loc.addr,
        )
    } else {
        <ReachState as Lattice>::bot_v()
    }
}

pub open spec fn spec_shl(s: CallStateView, src1: Value, src2: Value, defs: ReachView) -> Option<CallView> {
    match (src1, src2) {
        (Value::Reg(n, sz), Value::Imm(_, _, 4)) => if regc(s, n, sz) == Some(CallView::CheckedVal) {
            Some(CallView::PtrOffset(DavView::Checked))
        } else {
            Some(CallView::PtrOffset(DavView::Unchecked(reg_read(defs.0, n, sz, Set::empty()))))
        },
        _ => None,
    }
}

impl CallAnalyzer {
    pub open spec fn wf(&self) -> bool {
        self.reaching_defs.wf()
    }

    pub open spec fn defs_at(&self, loc: LocIdx) -> ReachView {
        spec_defs_at(self.reaching_defs.states@, self.reaching_defs.order@, self.irmap@, loc)
    }

    pub open spec fn spec_call_aexec(&self, s: CallStateView, stmt: Stmt, loc: LocIdx) -> CallStateView {
        match stmt {
            Stmt::Clear(dst, _) => state_write(s, dst, None, None),
            Stmt::Unop(_, dst, src) => state_write(s, dst, spec_call_eval(self.metadata, s, src), None),
            Stmt::Binop(op, dst, src1, src2) => if op == Binopcode::Cmp {
                match self.metadata.compiler {
                    Compiler::Lucet => spec_lucet_cmp(self.metadata, s, src1, src2),
                    Compiler::Wamr => spec_wamr_cmp(s, src1, src2),
                }
            } else if op == Binopcode::Test {
                s
            } else {
                state_adjust(
                    state_write(
                        s,
                        dst,
                        if op == Binopcode::Shl {
                            spec_shl(s, src1, src2, self.defs_at(loc))
                        } else {
                            None
                        },
                        None,
                    ),
                    op,
                    dst,
                    src1,
                    src2,
                    None,
                )
            },
            Stmt::Call(_) => state_on_call(s, None),
            Stmt::ProbeStack(n) => state_adjust(
                s,
                Binopcode::Sub,
                Value::Reg(4, ValSize::Size64),
                Value::Reg(4, ValSize::Size64),
                Value::Imm(crate::ir::ImmType::Unsigned, ValSize::Size64, n as i64),
                None,
            ),
            _ => s,
        }
    }
}

pub fn is_table_size(in_state: &CallCheckLattice, memargs: &MemArgs) -> (r: bool)
    requires
        in_state.wf(),
    ensures
        r == spec_is_table_size(in_state@, *memargs),
{
    match memargs {
        MemArgs::Mem2Args(MemArg::Reg(n, sz), MemArg::Imm(_, _, 8)) => {
            match in_state.regs.get(n, sz).v {
                Some(CallCheckValue::LucetTablesBase) => true,
                _ => false,
            }
        },
        _ => false,
    }
}

pub fn is_fn_ptr(in_state: &CallCheckLattice, memargs: &MemArgs) -> (r: bool)
    requires
        in_state.wf(),
    ensures
        r == spec_is_fn_ptr(in_state@, *memargs),
{
    match memargs {
        MemArgs::Mem3Args(MemArg::Reg(n1, sz1), MemArg::Reg(n2, sz2), MemArg::Imm(_, _, 8)) => {
            let v1 = in_state.regs.get(n1, sz1);
            let v2 = in_state.regs.get(n2, sz2);
            match (v1.v, v2.v) {
                (Some(CallCheckValue::GuestTableBase), Some(CallCheckValue::PtrOffset(DAV::Checked))) => true,
                (Some(CallCheckValue::PtrOffset(DAV::Checked)), Some(CallCheckValue::GuestTableBase)) => true,
                _ => false,
            }
        },
        _ => false,
    }
}

fn holds(in_state: &CallCheckLattice, n: &u8, sz: &ValSize, v: CallCheckValue) -> (r: bool)
    requires
        in_state.wf(),
    ensures
        r == (regc(in_state@, *n, *sz) == Some(v@)),
{
    match in_state.regs.get(n, sz).v {
        Some(x) => x.same(&v),
        None => false,
    }
}

/// Whether a reaching-definitions state is well formed.
pub fn reach_state_wf(st: &ReachState) -> (r: bool)
    ensures
        r == st.wf(),
{
    st.regs.regs.len() == crate::regs::NUM_REGS
}

fn find_instr(instrs: &Vec<IRInstr>, addr: u64) -> (j: usize)
    ensures
        j as int == instr_index(instrs@, addr, 0),
{
    let mut j: usize = 0;
    while j < instrs.len()
        invariant
            j <= instrs.len(),
            instr_index(instrs@, addr, 0) == instr_index(instrs@, addr, j as int),
        decreases instrs.len() - j,
    {
        if instrs[j].addr == addr {
            return j;
        }
        j = j + 1;
    }
    j
}

impl CallAnalyzer {
    /// Reaching definitions just before the statement at `loc`.
    pub fn fetch_def(&self, loc: &LocIdx) -> (r: ReachState)
        ensures
            r.wf(),
            r@ == self.defs_at(*loc),
    {
        let order = &self.reaching_defs.order;
        let a = ReachingDefnAnalyzer {};
        let mut i: usize = 0;
        while i < order.len()
            invariant
                order == &self.reaching_defs.order,
                i <= order.len(),
                block_index(order@, self.irmap@, loc.addr, 0) == block_index(
                    order@,
                    self.irmap@,
                    loc.addr,
                    i as int,
                ),
            decreases order.len() - i,
        {
            let b = order[i];
            match self.irmap.get(&b) {
                Some(instrs) => {
                    let j = find_instr(instrs, loc.addr);
                    if j < instrs.len() {
                        assert(block_index(order@, self.irmap@, loc.addr, i as int) == i);
                        let st = match self.reaching_defs.states.get(&b) {
                            Some(st) => st,
                            None => {
                                return VariableState::new();
                            },
                        };
                        if !reach_state_wf(st) {
                            return VariableState::new();
                        }
                        let mut s = st.duplicate();
                        let mut q: usize = 0;
                        while q < j
                            invariant
                                j < instrs.len(),
                                q <= j,
                                s.wf(),
                                s@ == run_block(a, st@, instrs@.take(q as int)),
                            decreases j - q,
                        {
                            assert(instrs@.take(q + 1).drop_last() =~= instrs@.take(q as int));
                            let stmts = &instrs[q].stmts;
                            let qaddr = instrs[q].addr;
                            let mut k: usize = 0;
                            let ghost base = s@;
                            while k < stmts.len()
                                invariant
                                    k <= stmts.len(),
                                    s.wf(),
                                    qaddr == instrs@[q as int].addr,
                                s@ == run_stmts(a, base, stmts@.take(k as int), qaddr),
                                decreases stmts.len() - k,
                            {
                                assert(stmts@.take(k + 1).drop_last() =~= stmts@.take(k as int));
                                a.aexec(&mut s, &stmts[k], &LocIdx { addr: qaddr, idx: #[verifier::truncate] (k as u32) });
                                k = k + 1;
                            }
                            assert(stmts@.take(k as int) =~= stmts@);
                            q = q + 1;
                        }
                        let stmts = &instrs[j].stmts;
                        let lim: usize = if (loc.idx as usize) < stmts.len() {
                            loc.idx as usize
                        } else {
                            stmts.len()
                        };
                        let mut k: usize = 0;
                        let ghost base = s@;
                        while k < lim
                            invariant
                                lim <= stmts.len(),
                                k <= lim,
                                s.wf(),
                                s@ == run_stmts(a, base, stmts@.take(k as int), loc.addr),
                            decreases lim - k,
                        {
                            assert(stmts@.take(k + 1).drop_last() =~= stmts@.take(k as int));
                            a.aexec(&mut s, &stmts[k], &LocIdx { addr: loc.addr, idx: #[verifier::truncate] (k as u32) });
                            k = k + 1;
                        }
                        return s;
                    }
                },
                None => {},
            }
            i = i + 1;
        }
        VariableState::new()
    }

    pub fn aeval_unop(&self, in_state: &CallCheckLattice, value: &Value) -> (r: CallCheckValueLattice)
        requires
            in_state.wf(),
        ensures
            r@ == spec_call_eval(self.metadata, in_state@, *value),
    {
        match self.metadata.compiler {
            Compiler::Lucet => self.lucet_aeval_unop(in_state, value),
            Compiler::Wamr => self.wamr_aeval_unop(in_state, value),
        }
    }

    fn lucet_aeval_unop(&self, in_state: &CallCheckLattice, value: &Value) -> (r: CallCheckValueLattice)
        requires
            in_state.wf(),
        ensures
            r@ == spec_lucet_eval(self.metadata, in_state@, *value),
    {
        match value {
            Value::Mem(_, memargs) => {
                if is_table_size(in_state, memargs) {
                    ConstLattice::new(CallCheckValue::TableSize)
                } else if is_fn_ptr(in_state, memargs) {
                    ConstLattice::new(CallCheckValue::FnPtr)
                } else {
                    match in_state.get(value) {
                        Some(x) => x,
                        None => ConstLattice { v: None },
                    }
                }
            },
            Value::Reg(n, sz) => in_state.regs.get(n, sz),
            Value::Imm(_, _, x) => {
                if *x as u64 == self.metadata.guest_table_0 {
                    ConstLattice::new(CallCheckValue::GuestTableBase)
                } else if *x as u64 == self.metadata.lucet_tables {
                    ConstLattice::new(CallCheckValue::LucetTablesBase)
                } else {
                    ConstLattice { v: None }
                }
            },
        }
    }

    fn wamr_aeval_unop(&self, in_state: &CallCheckLattice, value: &Value) -> (r: CallCheckValueLattice)
        requires
            in_state.wf(),
        ensures
            r@ == spec_wamr_eval(in_state@, *value),
    {
        match value {
            Value::Mem(_, MemArgs::Mem2Args(MemArg::Reg(n, sz), MemArg::Imm(_, _, k))) => {
                if *k == WAMR_MODULEINSTANCE_OFFSET {
                    if holds(in_state, n, sz, CallCheckValue::WamrExecEnv) {
                        return ConstLattice::new(CallCheckValue::WamrModuleInstance);
                    }
                } else if *k == WAMR_FUNCPTRS_OFFSET {
                    if holds(in_state, n, sz, CallCheckValue::WamrModuleInstance) {
                        return ConstLattice::new(CallCheckValue::WamrFuncPtrsTable);
                    }
                } else if *k == WAMR_FUNCTYPE_OFFSET {
                    if holds(in_state, n, sz, CallCheckValue::WamrModuleInstance) {
                        return ConstLattice::new(CallCheckValue::WamrFuncTypeTable);
                    }
                } else if *sz == ValSize::Size64 && holds(
                    in_state,
                    n,
                    sz,
                    CallCheckValue::WamrModuleInstance,
                ) && *k >= WAMR_GLOBALS_OFFSET - 8 {
                    return ConstLattice::new(CallCheckValue::WamrFuncIdx);
                }
                ConstLattice { v: None }
            },
            Value::Mem(
                _,
                MemArgs::MemScaleDisp(
                    MemArg::Reg(n, ValSize::Size64),
                    MemArg::Reg(_, ValSize::Size64),
                    MemArg::Imm(_, _, 4),
                    MemArg::Imm(_, _, k),
                ),
            ) => {
                if holds(in_state, n, &ValSize::Size64, CallCheckValue::WamrModuleInstance) && *k
                    >= WAMR_GLOBALS_OFFSET - 8 {
                    ConstLattice::new(CallCheckValue::WamrFuncIdx)
                } else {
                    ConstLattice { v: None }
                }
            },
            _ => ConstLattice { v: None },
        }
    }

    fn lucet_handle_cmp(&self, in_state: &mut CallCheckLattice, src1: &Value, src2: &Value)
        requires
            old(in_state).wf(),
        ensures
            final(in_state).wf(),
            final(in_state)@ == spec_lucet_cmp(self.metadata, old(in_state)@, *src1, *src2),
    {
        let v1 = self.lucet_aeval_unop(in_state, src1);
        let v2 = self.lucet_aeval_unop(in_state, src2);
        if let Value::Reg(n, _) = src1 {
            if let Some(CallCheckValue::TableSize) = v2.v {
                in_state.regs.set(&16, &ValSize::Size64, ConstLattice::new(CallCheckValue::CheckFlag(0, *n)));
            }
        }
        if let Value::Reg(n, _) = src2 {
            if let Some(CallCheckValue::TableSize) = v1.v {
                in_state.regs.set(&16, &ValSize::Size64, ConstLattice::new(CallCheckValue::CheckFlag(0, *n)));
            }
        }
    }

    fn wamr_handle_cmp(&self, in_state: &mut CallCheckLattice, src1: &Value, src2: &Value)
        requires
            old(in_state).wf(),
        ensures
            final(in_state).wf(),
            final(in_state)@ == spec_wamr_cmp(old(in_state)@, *src1, *src2),
    {
        match (src1, src2) {
            (Value::Imm(_, _, v), Value::Reg(n, sz)) | (Value::Reg(n, sz), Value::Imm(_, _, v)) => {
                if in_state.regs.get(n, sz).v.is_none() {
                    in_state.regs.set(
                        &16,
                        &ValSize::Size64,
                        ConstLattice::new(CallCheckValue::CheckFlag(#[verifier::truncate] (*v as u32), *n)),
                    );
                }
            },
            _ => {},
        }
    }

    /// `src1 << 4`: a checked index scaled to a table offset.
    pub fn aeval_binop(
        &self,
        in_state: &CallCheckLattice,
        opcode: &Binopcode,
        src1: &Value,
        src2: &Value,
        loc_idx: &LocIdx,
    ) -> (r: CallCheckValueLattice)
        requires
            in_state.wf(),
        ensures
            r@ == if *opcode == Binopcode::Shl {
                spec_shl(in_state@, *src1, *src2, self.defs_at(*loc_idx))
            } else {
                None
            },
    {
        match (opcode, src1, src2) {
            (Binopcode::Shl, Value::Reg(n, sz), Value::Imm(_, _, 4)) => {
                if holds(in_state, n, sz, CallCheckValue::CheckedVal) {
                    ConstLattice::new(CallCheckValue::PtrOffset(DAV::Checked))
                } else {
                    let defs = self.fetch_def(loc_idx);
                    let d = defs.regs.get(n, sz);
                    ConstLattice::new(CallCheckValue::PtrOffset(DAV::Unchecked(d)))
                }
            },
            _ => ConstLattice { v: None },
        }
    }
}

/// The value a checked index gets on the equality-taken edge.
pub open spec fn new_checked(md: CompilerMetadata, v: u32) -> Option<CallView> {
    match md.compiler {
        Compiler::Lucet => Some(CallView::CheckedVal),
        Compiler::Wamr => Some(CallView::WamrChecked(v)),
    }
}

pub open spec fn unchecked_of(d: Set<LocIdx>) -> Option<CallView> {
    Some(CallView::PtrOffset(DavView::Unchecked(d)))
}

/// Registers whose definitions are the checked register's (and not none).
pub open spec fn propagate_regs(
    regs: Map<int, Option<CallView>>,
    defs: Map<int, Set<LocIdx>>,
    checked: Set<LocIdx>,
    nv: Option<CallView>,
) -> Map<int, Option<CallView>> {
    Map::total(
        |i: int|
            if 0 <= i < 16 && defs[i] != Set::<LocIdx>::empty() && defs[i] == checked {
                nv
            } else {
                regs[i]
            },
    )
}

/// Stack slots whose definitions are the checked register's.
pub open spec fn propagate_stack(
    st: Map<(i64, u32), Option<CallView>>,
    defs: Map<(i64, u32), Set<LocIdx>>,
    checked: Set<LocIdx>,
    nv: Option<CallView>,
) -> Map<(i64, u32), Option<CallView>> {
    Map::total(
        |k: (i64, u32)|
            if checked != Set::<LocIdx>::empty() && defs[k] == checked {
                nv
            } else {
                st[k]
            },
    )
}

/// Unchecked offsets in registers computed from the checked definitions.
/// The guard asks for an empty definition set here, unlike the other
/// three propagation steps; this is kept as it stands and is an open
/// question.
pub open spec fn resolve_regs(regs: Map<int, Option<CallView>>, checked: Set<LocIdx>) -> Map<
    int,
    Option<CallView>,
> {
    Map::total(
        |i: int|
            if 0 <= i < 16 && checked == Set::<LocIdx>::empty() && regs[i] == unchecked_of(checked) {
                Some(CallView::PtrOffset(DavView::Checked))
            } else {
                regs[i]
            },
    )
}

/// Unchecked offsets in stack slots computed from the checked definitions.
pub open spec fn resolve_stack(
    st: Map<(i64, u32), Option<CallView>>,
    orig: Map<(i64, u32), Option<CallView>>,
    checked: Set<LocIdx>,
) -> Map<(i64, u32), Option<CallView>> {
    Map::total(
        |k: (i64, u32)|
            if checked != Set::<LocIdx>::empty() && orig[k] == unchecked_of(checked) {
                Some(CallView::PtrOffset(DavView::Checked))
            } else {
                st[k]
            },
    )
}

impl CallAnalyzer {
    /// Reaching definitions at the end of block `addr`.
    pub open spec fn spec_defs_out(&self, irmap: Map<u64, IRBlock>, addr: u64) -> Option<ReachView> {
        let rd = self.reaching_defs.states@;
        if rd.contains_key(addr) && rd[addr].wf() && irmap.contains_key(addr) {
            Some(run_block(ReachingDefnAnalyzer {}, rd[addr]@, irmap[addr]@))
        } else {
            None
        }
    }

    /// The state on the equality-taken edge of a block ending in a
    /// comparison that set `CheckFlag(v, r)`: `r`, every register and slot
    /// with the same (non-empty) definitions, and the offsets computed from
    /// them become checked.
    pub open spec fn spec_refine(&self, irmap: Map<u64, IRBlock>, s: CallStateView, addr: u64) -> CallStateView {
        match s.0[16] {
            Some(CallView::CheckFlag(v, r)) => {
                let nv = new_checked(self.metadata, v);
                let s1 = (reg_write(s.0, r, ValSize::Size64, nv), s.1);
                match self.spec_defs_out(irmap, addr) {
                    None => s1,
                    Some(defs) => {
                        let checked = reg_read(defs.0, r, ValSize::Size64, Set::empty());
                        let regs2 = propagate_regs(s1.0, defs.0, checked, nv);
                        let st3 = propagate_stack(s1.1.1, defs.1.1, checked, nv);
                        (resolve_regs(regs2, checked), (s.1.0, resolve_stack(st3, s.1.1, checked)))
                    },
                }
            },
            _ => s,
        }
    }

    fn new_val(&self, v: u32) -> (r: CallCheckValueLattice)
        ensures
            r@ == new_checked(self.metadata, v),
    {
        match self.metadata.compiler {
            Compiler::Lucet => ConstLattice::new(CallCheckValue::CheckedVal),
            Compiler::Wamr => ConstLattice::new(CallCheckValue::WamrChecked(v)),
        }
    }

    fn refine(&self, irmap: &IRMap, s: &CallCheckLattice, addr: &u64) -> (r: CallCheckLattice)
        requires
            s.wf(),
        ensures
            r.wf(),
            r@ == self.spec_refine(irmap@, s@, *addr),
    {
        let mut b = s.duplicate();
        let zf = s.regs.get(&16, &ValSize::Size64);
        let (v, r) = match zf.v {
            Some(CallCheckValue::CheckFlag(v, r)) => (v, r),
            _ => {
                return b;
            },
        };
        let nv = self.new_val(v);
        b.regs.set(&r, &ValSize::Size64, nv.duplicate());
        let st = match self.reaching_defs.states.get(addr) {
            Some(st) => st,
            None => {
                return b;
            },
        };
        let block = match irmap.get(addr) {
            Some(bl) => bl,
            None => {
                return b;
            },
        };
        if !reach_state_wf(st) {
            return b;
        }
        let defs = crate::analysis::analyze_block(&self.reaching_analyzer, st, block);
        let checked = defs.regs.get(&r, &ValSize::Size64);
        let none = checked.is_empty();
        let ghost regs1 = b.regs@;
        let ghost st1 = b.stack@;
        // registers with the checked register's definitions
        let mut i: u8 = 0;
        while i < 16
            invariant
                i <= 16,
                b.wf(),
                none == (checked@ == Set::<LocIdx>::empty()),
                defs.wf(),
                b.stack@ == st1,
                b.regs@ == Map::total(
                    |j: int|
                        if 0 <= j < i && defs.regs@[j] != Set::<LocIdx>::empty() && defs.regs@[j]
                            == checked@ {
                            nv@
                        } else {
                            regs1[j]
                        },
                ),
            decreases 16 - i,
        {
            let d = defs.regs.get(&i, &ValSize::Size64);
            let ghost prev = b.regs@;
            if !d.is_empty() && d.same(&checked) {
                b.regs.set(&i, &ValSize::Size64, nv.duplicate());
            }
            assert(b.regs@ =~= Map::total(
                |j: int|
                    if 0 <= j < i + 1 && defs.regs@[j] != Set::<LocIdx>::empty() && defs.regs@[j]
                        == checked@ {
                        nv@
                    } else {
                        regs1[j]
                    },
            ));
            i = i + 1;
        }
        assert(b.regs@ =~= propagate_regs(regs1, defs.regs@, checked@, nv@));
        let ghost regs2 = b.regs@;
        // stack slots with the checked register's definitions
        let ghost dslots = crate::stack::slot_seq(defs.stack.slots@);
        let mut q: usize = 0;
        while q < defs.stack.slots.len()
            invariant
                q <= defs.stack.slots.len(),
                b.wf(),
                none == (checked@ == Set::<LocIdx>::empty()),
                defs.wf(),
                dslots == crate::stack::slot_seq(defs.stack.slots@),
                b.regs@ == regs2,
                b.stack@.0 == st1.0,
                b.stack@.1 == Map::total(
                    |k: (i64, u32)|
                        if crate::stack::key_in(dslots.take(q as int), k) && checked@ != Set::<
                            LocIdx,
                        >::empty() && defs.stack@.1[k] == checked@ {
                            nv@
                        } else {
                            st1.1[k]
                        },
                ),
            decreases defs.stack.slots.len() - q,
        {
            let o = defs.stack.slots[q].offset;
            let sz = defs.stack.slots[q].size;
            let d = defs.stack.lookup_abs(o, sz);
            let ghost prevst = b.stack@;
            let hit1 = !none && d.same(&checked);
            if hit1 {
                b.stack.set_key(o, sz, nv.duplicate());
            }
            assert(dslots.take(q + 1) =~= dslots.take(q as int).push(dslots[q as int]));
            assert forall|k: (i64, u32)|
                #[trigger] crate::stack::key_in(dslots.take(q + 1), k) == (crate::stack::key_in(
                    dslots.take(q as int),
                    k,
                ) || (k.0 == o && k.1 == sz)) by {
                crate::stack::lemma_key_in_push(dslots.take(q as int), dslots[q as int], k);
            }
            assert(d@ == defs.stack@.1[(o, sz)]);
            assert(hit1 == (checked@ != Set::<LocIdx>::empty() && defs.stack@.1[(o, sz)] == checked@));
            assert forall|k: (i64, u32)| #[trigger] b.stack@.1[k] == (if crate::stack::key_in(dslots.take(q + 1), k) && checked@ != Set::<
                        LocIdx,
                    >::empty() && defs.stack@.1[k] == checked@ {
                        nv@
                    } else {
                        st1.1[k]
                    }) by {
                if k.0 == o && k.1 == sz {
                } else {
                    assert(b.stack@.1[k] == prevst.1[k]);
                }
            }
            assert(b.stack@.1 =~= Map::total(
                |k: (i64, u32)|
                    if crate::stack::key_in(dslots.take(q + 1), k) && checked@ != Set::<
                        LocIdx,
                    >::empty() && defs.stack@.1[k] == checked@ {
                        nv@
                    } else {
                        st1.1[k]
                    },
            ));
            q = q + 1;
        }
        assert(dslots.take(q as int) =~= dslots);
        assert forall|k: (i64, u32)|
            #[trigger] b.stack@.1[k] == propagate_stack(st1.1, defs.stack@.1, checked@, nv@)[k] by {
            if !crate::stack::key_in(dslots, k) {
                crate::stack::lemma_lookup_absent(dslots, k, Set::<LocIdx>::empty());
            }
        }
        assert(b.stack@.1 =~= propagate_stack(st1.1, defs.stack@.1, checked@, nv@));
        let ghost st3 = b.stack@;
        // unchecked offsets in registers
        let mut i: u8 = 0;
        while i < 16
            invariant
                i <= 16,
                b.wf(),
                none == (checked@ == Set::<LocIdx>::empty()),
                b.stack@ == st3,
                b.regs@ == Map::total(
                    |j: int|
                        if 0 <= j < i && checked@ == Set::<LocIdx>::empty() && regs2[j] == unchecked_of(
                            checked@,
                        ) {
                            Some(CallView::PtrOffset(DavView::Checked))
                        } else {
                            regs2[j]
                        },
                ),
            decreases 16 - i,
        {
            let rv = b.regs.get(&i, &ValSize::Size64);
            assert(rv@ == regs2[i as int]);
            let hit = match &rv.v {
                Some(CallCheckValue::PtrOffset(DAV::Unchecked(d))) => none && d.same(&checked),
                _ => false,
            };
            assert(hit == (checked@ == Set::<LocIdx>::empty() && regs2[i as int] == unchecked_of(checked@)));
            if hit {
                b.regs.set(&i, &ValSize::Size64, ConstLattice::new(CallCheckValue::PtrOffset(DAV::Checked)));
            }
            assert(b.regs@ =~= Map::total(
                |j: int|
                    if 0 <= j < i + 1 && checked@ == Set::<LocIdx>::empty() && regs2[j] == unchecked_of(
                        checked@,
                    ) {
                        Some(CallView::PtrOffset(DavView::Checked))
                    } else {
                        regs2[j]
                    },
            ));
            i = i + 1;
        }
        assert(b.regs@ =~= resolve_regs(regs2, checked@));
        let ghost regs4 = b.regs@;
        // unchecked offsets in stack slots
        let ghost sslots = crate::stack::slot_seq(s.stack.slots@);
        let mut q: usize = 0;
        while q < s.stack.slots.len()
            invariant
                q <= s.stack.slots.len(),
                b.wf(),
                none == (checked@ == Set::<LocIdx>::empty()),
                s.wf(),
                sslots == crate::stack::slot_seq(s.stack.slots@),
                b.regs@ == regs4,
                b.stack@.0 == st1.0,
                b.stack@.1 == Map::total(
                    |k: (i64, u32)|
                        if crate::stack::key_in(sslots.take(q as int), k) && checked@ != Set::<
                            LocIdx,
                        >::empty() && s.stack@.1[k] == unchecked_of(checked@) {
                            Some(CallView::PtrOffset(DavView::Checked))
                        } else {
                            st3.1[k]
                        },
                ),
            decreases s.stack.slots.len() - q,
        {
            let o = s.stack.slots[q].offset;
            let sz = s.stack.slots[q].size;
            let val = s.stack.lookup_abs(o, sz);
            let ghost prevst = b.stack@;
            let hit = match &val.v {
                Some(CallCheckValue::PtrOffset(DAV::Unchecked(d))) => !none && d.same(&checked),
                _ => false,
            };
            if hit {
                b.stack.set_key(o, sz, ConstLattice::new(CallCheckValue::PtrOffset(DAV::Checked)));
            }
            assert(sslots.take(q + 1) =~= sslots.take(q as int).push(sslots[q as int]));
            assert forall|k: (i64, u32)|
                #[trigger] crate::stack::key_in(sslots.take(q + 1), k) == (crate::stack::key_in(
                    sslots.take(q as int),
                    k,
                ) || (k.0 == o && k.1 == sz)) by {
                crate::stack::lemma_key_in_push(sslots.take(q as int), sslots[q as int], k);
            }
            assert(val@ == s.stack@.1[(o, sz)]);
            assert(hit == (checked@ != Set::<LocIdx>::empty() && s.stack@.1[(o, sz)] == unchecked_of(checked@)));
            assert forall|k: (i64, u32)| #[trigger] b.stack@.1[k] == (if crate::stack::key_in(sslots.take(q + 1), k) && checked@ != Set::<
                        LocIdx,
                    >::empty() && s.stack@.1[k] == unchecked_of(checked@) {
                        Some(CallView::PtrOffset(DavView::Checked))
                    } else {
                        st3.1[k]
                    }) by {
                if k.0 == o && k.1 == sz {
                } else {
                    assert(b.stack@.1[k] == prevst.1[k]);
                }
            }
            assert(b.stack@.1 =~= Map::total(
                |k: (i64, u32)|
                    if crate::stack::key_in(sslots.take(q + 1), k) && checked@ != Set::<
                        LocIdx,
                    >::empty() && s.stack@.1[k] == unchecked_of(checked@) {
                        Some(CallView::PtrOffset(DavView::Checked))
                    } else {
                        st3.1[k]
                    },
            ));
            q = q + 1;
        }
        assert(sslots.take(q as int) =~= sslots);
        assert forall|k: (i64, u32)|
            #[trigger] b.stack@.1[k] == resolve_stack(st3.1, s.stack@.1, checked@)[k] by {
            if !crate::stack::key_in(sslots, k) {
                crate::stack::lemma_lookup_absent(sslots, k, None);
            }
        }
        assert(b.stack@.1 =~= resolve_stack(st3.1, s.stack@.1, checked@));
        b
    }
}

impl AbstractAnalyzer<CallCheckLattice> for CallAnalyzer {
    /// Nothing known for Lucet; `%rdi` holds the ExecEnv for WAMR.
    open spec fn spec_init(&self) -> CallStateView {
        let b = <CallCheckLattice as Lattice>::bot_v();
        match self.metadata.compiler {
            Compiler::Lucet => b,
            Compiler::Wamr => (b.0.insert(7, Some(CallView::WamrExecEnv)), b.1),
        }
    }

    open spec fn spec_aexec(&self, s: CallStateView, stmt: Stmt, loc: LocIdx) -> CallStateView {
        self.spec_call_aexec(s, stmt, loc)
    }

    /// A block with two successors: the equality-taken edge (the second
    /// successor for Lucet, the first for WAMR) gets the refined state, and
    /// both edges forget the zero flag. Otherwise every successor gets the
    /// out-state.
    open spec fn spec_branch(
        &self,
        irmap: Map<u64, IRBlock>,
        out: CallStateView,
        succs: Seq<u64>,
        addr: u64,
    ) -> Seq<(u64, CallStateView)> {
        if succs.len() == 2 {
            let plain = with_zf(out, None);
            let refined = with_zf(self.spec_refine(irmap, out, addr), None);
            match self.metadata.compiler {
                Compiler::Lucet => seq![(succs[0], plain), (succs[1], refined)],
                Compiler::Wamr => seq![(succs[0], refined), (succs[1], plain)],
            }
        } else {
            Seq::new(succs.len(), |j: int| (succs[j], out))
        }
    }

    fn init_state(&self) -> (r: CallCheckLattice) {
        let mut result: CallCheckLattice = VariableState::new();
        if self.metadata.compiler == Compiler::Wamr {
            result.regs.set(&7, &ValSize::Size64, ConstLattice::new(CallCheckValue::WamrExecEnv));
        }
        result
    }

    fn aexec(&self, s: &mut CallCheckLattice, stmt: &Stmt, loc: &LocIdx) {
        match stmt {
            Stmt::Clear(dst, _) => s.set_to_bot(dst),
            Stmt::Unop(_, dst, src) => {
                let v = self.aeval_unop(s, src);
                s.set(dst, v);
            },
            Stmt::Binop(op, dst, src1, src2) => {
                match op {
                    Binopcode::Cmp => match self.metadata.compiler {
                        Compiler::Lucet => self.lucet_handle_cmp(s, src1, src2),
                        Compiler::Wamr => self.wamr_handle_cmp(s, src1, src2),
                    },
                    Binopcode::Test => {},
                    _ => {
                        let v = self.aeval_binop(s, op, src1, src2, loc);
                        s.set(dst, v);
                        s.adjust_stack_offset(op, dst, src1, src2);
                    },
                }
            },
            Stmt::Call(_) => s.on_call(),
            Stmt::ProbeStack(n) => s.adjust_stack_offset(
                &Binopcode::Sub,
                &Value::Reg(4, ValSize::Size64),
                &Value::Reg(4, ValSize::Size64),
                &Value::Imm(crate::ir::ImmType::Unsigned, ValSize::Size64, *n as i64),
            ),
            _ => {},
        }
    }

    fn process_branch(
        &self,
        irmap: &IRMap,
        s: &CallCheckLattice,
        succs: &Vec<u64>,
        addr: &u64,
    ) -> (r: Vec<(u64, CallCheckLattice)>) {
        let mut r: Vec<(u64, CallCheckLattice)> = Vec::new();
        if succs.len() == 2 {
            let mut plain = s.duplicate();
            let mut refined = self.refine(irmap, s, addr);
            plain.regs.set(&16, &ValSize::Size64, ConstLattice { v: None });
            refined.regs.set(&16, &ValSize::Size64, ConstLattice { v: None });
            match self.metadata.compiler {
                Compiler::Lucet => {
                    r.push((succs[0], plain));
                    r.push((succs[1], refined));
                },
                Compiler::Wamr => {
                    r.push((succs[0], refined));
                    r.push((succs[1], plain));
                },
            }
            return r;
        }
        let mut j: usize = 0;
        while j < succs.len()
            invariant
                s.wf(),
                j <= succs.len(),
                r.len() == j,
                forall|q: int|
                    0 <= q < j ==> (#[trigger] r[q]).1.wf() && r[q].0 == succs[q] && r[q].1@ == s@,
            decreases succs.len() - j,
        {
            r.push((succs[j], s.duplicate()));
            j = j + 1;
        }
        r
    }
}

/// Check propagation: at a branch whose flag checks register `r1`, every
/// register `r2` whose (non-empty) reaching definitions equal those of
/// `r1` is checked on the refined edge too.
pub proof fn lemma_check_propagation(
    a: CallAnalyzer,
    irmap: Map<u64, IRBlock>,
    s: CallStateView,
    addr: u64,
    v: u32,
    r1: u8,
    r2: u8,
)
    requires
        s.0[16] == Some(CallView::CheckFlag(v, r1)),
        r1 < 17,
        r2 < 16,
        a.spec_defs_out(irmap, addr) matches Some(defs) && defs.0[r2 as int] == defs.0[r1 as int]
            && defs.0[r1 as int] != Set::<LocIdx>::empty(),
    ensures
        a.spec_refine(irmap, s, addr).0[r1 as int] == new_checked(a.metadata, v),
        a.spec_refine(irmap, s, addr).0[r2 as int] == new_checked(a.metadata, v),
{
}

/// A Lucet comparison of register `r` with an operand holding the table
/// size sets the zero flag to `CheckFlag(0, r)` and changes nothing else.
pub proof fn lemma_lucet_cmp_sets_flag(md: CompilerMetadata, s: CallStateView, r: u8, sz: ValSize, other: Value)
    requires
        spec_lucet_eval(md, s, other) == Some(CallView::TableSize),
        !(other is Reg),
    ensures
        spec_lucet_cmp(md, s, Value::Reg(r, sz), other) == with_zf(s, Some(CallView::CheckFlag(0, r))),
        spec_lucet_cmp(md, s, other, Value::Reg(r, sz)) == with_zf(s, Some(CallView::CheckFlag(0, r))),
{
}

/// `cmp r, r2` with the table size in `r2` (and not in `r`) sets the zero
/// flag to `CheckFlag(0, r)`.
pub proof fn lemma_lucet_cmp_regs_sets_flag(md: CompilerMetadata, s: CallStateView, r: u8, sz: ValSize, r2: u8, sz2: ValSize)
    requires
        regc(s, r2, sz2) == Some(CallView::TableSize),
        regc(s, r, sz) != Some(CallView::TableSize),
    ensures
        spec_lucet_cmp(md, s, Value::Reg(r, sz), Value::Reg(r2, sz2)) == with_zf(
            s,
            Some(CallView::CheckFlag(0, r)),
        ),
{
}

/// A checked index shifted by 4 is a checked table offset.
pub proof fn lemma_shift_of_checked(s: CallStateView, n: u8, sz: ValSize, t: ImmType, w: ValSize, defs: ReachView)
    requires
        regc(s, n, sz) == Some(CallView::CheckedVal),
    ensures
        spec_shl(s, Value::Reg(n, sz), Value::Imm(t, w, 4), defs) == Some(
            CallView::PtrOffset(DavView::Checked),
        ),
{
}

/// `[A + B + 8]` with the guest table base and a checked offset in `A`
/// and `B` (either order) loads a function pointer.
pub proof fn lemma_checked_lookup_is_fn_ptr(md: CompilerMetadata, s: CallStateView, x: u8, y: u8, sz: ValSize, t: ImmType, w: ValSize)
    requires
        md.compiler == Compiler::Lucet,
        regc(s, x, ValSize::Size64) == Some(CallView::GuestTableBase),
        regc(s, y, ValSize::Size64) == Some(CallView::PtrOffset(DavView::Checked)),
    ensures
        spec_call_eval(
            md,
            s,
            Value::Mem(
                sz,
                MemArgs::Mem3Args(MemArg::Reg(x, ValSize::Size64), MemArg::Reg(y, ValSize::Size64), MemArg::Imm(t, w, 8)),
            ),
        ) == Some(CallView::FnPtr),
        spec_call_eval(
            md,
            s,
            Value::Mem(
                sz,
                MemArgs::Mem3Args(MemArg::Reg(y, ValSize::Size64), MemArg::Reg(x, ValSize::Size64), MemArg::Imm(t, w, 8)),
            ),
        ) == Some(CallView::FnPtr),
{
}

/// Check propagation to the stack: a slot whose definitions are the
/// checked register's (non-empty) is checked on the refined edge, unless
/// it held an offset computed from those definitions, which becomes a
/// checked offset.
pub proof fn lemma_check_propagation_stack(
    a: CallAnalyzer,
    irmap: Map<u64, IRBlock>,
    s: CallStateView,
    addr: u64,
    v: u32,
    r1: u8,
    k: (i64, u32),
)
    requires
        s.0[16] == Some(CallView::CheckFlag(v, r1)),
        r1 < 17,
        a.spec_defs_out(irmap, addr) matches Some(defs) && defs.1.1[k] == defs.0[r1 as int]
            && defs.0[r1 as int] != Set::<LocIdx>::empty(),
    ensures
        a.spec_refine(irmap, s, addr).1.1[k] == if s.1.1[k] == unchecked_of(
            a.spec_defs_out(irmap, addr).unwrap().0[r1 as int],
        ) {
            Some(CallView::PtrOffset(DavView::Checked))
        } else {
            new_checked(a.metadata, v)
        },
{
}

} // verus!
