//! Heap analysis: which locations hold the sandbox heap base, bounded
//! offsets, or pointers into the compiler's runtime metadata.
use crate::analysis::{AbstractAnalyzer, IRMap};
use crate::heaplattice::{HeapValue, HeapValueLattice, WAMR_FUNCPTRS_OFFSET, WAMR_FUNCTYPE_OFFSET, WAMR_GLOBALSBASE_OFFSET, WAMR_HEAPBASE_OFFSET, WAMR_MODULEINSTANCE_OFFSET, WAMR_STACKLIMIT_OFFSET};
use crate::ir::{size_bits, stack_disp, Binopcode, IRBlock, MemArg, MemArgs, Stmt, ValSize, Value};
use crate::lattice::{const_le, ConstLattice, Lattice, LocIdx};
use crate::metadata::{Compiler, CompilerMetadata};
use crate::regs::reg_read;
use crate::varstate::{state_adjust, state_on_call, state_read, state_write, StateView, VariableState};
use vstd::prelude::*;

verus! {

pub type HeapLattice = VariableState<HeapValueLattice>;

pub type HeapView = StateView<Option<HeapValue>>;

pub struct HeapAnalyzer {
    pub metadata: CompilerMetadata,
}

/// The value of 64-bit register `n`.
pub open spec fn reg64(s: HeapView, n: u8) -> Option<HeapValue> {
    reg_read(s.0, n, ValSize::Size64, None)
}

/// `[R]` where R holds the heap base: the Lucet globals pointer.
pub open spec fn spec_lucet_is_globalbase_access(s: HeapView, m: MemArgs) -> bool {
    match m {
        MemArgs::Mem1Arg(MemArg::Reg(n, ValSize::Size64)) => reg64(s, n) == Some(HeapValue::HeapBase),
        _ => false,
    }
}

/// `[R + offset]` where the 64-bit register R holds `base`.
pub open spec fn spec_wamr_access(s: HeapView, m: MemArgs, base: HeapValue, offset: i64) -> bool {
    match m {
        MemArgs::Mem2Args(MemArg::Reg(n, ValSize::Size64), MemArg::Imm(_, _, k)) => reg64(s, n)
            == Some(base) && k == offset,
        _ => false,
    }
}

pub fn lucet_is_globalbase_access(in_state: &HeapLattice, memargs: &MemArgs) -> (r: bool)
    requires
        in_state.wf(),
    ensures
        r == spec_lucet_is_globalbase_access(in_state@, *memargs),
{
    match memargs {
        MemArgs::Mem1Arg(MemArg::Reg(n, ValSize::Size64)) => {
            let v = in_state.regs.get(n, &ValSize::Size64);
            v.v == Some(HeapValue::HeapBase)
        },
        _ => false,
    }
}

fn wamr_access_helper(in_state: &HeapLattice, memargs: &MemArgs, base: HeapValue, offset: i64) -> (r:
    bool)
    requires
        in_state.wf(),
    ensures
        r == spec_wamr_access(in_state@, *memargs, base, offset),
{
    match memargs {
        MemArgs::Mem2Args(MemArg::Reg(n, ValSize::Size64), MemArg::Imm(_, _, k)) => {
            let v = in_state.regs.get(n, &ValSize::Size64);
            v.v == Some(base) && *k == offset
        },
        _ => false,
    }
}

/// `[ExecEnv + 0x10]`: the current ModuleInstance.
pub fn wamr_is_moduleinstance_access(in_state: &HeapLattice, memargs: &MemArgs) -> (r: bool)
    requires
        in_state.wf(),
    ensures
        r == spec_wamr_access(in_state@, *memargs, HeapValue::WamrExecEnv, WAMR_MODULEINSTANCE_OFFSET),
{
    wamr_access_helper(in_state, memargs, HeapValue::WamrExecEnv, WAMR_MODULEINSTANCE_OFFSET)
}

/// `[ExecEnv + stack limit offset]`: the native stack limit.
pub fn wamr_is_stacklimit_access(in_state: &HeapLattice, memargs: &MemArgs) -> (r: bool)
    requires
        in_state.wf(),
    ensures
        r == spec_wamr_access(in_state@, *memargs, HeapValue::WamrExecEnv, WAMR_STACKLIMIT_OFFSET),
{
    wamr_access_helper(in_state, memargs, HeapValue::WamrExecEnv, WAMR_STACKLIMIT_OFFSET)
}

/// `[ModuleInstance + 0x150]`: the linear memory base.
pub fn wamr_is_heapbase_access(in_state: &HeapLattice, memargs: &MemArgs) -> (r: bool)
    requires
        in_state.wf(),
    ensures
        r == spec_wamr_access(in_state@, *memargs, HeapValue::WamrModuleInstance, WAMR_HEAPBASE_OFFSET),
{
    wamr_access_helper(in_state, memargs, HeapValue::WamrModuleInstance, WAMR_HEAPBASE_OFFSET)
}

/// `[ModuleInstance + 0x30]`: the function type table.
pub fn wamr_is_functype_access(in_state: &HeapLattice, memargs: &MemArgs) -> (r: bool)
    requires
        in_state.wf(),
    ensures
        r == spec_wamr_access(in_state@, *memargs, HeapValue::WamrModuleInstance, WAMR_FUNCTYPE_OFFSET),
{
    wamr_access_helper(in_state, memargs, HeapValue::WamrModuleInstance, WAMR_FUNCTYPE_OFFSET)
}

/// `[ModuleInstance + 0x28]`: the function pointer table.
pub fn wamr_is_funcptrs_access(in_state: &HeapLattice, memargs: &MemArgs) -> (r: bool)
    requires
        in_state.wf(),
    ensures
        r == spec_wamr_access(in_state@, *memargs, HeapValue::WamrModuleInstance, WAMR_FUNCPTRS_OFFSET),
{
    wamr_access_helper(in_state, memargs, HeapValue::WamrModuleInstance, WAMR_FUNCPTRS_OFFSET)
}

/// A register operand: 32 bits or fewer is a bounded offset; a 64-bit
/// register has the value it holds; a register of unknown width is unknown.
pub open spec fn spec_eval_reg(s: HeapView, n: u8, sz: ValSize) -> Option<HeapValue> {
    if sz == ValSize::SizeOther {
        None
    } else if sz == ValSize::Size64 {
        reg64(s, n)
    } else {
        Some(HeapValue::Bounded4GB)
    }
}

pub open spec fn spec_lucet_eval(md: CompilerMetadata, s: HeapView, v: Value) -> Option<HeapValue> {
    match v {
        Value::Mem(_, m) => if spec_lucet_is_globalbase_access(s, m) {
            Some(HeapValue::GlobalsBase)
        } else {
            match state_read(s, v, None) {
                Some(x) => x,
                None => None,
            }
        },
        Value::Reg(n, sz) => spec_eval_reg(s, n, sz),
        Value::Imm(_, _, x) => if x as u64 == md.guest_table_0 {
            Some(HeapValue::GuestTable0)
        } else if x as u64 == md.lucet_tables {
            Some(HeapValue::LucetTables)
        } else if 0 <= x < 0x1_0000_0000 {
            Some(HeapValue::Bounded4GB)
        } else {
            None
        },
    }
}

pub open spec fn spec_wamr_eval(s: HeapView, v: Value) -> Option<HeapValue> {
    match v {
        Value::Mem(_, m) => if spec_wamr_access(s, m, HeapValue::WamrExecEnv, WAMR_STACKLIMIT_OFFSET) {
            Some(HeapValue::WamrStackLimit)
        } else if spec_wamr_access(s, m, HeapValue::WamrExecEnv, WAMR_MODULEINSTANCE_OFFSET) {
            Some(HeapValue::WamrModuleInstance)
        } else if spec_wamr_access(s, m, HeapValue::WamrExecEnv, WAMR_GLOBALSBASE_OFFSET) {
            Some(HeapValue::GlobalsBase)
        } else if spec_wamr_access(s, m, HeapValue::WamrModuleInstance, WAMR_HEAPBASE_OFFSET) {
            Some(HeapValue::HeapBase)
        } else if spec_wamr_access(s, m, HeapValue::WamrModuleInstance, WAMR_FUNCTYPE_OFFSET) {
            Some(HeapValue::WamrFuncTypeTable)
        } else if spec_wamr_access(s, m, HeapValue::WamrModuleInstance, WAMR_FUNCPTRS_OFFSET) {
            Some(HeapValue::WamrFuncPtrsTable)
        } else {
            None
        },
        Value::Reg(n, sz) => spec_eval_reg(s, n, sz),
        Value::Imm(_, _, x) => if 0 <= x < 0x1_0000_0000 {
            Some(HeapValue::Bounded4GB)
        } else {
            None
        },
    }
}

/// Symbolic value of a source operand.
pub open spec fn spec_heap_eval(md: CompilerMetadata, s: HeapView, v: Value) -> Option<HeapValue> {
    match md.compiler {
        Compiler::Lucet => spec_lucet_eval(md, s, v),
        Compiler::Wamr => spec_wamr_eval(s, v),
    }
}

/// The value stored by a move to `dst`: a write to a 32- or 16-bit
/// register with no better value is a bounded offset (the upper bits are
/// zeroed or kept small), one to an 8-bit register at most 255.
pub open spec fn widen_for_dst(dst: Value, v: Option<HeapValue>) -> Option<HeapValue> {
    match dst {
        Value::Reg(_, ValSize::Size32) | Value::Reg(_, ValSize::Size16) => if v is None {
            Some(HeapValue::Bounded4GB)
        } else {
            v
        },
        Value::Reg(_, ValSize::Size8) => if v is None || v == Some(HeapValue::Bounded4GB) {
            Some(HeapValue::Bounded256B)
        } else {
            v
        },
        _ => v,
    }
}

/// The value an arithmetic result written to `dst` gets.
pub open spec fn binop_result(dst: Value) -> Option<HeapValue> {
    match dst {
        Value::Reg(_, ValSize::Size32) => Some(HeapValue::Bounded4GB),
        _ => None,
    }
}

pub open spec fn spec_heap_aexec(md: CompilerMetadata, s: HeapView, stmt: Stmt) -> HeapView {
    match stmt {
        Stmt::Clear(dst, _) => state_write(s, dst, None, None),
        Stmt::Unop(_, dst, src) => state_write(
            s,
            dst,
            widen_for_dst(dst, spec_heap_eval(md, s, src)),
            None,
        ),
        Stmt::Binop(op, dst, src1, src2) => if op == Binopcode::Cmp || op == Binopcode::Test {
            s
        } else {
            state_adjust(state_write(s, dst, binop_result(dst), None), op, dst, src1, src2, None)
        },
        Stmt::Call(_) => state_on_call(s, None),
        Stmt::ProbeStack(n) => state_adjust(
            s,
            Binopcode::Sub,
            Value::Reg(4, ValSize::Size64),
            Value::Reg(4, ValSize::Size64),
            Value::Imm(crate::ir::ImmType::Unsigned, ValSize::Size64, n as i64),
            None,
        ),
        _ => s,
    }
}

impl HeapAnalyzer {
    pub fn aeval_unop(&self, in_state: &HeapLattice, value: &Value) -> (r: HeapValueLattice)
        requires
            in_state.wf(),
        ensures
            r.v == spec_heap_eval(self.metadata, in_state@, *value),
    {
        match self.metadata.compiler {
            Compiler::Lucet => self.lucet_aeval_unop(in_state, value),
            Compiler::Wamr => self.wamr_aeval_unop(in_state, value),
        }
    }

    fn eval_reg(&self, in_state: &HeapLattice, n: u8, sz: ValSize) -> (r: HeapValueLattice)
        requires
            in_state.wf(),
        ensures
            r.v == spec_eval_reg(in_state@, n, sz),
    {
        match sz {
            ValSize::SizeOther => ConstLattice { v: None },
            ValSize::Size64 => in_state.regs.get(&n, &ValSize::Size64),
            _ => ConstLattice::new(HeapValue::Bounded4GB),
        }
    }

    fn lucet_aeval_unop(&self, in_state: &HeapLattice, value: &Value) -> (r: HeapValueLattice)
        requires
            in_state.wf(),
        ensures
            r.v == spec_lucet_eval(self.metadata, in_state@, *value),
    {
        match value {
            Value::Mem(_, memargs) => {
                if lucet_is_globalbase_access(in_state, memargs) {
                    return ConstLattice::new(HeapValue::GlobalsBase);
                }
                match in_state.get(value) {
                    Some(x) => x,
                    None => ConstLattice { v: None },
                }
            },
            Value::Reg(n, sz) => self.eval_reg(in_state, *n, *sz),
            Value::Imm(_, _, x) => {
                if *x as u64 == self.metadata.guest_table_0 {
                    ConstLattice::new(HeapValue::GuestTable0)
                } else if *x as u64 == self.metadata.lucet_tables {
                    ConstLattice::new(HeapValue::LucetTables)
                } else if 0 <= *x && *x < 0x1_0000_0000 {
                    ConstLattice::new(HeapValue::Bounded4GB)
                } else {
                    ConstLattice { v: None }
                }
            },
        }
    }

    fn wamr_aeval_unop(&self, in_state: &HeapLattice, value: &Value) -> (r: HeapValueLattice)
        requires
            in_state.wf(),
        ensures
            r.v == spec_wamr_eval(in_state@, *value),
    {
        match value {
            Value::Mem(_, memargs) => {
                if wamr_is_stacklimit_access(in_state, memargs) {
                    ConstLattice::new(HeapValue::WamrStackLimit)
                } else if wamr_is_moduleinstance_access(in_state, memargs) {
                    ConstLattice::new(HeapValue::WamrModuleInstance)
                } else if wamr_access_helper(
                    in_state,
                    memargs,
                    HeapValue::WamrExecEnv,
                    WAMR_GLOBALSBASE_OFFSET,
                ) {
                    ConstLattice::new(HeapValue::GlobalsBase)
                } else if wamr_is_heapbase_access(in_state, memargs) {
                    ConstLattice::new(HeapValue::HeapBase)
                } else if wamr_is_functype_access(in_state, memargs) {
                    ConstLattice::new(HeapValue::WamrFuncTypeTable)
                } else if wamr_is_funcptrs_access(in_state, memargs) {
                    ConstLattice::new(HeapValue::WamrFuncPtrsTable)
                } else {
                    ConstLattice { v: None }
                }
            },
            Value::Reg(n, sz) => self.eval_reg(in_state, *n, *sz),
            Value::Imm(_, _, x) => {
                if 0 <= *x && *x < 0x1_0000_0000 {
                    ConstLattice::new(HeapValue::Bounded4GB)
                } else {
                    ConstLattice { v: None }
                }
            },
        }
    }

    /// `dst <- src`.
    pub fn aexec_unop(&self, in_state: &mut HeapLattice, dst: &Value, src: &Value)
        requires
            old(in_state).wf(),
        ensures
            final(in_state).wf(),
            final(in_state)@ == state_write(
                old(in_state)@,
                *dst,
                widen_for_dst(*dst, spec_heap_eval(self.metadata, old(in_state)@, *src)),
                None,
            ),
    {
        let v = self.aeval_unop(in_state, src);
        let w: HeapValueLattice = match dst {
            Value::Reg(_, ValSize::Size32) | Value::Reg(_, ValSize::Size16) => {
                if v.v.is_none() {
                    ConstLattice::new(HeapValue::Bounded4GB)
                } else {
                    v
                }
            },
            Value::Reg(_, ValSize::Size8) => {
                match v.v {
                    None | Some(HeapValue::Bounded4GB) => ConstLattice::new(HeapValue::Bounded256B),
                    _ => v,
                }
            },
            _ => v,
        };
        in_state.set(dst, w)
    }

    /// `dst <- src1 op src2`, followed by the move of `%rsp` it may make.
    pub fn aexec_binop(
        &self,
        in_state: &mut HeapLattice,
        opcode: &Binopcode,
        dst: &Value,
        src1: &Value,
        src2: &Value,
    )
        requires
            old(in_state).wf(),
        ensures
            final(in_state).wf(),
            final(in_state)@ == spec_heap_aexec(
                self.metadata,
                old(in_state)@,
                Stmt::Binop(*opcode, *dst, *src1, *src2),
            ),
    {
        match opcode {
            Binopcode::Cmp | Binopcode::Test => {},
            _ => {
                let v: HeapValueLattice = match dst {
                    Value::Reg(_, ValSize::Size32) => ConstLattice::new(HeapValue::Bounded4GB),
                    _ => ConstLattice { v: None },
                };
                in_state.set(dst, v);
                in_state.adjust_stack_offset(opcode, dst, src1, src2);
            },
        }
    }
}

impl AbstractAnalyzer<HeapLattice> for HeapAnalyzer {
    /// `%rdi` holds the heap base (Lucet) or the ExecEnv (WAMR).
    open spec fn spec_init(&self) -> HeapView {
        let b = <HeapLattice as Lattice>::bot_v();
        (
            b.0.insert(
                7,
                match self.metadata.compiler {
                    Compiler::Lucet => Some(HeapValue::HeapBase),
                    Compiler::Wamr => Some(HeapValue::WamrExecEnv),
                },
            ),
            b.1,
        )
    }

    open spec fn spec_aexec(&self, s: HeapView, stmt: Stmt, loc: LocIdx) -> HeapView {
        spec_heap_aexec(self.metadata, s, stmt)
    }

    open spec fn spec_branch(
        &self,
        irmap: Map<u64, IRBlock>,
        out: HeapView,
        succs: Seq<u64>,
        addr: u64,
    ) -> Seq<(u64, HeapView)> {
        Seq::new(succs.len(), |j: int| (succs[j], out))
    }

    fn init_state(&self) -> (r: HeapLattice) {
        let mut result: HeapLattice = VariableState::new();
        let v = match self.metadata.compiler {
            Compiler::Lucet => ConstLattice::new(HeapValue::HeapBase),
            Compiler::Wamr => ConstLattice::new(HeapValue::WamrExecEnv),
        };
        result.regs.set(&7, &ValSize::Size64, v);
        result
    }

    fn aexec(&self, s: &mut HeapLattice, stmt: &Stmt, loc: &LocIdx) {
        match stmt {
            Stmt::Clear(dst, _) => s.set_to_bot(dst),
            Stmt::Unop(_, dst, src) => self.aexec_unop(s, dst, src),
            Stmt::Binop(op, dst, src1, src2) => self.aexec_binop(s, op, dst, src1, src2),
            Stmt::Call(_) => s.on_call(),
            Stmt::ProbeStack(n) => s.adjust_stack_offset(
                &Binopcode::Sub,
                &Value::Reg(4, ValSize::Size64),
                &Value::Reg(4, ValSize::Size64),
                &Value::Imm(crate::ir::ImmType::Unsigned, ValSize::Size64, *n as i64),
            ),
            _ => {},
        }
    }

    fn process_branch(&self, irmap: &IRMap, s: &HeapLattice, succs: &Vec<u64>, addr: &u64) -> (r: Vec<
        (u64, HeapLattice),
    >) {
        let mut r: Vec<(u64, HeapLattice)> = Vec::new();
        let mut j: usize = 0;
        while j < succs.len()
            invariant
                s.wf(),
                j <= succs.len(),
                r.len() == j,
                forall|q: int|
                    0 <= q < j ==> (#[trigger] r[q]).1.wf() && r[q].0 == succs[q] && r[q].1@ == s@,
            decreases succs.len() - j,
        {
            r.push((succs[j], s.duplicate()));
            j = j + 1;
        }
        r
    }
}

/// A 32-bit write to register `r` (a move or an arithmetic result) leaves a
/// value in the full 64-bit register that is known: a bounded offset
/// unless the move copied a better-known value.
pub proof fn lemma_32bit_write_bounded(md: CompilerMetadata, s: HeapView, stmt: Stmt, r: u8)
    requires
        r < 17,
        match stmt {
            Stmt::Unop(_, dst, _) => dst == Value::Reg(r, ValSize::Size32),
            Stmt::Binop(op, dst, _, _) => dst == Value::Reg(r, ValSize::Size32) && op != Binopcode::Cmp
                && op != Binopcode::Test,
            _ => false,
        },
    ensures
        reg64(spec_heap_aexec(md, s, stmt), r) is Some,
        stmt is Binop ==> reg64(spec_heap_aexec(md, s, stmt), r) == Some(HeapValue::Bounded4GB),
{
}

/// A narrow register (32, 16 or 8 bits) written by a move: the value
/// stored is widened to a bounded offset, which is not monotone.
pub open spec fn narrow_reg_move(stmt: Stmt) -> bool {
    match stmt {
        Stmt::Unop(_, Value::Reg(_, sz), _) => sz == ValSize::Size32 || sz == ValSize::Size16 || sz
            == ValSize::Size8,
        _ => false,
    }
}

/// A move from `[rsp]`, which the Lucet rules may read either as the
/// globals pointer or as a stack slot, depending on what `%rsp` holds.
pub open spec fn move_from_rsp_deref(stmt: Stmt) -> bool {
    match stmt {
        Stmt::Unop(_, _, Value::Mem(_, MemArgs::Mem1Arg(MemArg::Reg(4, ValSize::Size64)))) => true,
        _ => false,
    }
}

proof fn lemma_eval_monotone(md: CompilerMetadata, s: HeapView, t: HeapView, v: Value)
    requires
        <HeapLattice as Lattice>::le_v(s, t),
        s.1.0 == t.1.0,
        !(v matches Value::Mem(_, MemArgs::Mem1Arg(MemArg::Reg(4, ValSize::Size64)))),
    ensures
        const_le(spec_heap_eval(md, s, v), spec_heap_eval(md, t, v)),
{
    match v {
        Value::Reg(n, sz) => {
            if n < 17 {
                assert(const_le(s.0[n as int], t.0[n as int]));
            }
        },
        Value::Mem(_, m) => {
            match m {
                MemArgs::Mem1Arg(MemArg::Reg(n, ValSize::Size64)) => {
                    if n < 17 {
                        assert(const_le(s.0[n as int], t.0[n as int]));
                    }
                },
                MemArgs::Mem2Args(MemArg::Reg(n, _), _) => {
                    if n < 17 {
                        assert(const_le(s.0[n as int], t.0[n as int]));
                    }
                    let k = ((s.1.0 + stack_disp(v)) as i64, size_bits(v->Mem_0) / 8);
                    assert(const_le(s.1.1[k], t.1.1[k]));
                },
                _ => {},
            }
        },
        _ => {},
    }
}

/// The heap transfer is monotone on states `s ⊑ t` with the same `%rsp`
/// displacement, for every statement but a move into a narrow register
/// and a move from `[rsp]`.
pub proof fn lemma_heap_monotone(md: CompilerMetadata, s: HeapView, t: HeapView, stmt: Stmt)
    requires
        <HeapLattice as Lattice>::le_v(s, t),
        s.1.0 == t.1.0,
        !narrow_reg_move(stmt),
        !move_from_rsp_deref(stmt),
    ensures
        <HeapLattice as Lattice>::le_v(spec_heap_aexec(md, s, stmt), spec_heap_aexec(md, t, stmt)),
        spec_heap_aexec(md, s, stmt).1.0 == spec_heap_aexec(md, t, stmt).1.0,
{
    match stmt {
        Stmt::Clear(dst, _) => lemma_heap_write_monotone(s, t, dst, None, None),
        Stmt::Unop(_, dst, src) => {
            lemma_eval_monotone(md, s, t, src);
            lemma_heap_write_monotone(s, t, dst, spec_heap_eval(md, s, src), spec_heap_eval(md, t, src));
        },
        Stmt::Binop(op, dst, src1, src2) => {
            if op != Binopcode::Cmp && op != Binopcode::Test {
                lemma_heap_write_monotone(s, t, dst, binop_result(dst), binop_result(dst));
                let s1 = state_write(s, dst, binop_result(dst), None);
                let t1 = state_write(t, dst, binop_result(dst), None);
                lemma_heap_adjust_monotone(s1, t1, op, dst, src1, src2);
            }
        },
        Stmt::Call(_) => {
            let s1 = state_on_call(s, None);
            let t1 = state_on_call(t, None);
            assert forall|i: int| const_le(#[trigger] s1.0[i], t1.0[i]) by {
                assert(const_le(s.0[i], t.0[i]));
            }
        },
        Stmt::ProbeStack(n) => lemma_heap_adjust_monotone(
            s,
            t,
            Binopcode::Sub,
            Value::Reg(4, ValSize::Size64),
            Value::Reg(4, ValSize::Size64),
            Value::Imm(crate::ir::ImmType::Unsigned, ValSize::Size64, n as i64),
        ),
        _ => {},
    }
}

proof fn lemma_heap_write_monotone(s: HeapView, t: HeapView, dst: Value, v: Option<HeapValue>, w: Option<HeapValue>)
    requires
        <HeapLattice as Lattice>::le_v(s, t),
        s.1.0 == t.1.0,
        const_le(v, w),
    ensures
        <HeapLattice as Lattice>::le_v(state_write(s, dst, v, None), state_write(t, dst, w, None)),
        state_write(s, dst, v, None).1.0 == state_write(t, dst, w, None).1.0,
{
    let s1 = state_write(s, dst, v, None);
    let t1 = state_write(t, dst, w, None);
    assert forall|i: int| const_le(#[trigger] s1.0[i], t1.0[i]) by {
        assert(const_le(s.0[i], t.0[i]));
    }
    assert forall|k: (i64, u32)| const_le(#[trigger] s1.1.1[k], t1.1.1[k]) by {
        assert(const_le(s.1.1[k], t.1.1[k]));
    }
}

proof fn lemma_heap_adjust_monotone(
    s: HeapView,
    t: HeapView,
    op: Binopcode,
    dst: Value,
    src1: Value,
    src2: Value,
)
    requires
        <HeapLattice as Lattice>::le_v(s, t),
        s.1.0 == t.1.0,
    ensures
        <HeapLattice as Lattice>::le_v(
            state_adjust(s, op, dst, src1, src2, None),
            state_adjust(t, op, dst, src1, src2, None),
        ),
        state_adjust(s, op, dst, src1, src2, None).1.0 == state_adjust(t, op, dst, src1, src2, None).1.0,
{
    let s1 = state_adjust(s, op, dst, src1, src2, None);
    let t1 = state_adjust(t, op, dst, src1, src2, None);
    assert forall|i: int| const_le(#[trigger] s1.0[i], t1.0[i]) by {
        assert(const_le(s.0[i], t.0[i]));
    }
    assert forall|k: (i64, u32)| const_le(#[trigger] s1.1.1[k], t1.1.1[k]) by {
        assert(const_le(s.1.1[k], t.1.1[k]));
    }
}

} // verus!
