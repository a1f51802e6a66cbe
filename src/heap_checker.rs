//! Heap checker: every memory access must be a stack access, a bounded
//! access into the heap, or one of the runtime metadata, globals or table
//! accesses that the compiler emits; every call must pass the heap base
//! (Lucet) or the ExecEnv (WAMR) in `%rdi`.
use crate::analysis::{AnalysisResult, IRMap};
use crate::checker::{check_state_at_statements, result_passes, Checker};
use crate::heap_analyzer::{reg64, HeapAnalyzer, HeapLattice, HeapView};
use crate::heaplattice::{
    HeapValue, WAMR_EXCEPTION_OFFSET, WAMR_FUNCINDS_OFFSET, WAMR_FUNCPTRS_OFFSET, WAMR_FUNCTYPE_OFFSET,
    WAMR_GLOBALSBASE_OFFSET, WAMR_HEAPBASE_OFFSET, WAMR_MEMBOUNDS_OFFSET, WAMR_MODULEINSTANCE_OFFSET,
    WAMR_PAGECNT_OFFSET,
};
use crate::ir::{is_stack_access, size_bits, value_is_stack_access, MemArg, MemArgs, Stmt, ValSize, Value};
use crate::lattice::LocIdx;
use crate::metadata::{Compiler, CompilerMetadata};
use crate::regs::reg_read;
use vstd::prelude::*;

verus! {

pub struct HeapChecker<'a> {
    pub analyzer: &'a HeapAnalyzer,
    /// Addresses (and names) of the functions of the module.
    pub func_addrs: &'a Vec<(u64, String)>,
}

/// The value of register `n` read at width `sz`.
pub open spec fn regv(s: HeapView, n: u8, sz: ValSize) -> Option<HeapValue> {
    reg_read(s.0, n, sz, None)
}

pub open spec fn bounded_arg(s: HeapView, m: MemArg) -> bool {
    match m {
        MemArg::Reg(n, sz) => regv(s, n, sz) == Some(HeapValue::Bounded4GB),
        MemArg::Imm(_, _, v) => v <= 0xffff_ffff,
    }
}

pub open spec fn is_heapbase_arg(s: HeapView, m: MemArg) -> bool {
    match m {
        MemArg::Reg(n, ValSize::Size64) => reg64(s, n) == Some(HeapValue::HeapBase),
        _ => false,
    }
}

/// Heap access: `[H]`, `[H + b]` or `[b + H]`, or `[H + b + c]` (H in
/// either of the two first places), where H holds the heap base and each other operand is an
/// immediate at most `0xffffffff` or a bounded register.
pub open spec fn spec_heap_access(s: HeapView, access: Value) -> bool {
    match access {
        Value::Mem(_, MemArgs::Mem1Arg(m)) => is_heapbase_arg(s, m),
        Value::Mem(_, MemArgs::Mem2Args(m1, m2)) => (is_heapbase_arg(s, m1) && bounded_arg(s, m2)) || (
        is_heapbase_arg(s, m2) && bounded_arg(s, m1)),
        Value::Mem(_, MemArgs::Mem3Args(m1, m2, m3)) => {
            let (x, y) = if is_heapbase_arg(s, m2) {
                (m1, m3)
            } else {
                (m2, m3)
            };
            (is_heapbase_arg(s, m1) || is_heapbase_arg(s, m2)) && !(x is Imm && y is Imm)
                && bounded_arg(s, x) && bounded_arg(s, y)
        },
        _ => false,
    }
}

pub open spec fn reg_holds(s: HeapView, m: MemArg, v: HeapValue) -> bool {
    match m {
        MemArg::Reg(n, ValSize::Size64) => reg64(s, n) == Some(v),
        _ => false,
    }
}

/// Globals access: `[G]` or `[G + k]` with G the globals base; within the
/// first page (Lucet) or within the globals (WAMR).
pub open spec fn spec_global_access(md: CompilerMetadata, s: HeapView, access: Value) -> bool {
    match access {
        Value::Mem(sz, MemArgs::Mem1Arg(m)) => reg_holds(s, m, HeapValue::GlobalsBase) && (
        md.compiler == Compiler::Lucet || (size_bits(sz) / 8) as int <= md.globals_size),
        Value::Mem(sz, MemArgs::Mem2Args(m, MemArg::Imm(_, _, k))) => reg_holds(
            s,
            m,
            HeapValue::GlobalsBase,
        ) && match md.compiler {
            Compiler::Lucet => k <= 4096,
            Compiler::Wamr => k + (size_bits(sz) / 8) as int <= md.globals_size,
        },
        _ => false,
    }
}

pub open spec fn spec_lucet_metadata_access(s: HeapView, access: Value) -> bool {
    match access {
        Value::Mem(_, MemArgs::Mem1Arg(m)) => reg_holds(s, m, HeapValue::GlobalsBase),
        Value::Mem(_, MemArgs::Mem2Args(m, MemArg::Imm(_, _, 8))) => reg_holds(
            s,
            m,
            HeapValue::LucetTables,
        ),
        Value::Mem(_, MemArgs::Mem2Args(m1, m2)) => m1 is Reg && m2 is Reg && (match (m1, m2) {
            (MemArg::Reg(_, ValSize::Size64), MemArg::Reg(_, ValSize::Size64)) => reg_holds(
                s,
                m1,
                HeapValue::GuestTable0,
            ) || reg_holds(s, m2, HeapValue::GuestTable0),
            _ => false,
        }),
        Value::Mem(_, MemArgs::Mem3Args(m1, m2, MemArg::Imm(_, _, 8))) => match (m1, m2) {
            (MemArg::Reg(_, ValSize::Size64), MemArg::Reg(_, ValSize::Size64)) => reg_holds(
                s,
                m1,
                HeapValue::GuestTable0,
            ) || reg_holds(s, m2, HeapValue::GuestTable0),
            _ => false,
        },
        _ => false,
    }
}

/// The WAMR runtime fields that compiled code may read: `[ExecEnv + k]`
/// and `[ModuleInstance + k]` for the listed offsets.
pub open spec fn spec_wamr_metadata_access(s: HeapView, access: Value) -> bool {
    match access {
        Value::Mem(_, MemArgs::Mem2Args(m, MemArg::Imm(_, _, k))) => {
            ((k == WAMR_MODULEINSTANCE_OFFSET || k == WAMR_GLOBALSBASE_OFFSET) && reg_holds(
                s,
                m,
                HeapValue::WamrExecEnv,
            )) || ((k == WAMR_HEAPBASE_OFFSET || k == WAMR_EXCEPTION_OFFSET || k
                == WAMR_MEMBOUNDS_OFFSET || k == WAMR_FUNCTYPE_OFFSET || k == WAMR_FUNCPTRS_OFFSET
                || k == WAMR_PAGECNT_OFFSET) && reg_holds(s, m, HeapValue::WamrModuleInstance))
        },
        _ => false,
    }
}

pub open spec fn spec_metadata_access(md: CompilerMetadata, s: HeapView, access: Value) -> bool {
    match md.compiler {
        Compiler::Lucet => spec_lucet_metadata_access(s, access),
        Compiler::Wamr => spec_wamr_metadata_access(s, access),
    }
}

/// Jump and call table lookups: a scale-4 lookup (Lucet); for WAMR, the
/// function index table `[MI + k]` / `[MI + r*4 + d]`, the function type
/// table `[T + r*4]` and the function pointer table `[P + r*8]`.
pub open spec fn spec_jump_table_access(md: CompilerMetadata, s: HeapView, access: Value) -> bool {
    match md.compiler {
        Compiler::Lucet => match access {
            Value::Mem(_, MemArgs::MemScale(_, _, MemArg::Imm(_, _, 4))) => true,
            _ => false,
        },
        Compiler::Wamr => match access {
            Value::Mem(_, MemArgs::Mem2Args(m, MemArg::Imm(_, _, k))) => reg_holds(
                s,
                m,
                HeapValue::WamrModuleInstance,
            ) && (k >= WAMR_FUNCINDS_OFFSET || k == WAMR_FUNCINDS_OFFSET - 4),
            Value::Mem(
                _,
                MemArgs::MemScaleDisp(m, MemArg::Reg(_, _), MemArg::Imm(_, _, 4), MemArg::Imm(_, _, d)),
            ) => reg_holds(s, m, HeapValue::WamrModuleInstance) && d >= 0x1a8,
            Value::Mem(
                _,
                MemArgs::MemScale(m, MemArg::Reg(_, ValSize::Size64), MemArg::Imm(_, _, 4)),
            ) => reg_holds(s, m, HeapValue::WamrFuncTypeTable),
            Value::Mem(
                _,
                MemArgs::MemScale(m, MemArg::Reg(_, ValSize::Size64), MemArg::Imm(_, _, 8)),
            ) => reg_holds(s, m, HeapValue::WamrFuncPtrsTable),
            _ => false,
        },
    }
}

/// An access is safe when it falls in one of the recognised classes.
pub open spec fn spec_mem_access_ok(md: CompilerMetadata, s: HeapView, access: Value) -> bool {
    is_stack_access(access) || spec_heap_access(s, access) || spec_metadata_access(md, s, access)
        || spec_global_access(md, s, access) || spec_jump_table_access(md, s, access)
}

pub open spec fn operand_ok(md: CompilerMetadata, s: HeapView, v: Value) -> bool {
    v is Mem ==> spec_mem_access_ok(md, s, v)
}

pub open spec fn operands_ok(md: CompilerMetadata, s: HeapView, vs: Seq<Value>) -> bool {
    forall|i: int| 0 <= i < vs.len() ==> operand_ok(md, s, #[trigger] vs[i])
}

pub open spec fn is_func_addr(funcs: Seq<(u64, String)>, a: u64) -> bool {
    exists|i: int| 0 <= i < funcs.len() && funcs[i].0 == a
}

/// The heap predicate for one statement.
pub open spec fn spec_heap_check(
    md: CompilerMetadata,
    funcs: Seq<(u64, String)>,
    s: HeapView,
    stmt: Stmt,
) -> bool {
    match stmt {
        Stmt::Call(target) => match md.compiler {
            Compiler::Lucet => reg64(s, 7) == Some(HeapValue::HeapBase),
            Compiler::Wamr => reg64(s, 7) == Some(HeapValue::WamrExecEnv) || match target {
                Value::Imm(_, _, t) => !is_func_addr(funcs, t as u64),
                _ => false,
            },
        },
        Stmt::Unop(_, dst, src) => operand_ok(md, s, dst) && operand_ok(md, s, src),
        Stmt::Binop(_, dst, src1, src2) => operand_ok(md, s, dst) && operand_ok(md, s, src1)
            && operand_ok(md, s, src2),
        Stmt::Clear(dst, srcs) => operand_ok(md, s, dst) && operands_ok(md, s, srcs@),
        _ => true,
    }
}

fn holds(state: &HeapLattice, m: &MemArg, v: HeapValue) -> (r: bool)
    requires
        state.wf(),
    ensures
        r == reg_holds(state@, *m, v),
{
    match m {
        MemArg::Reg(n, ValSize::Size64) => state.regs.get(n, &ValSize::Size64).v == Some(v),
        _ => false,
    }
}

fn bounded(state: &HeapLattice, m: &MemArg) -> (r: bool)
    requires
        state.wf(),
    ensures
        r == bounded_arg(state@, *m),
{
    match m {
        MemArg::Reg(n, sz) => state.regs.get(n, sz).v == Some(HeapValue::Bounded4GB),
        MemArg::Imm(_, _, v) => *v <= 0xffff_ffff,
    }
}

impl<'a> HeapChecker<'a> {
    fn check_heap_access(&self, state: &HeapLattice, access: &Value) -> (r: bool)
        requires
            state.wf(),
        ensures
            r == spec_heap_access(state@, *access),
    {
        match access {
            Value::Mem(_, MemArgs::Mem1Arg(m)) => holds(state, m, HeapValue::HeapBase),
            Value::Mem(_, MemArgs::Mem2Args(m1, m2)) => (holds(state, m1, HeapValue::HeapBase) && bounded(
                state,
                m2,
            )) || (holds(state, m2, HeapValue::HeapBase) && bounded(state, m1)),
            Value::Mem(_, MemArgs::Mem3Args(m1, m2, m3)) => {
                let base1 = holds(state, m1, HeapValue::HeapBase);
                let base2 = holds(state, m2, HeapValue::HeapBase);
                let x = if base2 {
                    m1
                } else {
                    m2
                };
                let both_imm = match (x, m3) {
                    (MemArg::Imm(_, _, _), MemArg::Imm(_, _, _)) => true,
                    _ => false,
                };
                (base1 || base2) && !both_imm && bounded(state, x) && bounded(state, m3)
            },
            _ => false,
        }
    }

    fn check_global_access(&self, state: &HeapLattice, access: &Value) -> (r: bool)
        requires
            state.wf(),
        ensures
            r == spec_global_access(self.analyzer.metadata, state@, *access),
    {
        let md = &self.analyzer.metadata;
        match access {
            Value::Mem(sz, MemArgs::Mem1Arg(m)) => holds(state, m, HeapValue::GlobalsBase) && (
            md.compiler == Compiler::Lucet || ((sz.to_u32() / 8) as i64) <= md.globals_size),
            Value::Mem(sz, MemArgs::Mem2Args(m, MemArg::Imm(_, _, k))) => {
                holds(state, m, HeapValue::GlobalsBase) && match md.compiler {
                    Compiler::Lucet => *k <= 4096,
                    Compiler::Wamr => (*k as i128) + ((sz.to_u32() / 8) as i128) <= (
                    md.globals_size as i128),
                }
            },
            _ => false,
        }
    }

    fn lucet_check_metadata_access(&self, state: &HeapLattice, access: &Value) -> (r: bool)
        requires
            state.wf(),
        ensures
            r == spec_lucet_metadata_access(state@, *access),
    {
        match access {
            Value::Mem(_, MemArgs::Mem1Arg(m)) => holds(state, m, HeapValue::GlobalsBase),
            Value::Mem(_, MemArgs::Mem2Args(m, MemArg::Imm(_, _, 8))) => holds(
                state,
                m,
                HeapValue::LucetTables,
            ),
            Value::Mem(
                _,
                MemArgs::Mem2Args(
                    m1 @ MemArg::Reg(_, ValSize::Size64),
                    m2 @ MemArg::Reg(_, ValSize::Size64),
                ),
            ) => holds(state, m1, HeapValue::GuestTable0) || holds(state, m2, HeapValue::GuestTable0),
            Value::Mem(
                _,
                MemArgs::Mem3Args(
                    m1 @ MemArg::Reg(_, ValSize::Size64),
                    m2 @ MemArg::Reg(_, ValSize::Size64),
                    MemArg::Imm(_, _, 8),
                ),
            ) => holds(state, m1, HeapValue::GuestTable0) || holds(state, m2, HeapValue::GuestTable0),
            _ => false,
        }
    }

    fn wamr_check_metadata_access(&self, state: &HeapLattice, access: &Value) -> (r: bool)
        requires
            state.wf(),
        ensures
            r == spec_wamr_metadata_access(state@, *access),
    {
        match access {
            Value::Mem(_, MemArgs::Mem2Args(m, MemArg::Imm(_, _, k))) => {
                let k = *k;
                ((k == WAMR_MODULEINSTANCE_OFFSET || k == WAMR_GLOBALSBASE_OFFSET) && holds(
                    state,
                    m,
                    HeapValue::WamrExecEnv,
                )) || ((k == WAMR_HEAPBASE_OFFSET || k == WAMR_EXCEPTION_OFFSET || k
                    == WAMR_MEMBOUNDS_OFFSET || k == WAMR_FUNCTYPE_OFFSET || k
                    == WAMR_FUNCPTRS_OFFSET || k == WAMR_PAGECNT_OFFSET) && holds(
                    state,
                    m,
                    HeapValue::WamrModuleInstance,
                ))
            },
            _ => false,
        }
    }

    fn check_metadata_access(&self, state: &HeapLattice, access: &Value) -> (r: bool)
        requires
            state.wf(),
        ensures
            r == spec_metadata_access(self.analyzer.metadata, state@, *access),
    {
        match self.analyzer.metadata.compiler {
            Compiler::Lucet => self.lucet_check_metadata_access(state, access),
            Compiler::Wamr => self.wamr_check_metadata_access(state, access),
        }
    }

    fn check_jump_table_access(&self, state: &HeapLattice, access: &Value) -> (r: bool)
        requires
            state.wf(),
        ensures
            r == spec_jump_table_access(self.analyzer.metadata, state@, *access),
    {
        match self.analyzer.metadata.compiler {
            Compiler::Lucet => match access {
                Value::Mem(_, MemArgs::MemScale(_, _, MemArg::Imm(_, _, 4))) => true,
                _ => false,
            },
            Compiler::Wamr => match access {
                Value::Mem(_, MemArgs::Mem2Args(m, MemArg::Imm(_, _, k))) => holds(
                    state,
                    m,
                    HeapValue::WamrModuleInstance,
                ) && (*k >= WAMR_FUNCINDS_OFFSET || *k == WAMR_FUNCINDS_OFFSET - 4),
                Value::Mem(
                    _,
                    MemArgs::MemScaleDisp(
                        m,
                        MemArg::Reg(_, _),
                        MemArg::Imm(_, _, 4),
                        MemArg::Imm(_, _, d),
                    ),
                ) => holds(state, m, HeapValue::WamrModuleInstance) && *d >= 0x1a8,
                Value::Mem(
                    _,
                    MemArgs::MemScale(m, MemArg::Reg(_, ValSize::Size64), MemArg::Imm(_, _, 4)),
                ) => holds(state, m, HeapValue::WamrFuncTypeTable),
                Value::Mem(
                    _,
                    MemArgs::MemScale(m, MemArg::Reg(_, ValSize::Size64), MemArg::Imm(_, _, 8)),
                ) => holds(state, m, HeapValue::WamrFuncPtrsTable),
                _ => false,
            },
        }
    }

    /// Whether one memory access falls in a recognised class.
    pub fn check_mem_access(&self, state: &HeapLattice, access: &Value) -> (r: bool)
        requires
            state.wf(),
        ensures
            r == spec_mem_access_ok(self.analyzer.metadata, state@, *access),
    {
        value_is_stack_access(access) || self.check_heap_access(state, access)
            || self.check_metadata_access(state, access) || self.check_global_access(state, access)
            || self.check_jump_table_access(state, access)
    }

    fn check_operand(&self, state: &HeapLattice, v: &Value) -> (r: bool)
        requires
            state.wf(),
        ensures
            r == operand_ok(self.analyzer.metadata, state@, *v),
    {
        match v {
            Value::Mem(_, _) => self.check_mem_access(state, v),
            _ => true,
        }
    }

    fn is_func(&self, a: u64) -> (r: bool)
        ensures
            r == is_func_addr(self.func_addrs@, a),
    {
        let mut i: usize = 0;
        while i < self.func_addrs.len()
            invariant
                i <= self.func_addrs.len(),
                forall|j: int| 0 <= j < i ==> self.func_addrs@[j].0 != a,
            decreases self.func_addrs.len() - i,
        {
            if self.func_addrs[i].0 == a {
                return true;
            }
            i = i + 1;
        }
        false
    }
}

impl<'a> Checker<HeapLattice> for HeapChecker<'a> {
    open spec fn spec_check(&self, s: HeapView, stmt: Stmt, loc: LocIdx) -> bool {
        spec_heap_check(self.analyzer.metadata, self.func_addrs@, s, stmt)
    }

    fn check_statement(&self, state: &HeapLattice, stmt: &Stmt, loc: &LocIdx) -> (r: bool) {
        match stmt {
            Stmt::Call(target) => {
                let rdi = state.regs.get(&7, &ValSize::Size64);
                match self.analyzer.metadata.compiler {
                    Compiler::Lucet => rdi.v == Some(HeapValue::HeapBase),
                    Compiler::Wamr => {
                        if rdi.v == Some(HeapValue::WamrExecEnv) {
                            true
                        } else {
                            match target {
                                Value::Imm(_, _, t) => !self.is_func(#[verifier::truncate] (*t as u64)),
                                _ => false,
                            }
                        }
                    },
                }
            },
            Stmt::Unop(_, dst, src) => self.check_operand(state, dst) && self.check_operand(state, src),
            Stmt::Binop(_, dst, src1, src2) => self.check_operand(state, dst) && self.check_operand(
                state,
                src1,
            ) && self.check_operand(state, src2),
            Stmt::Clear(dst, srcs) => {
                if !self.check_operand(state, dst) {
                    return false;
                }
                let mut i: usize = 0;
                while i < srcs.len()
                    invariant
                        state.wf(),
                        *stmt == Stmt::Clear(*dst, *srcs),
                        operand_ok(self.analyzer.metadata, state@, *dst),
                        i <= srcs.len(),
                        forall|j: int|
                            0 <= j < i ==> operand_ok(self.analyzer.metadata, state@, #[trigger] srcs@[j]),
                    decreases srcs.len() - i,
                {
                    if !self.check_operand(state, &srcs[i]) {
                        assert(!operand_ok(self.analyzer.metadata, state@, srcs@[i as int]));
                        assert(!operands_ok(self.analyzer.metadata, state@, srcs@));
                        return false;
                    }
                    i = i + 1;
                }
                assert(operands_ok(self.analyzer.metadata, state@, srcs@));
                true
            },
            _ => true,
        }
    }
}

/// Check heap safety of a function from the heap analysis's fixed point.
pub fn check_heap(
    result: &AnalysisResult<HeapLattice>,
    irmap: &IRMap,
    analyzer: &HeapAnalyzer,
    func_addrs: &Vec<(u64, String)>,
) -> (r: bool)
    requires
        result.wf(),
    ensures
        r == result_passes(
            HeapChecker { analyzer, func_addrs },
            *analyzer,
            result.states@,
            result.order@,
            irmap@,
        ),
{
    let c = HeapChecker { analyzer, func_addrs };
    check_state_at_statements(&c, analyzer, result, irmap)
}

/// A load or store at `[b + i]` with the heap base in `b` and a bounded
/// offset in `i` (either order) is a heap access.
pub proof fn lemma_heap_base_plus_bounded(s: HeapView, sz: ValSize, b: u8, i: u8)
    requires
        reg64(s, b) == Some(HeapValue::HeapBase),
        regv(s, i, ValSize::Size64) == Some(HeapValue::Bounded4GB),
    ensures
        spec_heap_access(
            s,
            Value::Mem(sz, MemArgs::Mem2Args(MemArg::Reg(b, ValSize::Size64), MemArg::Reg(i, ValSize::Size64))),
        ),
        spec_heap_access(
            s,
            Value::Mem(sz, MemArgs::Mem2Args(MemArg::Reg(i, ValSize::Size64), MemArg::Reg(b, ValSize::Size64))),
        ),
{
}

} // verus!
