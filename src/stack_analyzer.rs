//! Stack analysis: the displacement of `%rsp` from entry, the probed
//! region below the frame, and the callee-saved registers pushed (WAMR).
use crate::analysis::{edge_states, run_block, run_stmts, transfer_monotone, AbstractAnalyzer, IRMap};
use crate::ir::{
    imm_payload, is_callee_saved_num, is_callee_saved_reg, is_rsp, memarg_is_stack, value_is_callee_saved_reg, value_is_rsp, value_writes_rsp, writes_rsp,
    Binopcode, IRBlock, IRInstr, MemArg, MemArgs, Stmt, ValSize, Value,
};
use crate::lattice::{ConstLattice, Lattice, LocIdx};
use crate::metadata::{Compiler, CompilerMetadata};
use crate::stack::fits_i64;
use crate::stackgrowth::{sg_init, StackGrowthLattice, StackGrowthView};
use std::collections::HashMap;
use vstd::prelude::*;

verus! {

broadcast use vstd::std_specs::hash::group_hash_axioms;

pub struct StackAnalyzer {
    pub metadata: CompilerMetadata,
}

/// Any write to `%rsp` (at any width) other than adding or subtracting an
/// immediate to the full register resets the state to the entry state.
pub open spec fn sg_cleared(s: StackGrowthView) -> StackGrowthView {
    match s {
        Some(_) => sg_init(),
        None => None,
    }
}

/// `rsp <- rsp op src2`. The second component tells whether the statement
/// is fatal: a non-immediate operand, an operation other than add or
/// subtract, a subtraction that skips past the page below the probed
/// region (probestack violation), or an overflow.
pub open spec fn rsp_arith(s: StackGrowthView, op: Binopcode, src2: Value) -> (StackGrowthView, bool) {
    match s {
        None => (None, false),
        Some((x, p, saved)) => {
            let k = imm_payload(src2) as int;
            if !(src2 is Imm) {
                (None, true)
            } else if op == Binopcode::Add {
                if fits_i64(x + k) {
                    (Some(((x + k) as i64, p, saved)), false)
                } else {
                    (None, true)
                }
            } else if op == Binopcode::Sub {
                if k - x > p + 4096 {
                    (None, true)
                } else if k - x > p {
                    if fits_i64(x - k) && fits_i64(p + 4096) {
                        (Some(((x - k) as i64, (p + 4096) as i64, saved)), false)
                    } else {
                        (None, true)
                    }
                } else if fits_i64(x - k) {
                    (Some(((x - k) as i64, p, saved)), false)
                } else {
                    (None, true)
                }
            } else {
                (None, true)
            }
        },
    }
}

/// A probestack call of `n` bytes: `%rsp` moves down by `n` and the pages
/// it covers count as probed.
pub open spec fn probe(s: StackGrowthView, n: u64) -> (StackGrowthView, bool) {
    match s {
        None => (None, false),
        Some((x, p, saved)) => {
            let probed = ((n / 4096) + 1) * 4096;
            if fits_i64(x - n) && fits_i64(probed) {
                (Some(((x - n) as i64, probed as i64, saved)), false)
            } else {
                (None, true)
            }
        },
    }
}

/// A move of a callee-saved register into `[rsp]`.
pub open spec fn is_push(dst: Value, src: Value) -> bool {
    is_callee_saved_reg(src) && match dst {
        Value::Mem(_, MemArgs::Mem1Arg(m)) => memarg_is_stack(m),
        _ => false,
    }
}

/// A move from `[rsp]` into a callee-saved register.
pub open spec fn is_pop(dst: Value, src: Value) -> bool {
    is_callee_saved_reg(dst) && match src {
        Value::Mem(_, MemArgs::Mem1Arg(m)) => memarg_is_stack(m),
        _ => false,
    }
}

/// Record a push of register `reg`: it must be a 64-bit register, pushed
/// inside the frame, not already pushed, in a known state.
pub open spec fn push_reg(s: StackGrowthView, reg: Value) -> (StackGrowthView, bool) {
    match (s, reg) {
        (Some((g, p, saved)), Value::Reg(r, ValSize::Size64)) => if g > 0 || saved.contains_key(r) {
            (None, true)
        } else {
            (Some((g, p, saved.insert(r, g))), false)
        },
        _ => (None, true),
    }
}

/// Record a pop into register `reg`: it must have been pushed at the
/// current growth.
pub open spec fn pop_reg(s: StackGrowthView, reg: Value) -> (StackGrowthView, bool) {
    match (s, reg) {
        (Some((g, p, saved)), Value::Reg(r, ValSize::Size64)) => if !saved.contains_key(r)
            || saved[r] != g {
            (None, true)
        } else {
            (Some((g, p, saved.remove(r))), false)
        },
        _ => (None, true),
    }
}

pub open spec fn wamr_unop(s: StackGrowthView, dst: Value, src: Value) -> (StackGrowthView, bool) {
    let s0 = if writes_rsp(dst) {
        sg_cleared(s)
    } else {
        s
    };
    if is_push(dst, src) {
        push_reg(s0, src)
    } else if is_pop(dst, src) {
        pop_reg(s0, dst)
    } else {
        (s0, false)
    }
}

/// One statement of the stack analysis: the next state, and whether the
/// statement is fatal (the next state is then unknown).
pub open spec fn spec_stack_step(md: CompilerMetadata, s: StackGrowthView, stmt: Stmt) -> (
    StackGrowthView,
    bool,
) {
    match stmt {
        Stmt::Clear(dst, _) => (if writes_rsp(dst) {
            sg_cleared(s)
        } else {
            s
        }, false),
        Stmt::Unop(_, dst, src) => if md.compiler == Compiler::Wamr {
            wamr_unop(s, dst, src)
        } else {
            (if writes_rsp(dst) {
                sg_cleared(s)
            } else {
                s
            }, false)
        },
        Stmt::Binop(op, dst, src1, src2) => if op == Binopcode::Cmp || op == Binopcode::Test
            || !writes_rsp(dst) {
            (s, false)
        } else if is_rsp(dst) && is_rsp(src1) {
            rsp_arith(s, op, src2)
        } else {
            (sg_cleared(s), false)
        },
        Stmt::ProbeStack(n) => probe(s, n),
        _ => (s, false),
    }
}

impl StackAnalyzer {
    fn rsp_arith(&self, s: &mut StackGrowthLattice, op: &Binopcode, src2: &Value) -> (fatal: bool)
        ensures
            (final(s)@, fatal) == rsp_arith(old(s)@, *op, *src2),
    {
        let cur = s.v.take();
        match cur {
            None => false,
            Some((x, p, saved)) => {
                let k: i64 = match src2 {
                    Value::Imm(_, _, k) => *k,
                    _ => {
                        return true;
                    },
                };
                let x128 = x as i128;
                let p128 = p as i128;
                let k128 = k as i128;
                let lo = i64::MIN as i128;
                let hi = i64::MAX as i128;
                match op {
                    Binopcode::Add => {
                        if x128 + k128 < lo || x128 + k128 > hi {
                            return true;
                        }
                        s.v = Some(((x128 + k128) as i64, p, saved));
                        false
                    },
                    Binopcode::Sub => {
                        if k128 - x128 > p128 + 4096 {
                            return true;
                        }
                        if x128 - k128 < lo || x128 - k128 > hi {
                            return true;
                        }
                        if k128 - x128 > p128 {
                            if p128 + 4096 > hi {
                                return true;
                            }
                            s.v = Some(((x128 - k128) as i64, (p128 + 4096) as i64, saved));
                        } else {
                            s.v = Some(((x128 - k128) as i64, p, saved));
                        }
                        false
                    },
                    _ => true,
                }
            },
        }
    }

    fn probe(&self, s: &mut StackGrowthLattice, n: u64) -> (fatal: bool)
        ensures
            (final(s)@, fatal) == probe(old(s)@, n),
    {
        let cur = s.v.take();
        match cur {
            None => false,
            Some((x, _p, saved)) => {
                let probed: i128 = ((n / 4096) as i128 + 1) * 4096;
                let nx: i128 = x as i128 - n as i128;
                if nx < i64::MIN as i128 || nx > i64::MAX as i128 || probed > i64::MAX as i128 {
                    return true;
                }
                s.v = Some((nx as i64, probed as i64, saved));
                false
            },
        }
    }

    fn push_reg(&self, s: &mut StackGrowthLattice, reg: &Value) -> (fatal: bool)
        ensures
            (final(s)@, fatal) == push_reg(old(s)@, *reg),
    {
        let cur = s.v.take();
        match (cur, reg) {
            (Some((g, p, mut saved)), Value::Reg(r, ValSize::Size64)) => {
                if g > 0 || saved.contains_key(r) {
                    return true;
                }
                saved.insert(*r, g);
                s.v = Some((g, p, saved));
                false
            },
            _ => true,
        }
    }

    fn pop_reg(&self, s: &mut StackGrowthLattice, reg: &Value) -> (fatal: bool)
        ensures
            (final(s)@, fatal) == pop_reg(old(s)@, *reg),
    {
        let cur = s.v.take();
        match (cur, reg) {
            (Some((g, p, mut saved)), Value::Reg(r, ValSize::Size64)) => {
                match saved.get(r) {
                    Some(o) => {
                        if *o != g {
                            return true;
                        }
                    },
                    None => {
                        return true;
                    },
                }
                saved.remove(r);
                s.v = Some((g, p, saved));
                false
            },
            _ => true,
        }
    }

    fn wamr_handle_unop(&self, s: &mut StackGrowthLattice, dst: &Value, src: &Value) -> (fatal: bool)
        ensures
            (final(s)@, fatal) == wamr_unop(old(s)@, *dst, *src),
    {
        if value_writes_rsp(dst) {
            s.clear();
        }
        let push = value_is_callee_saved_reg(src) && match dst {
            Value::Mem(_, MemArgs::Mem1Arg(MemArg::Reg(4, _))) => true,
            _ => false,
        };
        let pop = value_is_callee_saved_reg(dst) && match src {
            Value::Mem(_, MemArgs::Mem1Arg(MemArg::Reg(4, _))) => true,
            _ => false,
        };
        if push {
            self.push_reg(s, src)
        } else if pop {
            self.pop_reg(s, dst)
        } else {
            false
        }
    }

    /// Run one statement; returns whether it is fatal.
    pub fn step(&self, s: &mut StackGrowthLattice, stmt: &Stmt) -> (fatal: bool)
        ensures
            (final(s)@, fatal) == spec_stack_step(self.metadata, old(s)@, *stmt),
    {
        match stmt {
            Stmt::Clear(dst, _) => {
                if value_writes_rsp(dst) {
                    s.clear();
                }
                false
            },
            Stmt::Unop(_, dst, src) => {
                match self.metadata.compiler {
                    Compiler::Wamr => self.wamr_handle_unop(s, dst, src),
                    Compiler::Lucet => {
                        if value_writes_rsp(dst) {
                            s.clear();
                        }
                        false
                    },
                }
            },
            Stmt::Binop(op, dst, src1, src2) => {
                match op {
                    Binopcode::Cmp | Binopcode::Test => false,
                    _ => {
                        if !value_writes_rsp(dst) {
                            false
                        } else if value_is_rsp(dst) && value_is_rsp(src1) {
                            self.rsp_arith(s, op, src2)
                        } else {
                            s.clear();
                            false
                        }
                    },
                }
            },
            Stmt::ProbeStack(n) => self.probe(s, *n),
            _ => false,
        }
    }
}

impl AbstractAnalyzer<StackGrowthLattice> for StackAnalyzer {
    open spec fn spec_init(&self) -> StackGrowthView {
        sg_init()
    }

    open spec fn spec_aexec(&self, s: StackGrowthView, stmt: Stmt, loc: LocIdx) -> StackGrowthView {
        spec_stack_step(self.metadata, s, stmt).0
    }

    open spec fn spec_branch(
        &self,
        irmap: Map<u64, IRBlock>,
        out: StackGrowthView,
        succs: Seq<u64>,
        addr: u64,
    ) -> Seq<(u64, StackGrowthView)> {
        Seq::new(succs.len(), |j: int| (succs[j], out))
    }

    fn init_state(&self) -> (r: StackGrowthLattice) {
        ConstLattice::new((0, 4096, HashMap::new()))
    }

    fn aexec(&self, s: &mut StackGrowthLattice, stmt: &Stmt, loc: &LocIdx) {
        let _ = self.step(s, stmt);
    }

    fn process_branch(
        &self,
        irmap: &IRMap,
        s: &StackGrowthLattice,
        succs: &Vec<u64>,
        addr: &u64,
    ) -> (r: Vec<(u64, StackGrowthLattice)>) {
        let mut r: Vec<(u64, StackGrowthLattice)> = Vec::new();
        let mut j: usize = 0;
        while j < succs.len()
            invariant
                j <= succs.len(),
                r.len() == j,
                forall|q: int|
                    0 <= q < j ==> (#[trigger] r[q]).1.wf() && r[q].0 == succs[q] && r[q].1@ == s@,
            decreases succs.len() - j,
        {
            r.push((succs[j], s.duplicate()));
            j = j + 1;
        }
        r
    }
}

/// The stack transfer is monotone: on states `s ⊑ t` it yields states
/// related the same way.
pub proof fn lemma_stack_monotone(md: CompilerMetadata, s: StackGrowthView, t: StackGrowthView, stmt: Stmt)
    requires
        StackGrowthLattice::le_v(s, t),
    ensures
        StackGrowthLattice::le_v(spec_stack_step(md, s, stmt).0, spec_stack_step(md, t, stmt).0),
{
}

/// A push of callee-saved register `r` inside the frame, followed by a pop
/// into `r` at the same growth, leaves the saved registers as they were;
/// a pop at any other growth is fatal.
pub proof fn lemma_push_pop_round_trip(g: i64, p: i64, saved: Map<u8, i64>, r: u8, g2: i64)
    requires
        g <= 0,
        !saved.contains_key(r),
    ensures
        push_reg(Some((g, p, saved)), Value::Reg(r, ValSize::Size64)) == (
            Some((g, p, saved.insert(r, g))),
            false,
        ),
        pop_reg(Some((g, p, saved.insert(r, g))), Value::Reg(r, ValSize::Size64)) == (
            Some((g, p, saved)),
            false,
        ),
        g2 != g ==> pop_reg(Some((g2, p, saved.insert(r, g))), Value::Reg(r, ValSize::Size64)).1,
{
    assert(saved.insert(r, g).remove(r) =~= saved);
}

proof fn lemma_stmts_keep_unknown(a: StackAnalyzer, stmts: Seq<Stmt>, addr: u64)
    ensures
        run_stmts(a, None, stmts, addr) == None::<(i64, i64, Map<u8, i64>)>,
    decreases stmts.len(),
{
    if stmts.len() > 0 {
        lemma_stmts_keep_unknown(a, stmts.drop_last(), addr);
    }
}

proof fn lemma_block_keeps_unknown(a: StackAnalyzer, instrs: Seq<IRInstr>)
    ensures
        run_block(a, None, instrs) == None::<(i64, i64, Map<u8, i64>)>,
    decreases instrs.len(),
{
    if instrs.len() > 0 {
        lemma_block_keeps_unknown(a, instrs.drop_last());
        lemma_stmts_keep_unknown(a, instrs.last().stmts@, instrs.last().addr);
    }
}

/// The stack analysis is monotone on every function, so its worklist result
/// lies above every other fixed point.
pub proof fn lemma_stack_transfer_monotone(
    md: CompilerMetadata,
    irmap: Map<u64, IRBlock>,
    succs: Map<u64, Vec<u64>>,
)
    ensures
        transfer_monotone(StackAnalyzer { metadata: md }, irmap, succs),
{
    let a = StackAnalyzer { metadata: md };
    assert forall|b: u64, s: StackGrowthView, t: StackGrowthView|
        #![trigger edge_states(a, irmap, succs, b, s), edge_states(a, irmap, succs, b, t)]
        irmap.contains_key(b) && StackGrowthLattice::valid_v(s) && StackGrowthLattice::valid_v(t)
            && StackGrowthLattice::le_v(s, t) implies {
            let es = edge_states(a, irmap, succs, b, s);
            let et = edge_states(a, irmap, succs, b, t);
            &&& es.len() == et.len()
            &&& forall|j: int|
                0 <= j < es.len() ==> #[trigger] es[j].0 == et[j].0 && StackGrowthLattice::le_v(
                    es[j].1,
                    et[j].1,
                ) && StackGrowthLattice::valid_v(es[j].1)
        } by {
        if s is None {
            lemma_block_keeps_unknown(a, irmap[b]@);
        }
    }
}

/// Push then pop as statements: `mov [rsp], r` records callee-saved `r` at
/// the current growth, `mov r, [rsp]` at the same growth restores the saved
/// registers exactly; a pop of a register not saved at the current growth
/// is fatal.
pub proof fn lemma_wamr_push_pop_statements(g: i64, p: i64, saved: Map<u8, i64>, r: u8, g2: i64)
    requires
        g <= 0,
        is_callee_saved_num(r),
        !saved.contains_key(r),
    ensures
        wamr_unop(Some((g, p, saved)), at_rsp(), Value::Reg(r, ValSize::Size64)) == (
            Some((g, p, saved.insert(r, g))),
            false,
        ),
        wamr_unop(Some((g, p, saved.insert(r, g))), Value::Reg(r, ValSize::Size64), at_rsp()) == (
            Some((g, p, saved)),
            false,
        ),
        g2 != g ==> wamr_unop(
            Some((g2, p, saved.insert(r, g))),
            Value::Reg(r, ValSize::Size64),
            at_rsp(),
        ).1,
        wamr_unop(Some((g, p, saved)), Value::Reg(r, ValSize::Size64), at_rsp()).1,
{
    lemma_push_pop_round_trip(g, p, saved, r, g2);
}

/// `[rsp]`, 64 bits wide.
pub open spec fn at_rsp() -> Value {
    Value::Mem(ValSize::Size64, MemArgs::Mem1Arg(MemArg::Reg(4, ValSize::Size64)))
}

} // verus!
