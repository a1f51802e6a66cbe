//! Stack checker: the frame never grows above entry, every stack access
//! stays within the probed (Lucet) or guarded (WAMR) region, callee-saved
//! registers are spilled before being overwritten and restored where they
//! were pushed (WAMR), and `%rsp` is back at entry at every return.
use crate::analysis::{AnalysisResult, IRMap};
use crate::checker::{check_state_at_statements, result_passes, Checker};
use crate::ir::{
    is_callee_saved_reg, is_stack_access, stack_access_disp, stack_disp, value_is_callee_saved_reg,
    value_is_stack_access, Stmt, Value,
};
use crate::lattice::{Lattice, LocIdx};
use crate::metadata::{Compiler, CompilerMetadata};
use crate::stack_analyzer::{spec_stack_step, StackAnalyzer};
use crate::stackgrowth::{
    StackGrowthLattice, StackGrowthView, WAMR_STACK_LOWER_BOUND, WAMR_STACK_UPPER_BOUND,
};
use std::collections::HashMap;
use vstd::prelude::*;

verus! {

broadcast use vstd::std_specs::hash::group_hash_axioms;

pub struct StackChecker<'a> {
    pub analyzer: &'a StackAnalyzer,
}

/// Some callee-saved register was pushed at offset `offset`.
pub open spec fn clobbers(saved: Map<u8, i64>, offset: int) -> bool {
    exists|r: u8| saved.contains_key(r) && saved[r] == offset
}

/// Whether a stack write at `offset` would overwrite a pushed
/// callee-saved register.
pub fn write_clobbers_callee_saved_reg(offset: i64, saved: &HashMap<u8, i64>) -> (r: bool)
    ensures
        r == clobbers(saved@, offset as int),
{
    let mut k: u16 = 0;
    while k < 256
        invariant
            k <= 256,
            forall|j: u8| (j as int) < k ==> !(#[trigger] saved@.contains_key(j) && saved@[j] == offset),
        decreases 256 - k,
    {
        let key = k as u8;
        match saved.get(&key) {
            Some(o) => {
                if *o == offset {
                    return true;
                }
            },
            None => {},
        }
        k = k + 1;
    }
    false
}

/// A callee-saved register may be overwritten only once it is spilled.
pub open spec fn callee_saved_safe(dst: Value, s: StackGrowthView) -> bool {
    is_callee_saved_reg(dst) ==> match (dst, s) {
        (Value::Reg(r, _), Some((_, _, saved))) => saved.contains_key(r),
        _ => false,
    }
}

/// Offset from entry of a stack access, in a defined state.
pub open spec fn access_offset(s: StackGrowthView, v: Value) -> int {
    s.unwrap().0 + stack_disp(v)
}

pub open spec fn stack_read_ok(md: CompilerMetadata, s: StackGrowthView, src: Value) -> bool {
    let o = access_offset(s, src);
    match md.compiler {
        Compiler::Lucet => -s.unwrap().1 < o < 8096,
        Compiler::Wamr => WAMR_STACK_LOWER_BOUND < o < WAMR_STACK_UPPER_BOUND,
    }
}

pub open spec fn stack_write_ok(md: CompilerMetadata, s: StackGrowthView, dst: Value) -> bool {
    let o = access_offset(s, dst);
    match md.compiler {
        Compiler::Lucet => -s.unwrap().1 < o < 0,
        Compiler::Wamr => !clobbers(s.unwrap().2, o) && WAMR_STACK_LOWER_BOUND < o < 0,
    }
}

/// The stack predicate for one statement.
pub open spec fn spec_stack_check(md: CompilerMetadata, s: StackGrowthView, stmt: Stmt) -> bool {
    &&& s is Some
    &&& s.unwrap().0 <= 0
    &&& !spec_stack_step(md, s, stmt).1
    &&& match stmt {
        Stmt::Unop(_, dst, src) => (md.compiler == Compiler::Wamr ==> callee_saved_safe(dst, s)) && if is_stack_access(dst) {
            stack_write_ok(md, s, dst)
        } else if is_stack_access(src) {
            stack_read_ok(md, s, src)
        } else {
            true
        },
        Stmt::Binop(_, dst, _, _) => md.compiler == Compiler::Wamr ==> callee_saved_safe(dst, s),
        Stmt::Ret => s.unwrap().0 == 0 && (md.compiler == Compiler::Wamr ==> s.unwrap().2.is_empty()),
        _ => true,
    }
}

fn is_callee_saved_reg_safe(dst: &Value, state: &StackGrowthLattice) -> (r: bool)
    ensures
        r == callee_saved_safe(*dst, state@),
{
    if value_is_callee_saved_reg(dst) {
        match (dst, &state.v) {
            (Value::Reg(r, _), Some((_, _, saved))) => saved.contains_key(r),
            _ => false,
        }
    } else {
        true
    }
}

impl<'a> StackChecker<'a> {
    fn check_stack_read(&self, state: &StackGrowthLattice, src: &Value) -> (r: bool)
        requires
            state@ is Some,
        ensures
            r == stack_read_ok(self.analyzer.metadata, state@, *src),
    {
        let (g, p) = match &state.v {
            Some((g, p, _)) => (*g, *p),
            None => (0, 0),
        };
        let o: i128 = g as i128 + stack_access_disp(src) as i128;
        match self.analyzer.metadata.compiler {
            Compiler::Lucet => -(p as i128) < o && o < 8096,
            Compiler::Wamr => (WAMR_STACK_LOWER_BOUND as i128) < o && o < (
            WAMR_STACK_UPPER_BOUND as i128),
        }
    }

    fn check_stack_write(&self, state: &StackGrowthLattice, dst: &Value) -> (r: bool)
        requires
            state@ is Some,
        ensures
            r == stack_write_ok(self.analyzer.metadata, state@, *dst),
    {
        match &state.v {
            Some((g, p, saved)) => {
                let o: i128 = *g as i128 + stack_access_disp(dst) as i128;
                match self.analyzer.metadata.compiler {
                    Compiler::Lucet => {
                        assert(access_offset(state@, *dst) == o);
                        -(*p as i128) < o && o < 0
                    },
                    Compiler::Wamr => {
                        if o <= (WAMR_STACK_LOWER_BOUND as i128) || o >= 0 {
                            return false;
                        }
                        assert((o as i64) as int == o);
                        assert(access_offset(state@, *dst) == o);
                        !write_clobbers_callee_saved_reg(o as i64, saved)
                    },
                }
            },
            None => false,
        }
    }
}

impl<'a> Checker<StackGrowthLattice> for StackChecker<'a> {
    open spec fn spec_check(&self, s: StackGrowthView, stmt: Stmt, loc: LocIdx) -> bool {
        spec_stack_check(self.analyzer.metadata, s, stmt)
    }

    fn check_statement(&self, state: &StackGrowthLattice, stmt: &Stmt, loc: &LocIdx) -> (r: bool) {
        let wamr = self.analyzer.metadata.compiler == Compiler::Wamr;
        match &state.v {
            None => {
                return false;
            },
            Some((g, _, _)) => {
                if *g > 0 {
                    return false;
                }
            },
        }
        let mut next = state.duplicate();
        if self.analyzer.step(&mut next, stmt) {
            return false;
        }
        match stmt {
            Stmt::Unop(_, dst, src) => {
                if wamr && !is_callee_saved_reg_safe(dst, state) {
                    return false;
                }
                if value_is_stack_access(dst) {
                    self.check_stack_write(state, dst)
                } else if value_is_stack_access(src) {
                    self.check_stack_read(state, src)
                } else {
                    true
                }
            },
            Stmt::Binop(_, dst, _, _) => !wamr || is_callee_saved_reg_safe(dst, state),
            Stmt::Ret => match &state.v {
                Some((g, _, saved)) => *g == 0 && (!wamr || saved.is_empty()),
                None => false,
            },
            _ => true,
        }
    }
}

/// Check stack safety of a function from the stack analysis's fixed point.
pub fn check_stack(
    result: &AnalysisResult<StackGrowthLattice>,
    irmap: &IRMap,
    analyzer: &StackAnalyzer,
) -> (r: bool)
    requires
        result.wf(),
    ensures
        r == result_passes(
            StackChecker { analyzer },
            *analyzer,
            result.states@,
            result.order@,
            irmap@,
        ),
{
    let c = StackChecker { analyzer };
    check_state_at_statements(&c, analyzer, result, irmap)
}

/// Stack balance: wherever the stack checker accepts a return, `%rsp` is
/// back at its entry value and (WAMR) every pushed callee-saved register has
/// been popped.
pub proof fn lemma_ret_balanced(md: CompilerMetadata, s: StackGrowthView)
    requires
        spec_stack_check(md, s, Stmt::Ret),
    ensures
        s matches Some((g, _, saved)) && g == 0 && (md.compiler == Compiler::Wamr ==> saved
            =~= Map::empty()),
{
    if md.compiler == Compiler::Wamr {
        let saved = s.unwrap().2;
        assert(saved.dom() =~= Set::empty());
    }
}

} // verus!
