//! Checkers: re-run an analysis over every statement of every block reached
//! and evaluate a safety predicate on the state before each statement.
use crate::analysis::{run_block, run_stmts, AbstractAnalyzer, AnalysisResult, IRMap};
use crate::ir::{IRBlock, IRInstr, Stmt};
use crate::lattice::{Lattice, LocIdx};
use vstd::prelude::*;

verus! {

broadcast use vstd::std_specs::hash::group_hash_axioms;

pub trait Checker<S: Lattice> {
    /// The safety predicate for `stmt` at `loc`, in state `s`.
    spec fn spec_check(&self, s: S::V, stmt: Stmt, loc: LocIdx) -> bool;

    fn check_statement(&self, state: &S, stmt: &Stmt, loc: &LocIdx) -> (r: bool)
        requires
            state.wf(),
        ensures
            r == self.spec_check(state@, *stmt, *loc),
    ;
}

/// Every statement of one instruction passes, each in the state that the
/// statements before it lead to.
pub open spec fn stmts_pass<S: Lattice, A: AbstractAnalyzer<S>, C: Checker<S>>(
    c: C,
    a: A,
    s: S::V,
    stmts: Seq<Stmt>,
    addr: u64,
) -> bool
    decreases stmts.len(),
{
    if stmts.len() == 0 {
        true
    } else {
        stmts_pass(c, a, s, stmts.drop_last(), addr) && c.spec_check(
            run_stmts(a, s, stmts.drop_last(), addr),
            stmts.last(),
            LocIdx { addr, idx: (stmts.len() - 1) as u32 },
        )
    }
}

/// Every statement of a block entered in state `s` passes.
pub open spec fn block_pass<S: Lattice, A: AbstractAnalyzer<S>, C: Checker<S>>(
    c: C,
    a: A,
    s: S::V,
    instrs: Seq<IRInstr>,
) -> bool
    decreases instrs.len(),
{
    if instrs.len() == 0 {
        true
    } else {
        block_pass(c, a, s, instrs.drop_last()) && stmts_pass(
            c,
            a,
            run_block(a, s, instrs.drop_last()),
            instrs.last().stmts@,
            instrs.last().addr,
        )
    }
}

/// Every block that the analysis reached has code, and all of it passes.
pub open spec fn result_passes<S: Lattice, A: AbstractAnalyzer<S>, C: Checker<S>>(
    c: C,
    a: A,
    states: Map<u64, S>,
    order: Seq<u64>,
    irmap: Map<u64, IRBlock>,
) -> bool {
    forall|i: int|
        0 <= i < order.len() ==> irmap.contains_key(#[trigger] order[i]) && block_pass(
            c,
            a,
            states[order[i]]@,
            irmap[order[i]]@,
        )
}

proof fn lemma_stmts_pass_prefix<S: Lattice, A: AbstractAnalyzer<S>, C: Checker<S>>(
    c: C,
    a: A,
    s: S::V,
    stmts: Seq<Stmt>,
    addr: u64,
    n: int,
)
    requires
        0 <= n <= stmts.len(),
        stmts_pass(c, a, s, stmts, addr),
    ensures
        stmts_pass(c, a, s, stmts.take(n), addr),
    decreases stmts.len(),
{
    if n < stmts.len() {
        assert(stmts.drop_last().take(n) =~= stmts.take(n));
        lemma_stmts_pass_prefix(c, a, s, stmts.drop_last(), addr, n);
    } else {
        assert(stmts.take(n) =~= stmts);
    }
}

proof fn lemma_block_pass_prefix<S: Lattice, A: AbstractAnalyzer<S>, C: Checker<S>>(
    c: C,
    a: A,
    s: S::V,
    instrs: Seq<IRInstr>,
    n: int,
)
    requires
        0 <= n <= instrs.len(),
        block_pass(c, a, s, instrs),
    ensures
        block_pass(c, a, s, instrs.take(n)),
    decreases instrs.len(),
{
    if n < instrs.len() {
        assert(instrs.drop_last().take(n) =~= instrs.take(n));
        lemma_block_pass_prefix(c, a, s, instrs.drop_last(), n);
    } else {
        assert(instrs.take(n) =~= instrs);
    }
}

/// Check the statements of one instruction, advancing `s` past them.
fn check_stmts<S: Lattice, A: AbstractAnalyzer<S>, C: Checker<S>>(
    c: &C,
    a: &A,
    s: &mut S,
    stmts: &Vec<Stmt>,
    addr: u64,
) -> (r: bool)
    requires
        old(s).wf(),
    ensures
        final(s).wf(),
        r == stmts_pass(*c, *a, old(s)@, stmts@, addr),
        r ==> final(s)@ == run_stmts(*a, old(s)@, stmts@, addr),
{
    let mut i: usize = 0;
    while i < stmts.len()
        invariant
            i <= stmts.len(),
            s.wf(),
            s@ == run_stmts(*a, old(s)@, stmts@.take(i as int), addr),
            stmts_pass(*c, *a, old(s)@, stmts@.take(i as int), addr),
        decreases stmts.len() - i,
    {
        assert(stmts@.take(i + 1).drop_last() =~= stmts@.take(i as int));
        let loc = LocIdx { addr, idx: #[verifier::truncate] (i as u32) };
        if !c.check_statement(s, &stmts[i], &loc) {
            proof {
                if stmts_pass(*c, *a, old(s)@, stmts@, addr) {
                    lemma_stmts_pass_prefix(*c, *a, old(s)@, stmts@, addr, i + 1);
                }
            }
            return false;
        }
        a.aexec(s, &stmts[i], &loc);
        i = i + 1;
    }
    assert(stmts@.take(i as int) =~= stmts@);
    true
}

/// Check every statement of a block entered in `state`.
pub fn check_block<S: Lattice, A: AbstractAnalyzer<S>, C: Checker<S>>(
    c: &C,
    a: &A,
    state: &S,
    block: &IRBlock,
) -> (r: bool)
    requires
        state.wf(),
    ensures
        r == block_pass(*c, *a, state@, block@),
{
    let mut s = state.duplicate();
    let mut i: usize = 0;
    while i < block.len()
        invariant
            i <= block.len(),
            s.wf(),
            s@ == run_block(*a, state@, block@.take(i as int)),
            block_pass(*c, *a, state@, block@.take(i as int)),
        decreases block.len() - i,
    {
        assert(block@.take(i + 1).drop_last() =~= block@.take(i as int));
        if !check_stmts(c, a, &mut s, &block[i].stmts, block[i].addr) {
            proof {
                if block_pass(*c, *a, state@, block@) {
                    lemma_block_pass_prefix(*c, *a, state@, block@, i + 1);
                }
            }
            return false;
        }
        i = i + 1;
    }
    assert(block@.take(i as int) =~= block@);
    true
}

/// Check every block that the analysis reached, each from its entry state.
pub fn check_state_at_statements<S: Lattice, A: AbstractAnalyzer<S>, C: Checker<S>>(
    c: &C,
    a: &A,
    result: &AnalysisResult<S>,
    irmap: &IRMap,
) -> (r: bool)
    requires
        result.wf(),
    ensures
        r == result_passes(*c, *a, result.states@, result.order@, irmap@),
{
    let mut i: usize = 0;
    while i < result.order.len()
        invariant
            result.wf(),
            i <= result.order.len(),
            forall|q: int|
                0 <= q < i ==> irmap@.contains_key(#[trigger] result.order@[q]) && block_pass(
                    *c,
                    *a,
                    result.states@[result.order@[q]]@,
                    irmap@[result.order@[q]]@,
                ),
        decreases result.order.len() - i,
    {
        let b = result.order[i];
        assert(result.order@.contains(b));
        let state = match result.states.get(&b) {
            Some(st) => st,
            None => {
                return false;
            },
        };
        let block = match irmap.get(&b) {
            Some(bl) => bl,
            None => {
                return false;
            },
        };
        if !check_block(c, a, state, block) {
            return false;
        }
        i = i + 1;
    }
    true
}

} // verus!
