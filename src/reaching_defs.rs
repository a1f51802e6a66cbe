//! Reaching-definitions analysis: each location is tagged with the set of
//! statements that may have produced its value.
use crate::analysis::{run_worklist, AbstractAnalyzer, AnalysisResult, Cfg, IRMap};
use crate::ir::{Binopcode, ImmType, IRBlock, Stmt, ValSize, Value};
use crate::lattice::{Lattice, LocIdx};
use crate::reach::ReachLattice;
use crate::varstate::{state_adjust, state_on_call, state_write, StateView, VariableState};
use vstd::prelude::*;

verus! {

pub type ReachState = VariableState<ReachLattice>;

pub type ReachView = StateView<Set<LocIdx>>;

pub struct ReachingDefnAnalyzer {}

/// One statement: a written location is defined here and nowhere else;
/// a call forgets the clobbered registers.
pub open spec fn spec_reach_aexec(s: ReachView, stmt: Stmt, loc: LocIdx) -> ReachView {
    let here = Set::empty().insert(loc);
    match stmt {
        Stmt::Clear(dst, _) => state_write(s, dst, here, Set::empty()),
        Stmt::Unop(_, dst, _) => state_write(s, dst, here, Set::empty()),
        Stmt::Binop(op, dst, src1, src2) => state_write(
            state_adjust(s, op, dst, src1, src2, Set::empty()),
            dst,
            here,
            Set::empty(),
        ),
        Stmt::Call(_) => state_on_call(s, Set::empty()),
        Stmt::ProbeStack(n) => state_adjust(
            s,
            Binopcode::Sub,
            Value::Reg(4, ValSize::Size64),
            Value::Reg(4, ValSize::Size64),
            Value::Imm(ImmType::Unsigned, ValSize::Size64, n as i64),
            Set::empty(),
        ),
        _ => s,
    }
}

impl AbstractAnalyzer<ReachState> for ReachingDefnAnalyzer {
    open spec fn spec_init(&self) -> ReachView {
        <ReachState as Lattice>::bot_v()
    }

    open spec fn spec_aexec(&self, s: ReachView, stmt: Stmt, loc: LocIdx) -> ReachView {
        spec_reach_aexec(s, stmt, loc)
    }

    open spec fn spec_branch(
        &self,
        irmap: Map<u64, IRBlock>,
        out: ReachView,
        succs: Seq<u64>,
        addr: u64,
    ) -> Seq<(u64, ReachView)> {
        Seq::new(succs.len(), |j: int| (succs[j], out))
    }

    fn init_state(&self) -> (r: ReachState) {
        VariableState::new()
    }

    fn aexec(&self, s: &mut ReachState, stmt: &Stmt, loc: &LocIdx) {
        match stmt {
            Stmt::Clear(dst, _) => s.set(dst, ReachLattice::singleton(*loc)),
            Stmt::Unop(_, dst, _) => s.set(dst, ReachLattice::singleton(*loc)),
            Stmt::Binop(op, dst, src1, src2) => {
                s.adjust_stack_offset(op, dst, src1, src2);
                s.set(dst, ReachLattice::singleton(*loc));
            },
            Stmt::Call(_) => s.on_call(),
            Stmt::ProbeStack(n) => s.adjust_stack_offset(
                &Binopcode::Sub,
                &Value::Reg(4, ValSize::Size64),
                &Value::Reg(4, ValSize::Size64),
                &Value::Imm(ImmType::Unsigned, ValSize::Size64, *n as i64),
            ),
            _ => {},
        }
    }

    fn process_branch(&self, irmap: &IRMap, s: &ReachState, succs: &Vec<u64>, addr: &u64) -> (r: Vec<
        (u64, ReachState),
    >) {
        let mut r: Vec<(u64, ReachState)> = Vec::new();
        let mut j: usize = 0;
        while j < succs.len()
            invariant
                s.wf(),
                j <= succs.len(),
                r.len() == j,
                forall|q: int|
                    0 <= q < j ==> (#[trigger] r[q]).1.wf() && r[q].0 == succs[q] && r[q].1@ == s@,
            decreases succs.len() - j,
        {
            r.push((succs[j], s.duplicate()));
            j = j + 1;
        }
        r
    }
}

/// Reaching definitions of every block of the function, at a fixed point.
pub fn analyze_reaching_defs(cfg: &Cfg, irmap: &IRMap, fuel: u64) -> (r: Option<
    AnalysisResult<ReachState>,
>)
    ensures
        r matches Some(m) ==> {
            &&& m.wf()
            &&& crate::analysis::is_fixed_point(
                ReachingDefnAnalyzer {},
                irmap@,
                cfg.entrypoint,
                cfg.succs@,
                crate::analysis::state_views(m.states@),
            )
            &&& crate::analysis::run_outcome(ReachingDefnAnalyzer {}, irmap@, cfg.entrypoint, cfg.succs@, fuel as nat)
                == crate::analysis::WorklistOutcome::Done(crate::analysis::state_views(m.states@), m.order@)
        },
        r is None <==> !(crate::analysis::run_outcome(
            ReachingDefnAnalyzer {},
            irmap@,
            cfg.entrypoint,
            cfg.succs@,
            fuel as nat,
        ) is Done),
{
    run_worklist(cfg, irmap, &ReachingDefnAnalyzer {}, fuel)
}

/// The reaching-definitions transfer is monotone: on states `s ⊑ t` with
/// the same `%rsp` displacement, one statement yields states related the
/// same way, again with equal displacements.
pub proof fn lemma_reach_monotone(s: ReachView, t: ReachView, stmt: Stmt, loc: LocIdx)
    requires
        <ReachState as Lattice>::le_v(s, t),
        s.1.0 == t.1.0,
    ensures
        <ReachState as Lattice>::le_v(spec_reach_aexec(s, stmt, loc), spec_reach_aexec(t, stmt, loc)),
        spec_reach_aexec(s, stmt, loc).1.0 == spec_reach_aexec(t, stmt, loc).1.0,
{
    let here = Set::empty().insert(loc);
    match stmt {
        Stmt::Clear(dst, _) => lemma_write_monotone(s, t, dst, here),
        Stmt::Unop(_, dst, _) => lemma_write_monotone(s, t, dst, here),
        Stmt::Binop(op, dst, src1, src2) => {
            let s1 = state_adjust(s, op, dst, src1, src2, Set::empty());
            let t1 = state_adjust(t, op, dst, src1, src2, Set::empty());
            lemma_adjust_monotone(s, t, op, dst, src1, src2);
            lemma_write_monotone(s1, t1, dst, here);
        },
        Stmt::Call(_) => {
            let s1 = state_on_call(s, Set::empty());
            let t1 = state_on_call(t, Set::empty());
            assert forall|i: int| ReachLattice::le_v(#[trigger] s1.0[i], t1.0[i]) by {
                assert(ReachLattice::le_v(s.0[i], t.0[i]));
            }
        },
        Stmt::ProbeStack(n) => lemma_adjust_monotone(
            s,
            t,
            Binopcode::Sub,
            Value::Reg(4, ValSize::Size64),
            Value::Reg(4, ValSize::Size64),
            Value::Imm(ImmType::Unsigned, ValSize::Size64, n as i64),
        ),
        _ => {},
    }
}

proof fn lemma_write_monotone(s: ReachView, t: ReachView, dst: Value, v: Set<LocIdx>)
    requires
        <ReachState as Lattice>::le_v(s, t),
        s.1.0 == t.1.0,
    ensures
        <ReachState as Lattice>::le_v(
            state_write(s, dst, v, Set::empty()),
            state_write(t, dst, v, Set::empty()),
        ),
        state_write(s, dst, v, Set::empty()).1.0 == state_write(t, dst, v, Set::empty()).1.0,
{
    let s1 = state_write(s, dst, v, Set::empty());
    let t1 = state_write(t, dst, v, Set::empty());
    assert forall|i: int| ReachLattice::le_v(#[trigger] s1.0[i], t1.0[i]) by {
        assert(ReachLattice::le_v(s.0[i], t.0[i]));
        assert(v.subset_of(v));
        if let Value::Reg(n, sz) = dst {
            if i == n as int && n < 17 && sz != ValSize::SizeOther {
                assert(s1.0[i] == v && t1.0[i] == v);
            } else {
                assert(s1.0[i] == s.0[i] && t1.0[i] == t.0[i]);
            }
        } else {
            assert(s1.0 == s.0 && t1.0 == t.0);
        }
    }
    assert forall|k: (i64, u32)| ReachLattice::le_v(#[trigger] s1.1.1[k], t1.1.1[k]) by {
        assert(ReachLattice::le_v(s.1.1[k], t.1.1[k]));
    }
}

proof fn lemma_adjust_monotone(
    s: ReachView,
    t: ReachView,
    op: Binopcode,
    dst: Value,
    src1: Value,
    src2: Value,
)
    requires
        <ReachState as Lattice>::le_v(s, t),
        s.1.0 == t.1.0,
    ensures
        <ReachState as Lattice>::le_v(
            state_adjust(s, op, dst, src1, src2, Set::empty()),
            state_adjust(t, op, dst, src1, src2, Set::empty()),
        ),
        state_adjust(s, op, dst, src1, src2, Set::empty()).1.0 == state_adjust(
            t,
            op,
            dst,
            src1,
            src2,
            Set::empty(),
        ).1.0,
{
    let s1 = state_adjust(s, op, dst, src1, src2, Set::empty());
    let t1 = state_adjust(t, op, dst, src1, src2, Set::empty());
    assert forall|i: int| ReachLattice::le_v(#[trigger] s1.0[i], t1.0[i]) by {
        assert(ReachLattice::le_v(s.0[i], t.0[i]));
    }
    assert forall|k: (i64, u32)| ReachLattice::le_v(#[trigger] s1.1.1[k], t1.1.1[k]) by {
        assert(ReachLattice::le_v(s.1.1[k], t.1.1[k]));
    }
}

} // verus!
