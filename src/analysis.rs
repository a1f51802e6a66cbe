//! The analyzer interface and the worklist solver that drives an analyzer
//! to a fixed point over a function's control-flow graph.
use crate::ir::{IRBlock, IRInstr, Stmt};
use crate::lattice::{Lattice, LocIdx};
use std::collections::HashMap;
use vstd::prelude::*;

verus! {

broadcast use vstd::std_specs::hash::group_hash_axioms;

/// Lifted code of a function: block address to the block's instructions.
pub type IRMap = HashMap<u64, IRBlock>;

/// A function's control-flow graph: its entry block and, for each block,
/// the addresses of its successors.
pub struct Cfg {
    pub entrypoint: u64,
    pub succs: HashMap<u64, Vec<u64>>,
}

/// The entry state of each block reached, and the blocks reached in the
/// order they were first reached.
pub struct AnalysisResult<S> {
    pub states: HashMap<u64, S>,
    pub order: Vec<u64>,
}

impl<S: Lattice> AnalysisResult<S> {
    pub open spec fn wf(&self) -> bool {
        &&& forall|b: u64| #[trigger] self.states@.contains_key(b) ==> self.states@[b].wf()
        &&& forall|b: u64| #[trigger] self.states@.contains_key(b) <==> self.order@.contains(b)
    }
}

/// An abstract interpreter over lattice `S`.
pub trait AbstractAnalyzer<S: Lattice> {
    spec fn spec_init(&self) -> S::V;

    /// The transfer function of one statement at program point `loc`.
    spec fn spec_aexec(&self, s: S::V, stmt: Stmt, loc: LocIdx) -> S::V;

    /// The states handed to each successor of block `addr`, whose out-state
    /// is `out`.
    spec fn spec_branch(
        &self,
        irmap: Map<u64, IRBlock>,
        out: S::V,
        succs: Seq<u64>,
        addr: u64,
    ) -> Seq<(u64, S::V)>;

    fn init_state(&self) -> (r: S)
        ensures
            r.wf(),
            r@ == self.spec_init(),
    ;

    fn aexec(&self, s: &mut S, stmt: &Stmt, loc: &LocIdx)
        requires
            old(s).wf(),
        ensures
            final(s).wf(),
            final(s)@ == self.spec_aexec(old(s)@, *stmt, *loc),
    ;

    fn process_branch(&self, irmap: &IRMap, s: &S, succs: &Vec<u64>, addr: &u64) -> (r: Vec<(u64, S)>)
        requires
            s.wf(),
        ensures
            r.len() == self.spec_branch(irmap@, s@, succs@, *addr).len(),
            forall|j: int|
                0 <= j < r.len() ==> (#[trigger] r[j]).1.wf() && r[j].0 == self.spec_branch(
                    irmap@,
                    s@,
                    succs@,
                    *addr,
                )[j].0 && r[j].1@ == self.spec_branch(irmap@, s@, succs@, *addr)[j].1,
    ;
}

/// The state after the statements of one instruction at `addr`.
pub open spec fn run_stmts<S: Lattice, A: AbstractAnalyzer<S>>(
    a: A,
    s: S::V,
    stmts: Seq<Stmt>,
    addr: u64,
) -> S::V
    decreases stmts.len(),
{
    if stmts.len() == 0 {
        s
    } else {
        a.spec_aexec(
            run_stmts(a, s, stmts.drop_last(), addr),
            stmts.last(),
            LocIdx { addr, idx: (stmts.len() - 1) as u32 },
        )
    }
}

/// The state after a sequence of instructions.
pub open spec fn run_block<S: Lattice, A: AbstractAnalyzer<S>>(
    a: A,
    s: S::V,
    instrs: Seq<IRInstr>,
) -> S::V
    decreases instrs.len(),
{
    if instrs.len() == 0 {
        s
    } else {
        run_stmts(a, run_block(a, s, instrs.drop_last()), instrs.last().stmts@, instrs.last().addr)
    }
}

/// The states handed to each successor when the processing of the block
/// whose address is `b` starts in state `s`.
pub open spec fn edge_states<S: Lattice, A: AbstractAnalyzer<S>>(
    a: A,
    irmap: Map<u64, IRBlock>,
    succs: Map<u64, Vec<u64>>,
    b: u64,
    s: S::V,
) -> Seq<(u64, S::V)> {
    a.spec_branch(
        irmap,
        run_block(a, s, irmap[b]@),
        if succs.contains_key(b) {
            succs[b]@
        } else {
            Seq::empty()
        },
        b,
    )
}

/// Every edge out of block `b` hands its successor a state that lies above
/// the successor's entry state.
pub open spec fn edges_ok<S: Lattice, A: AbstractAnalyzer<S>>(
    a: A,
    irmap: Map<u64, IRBlock>,
    succs: Map<u64, Vec<u64>>,
    m: Map<u64, S::V>,
    b: u64,
) -> bool {
    let out = edge_states(a, irmap, succs, b, m[b]);
    forall|j: int|
        0 <= j < out.len() ==> m.contains_key(#[trigger] out[j].0) && S::le_v(m[out[j].0], out[j].1)
            && S::valid_v(out[j].1)
}

pub open spec fn state_views<S: Lattice>(m: Map<u64, S>) -> Map<u64, S::V> {
    m.map_values(|s: S| s@)
}

/// A fixed point of `a` on the function: the entry block's state lies below
/// the initial state, every block reached has lifted code, and every edge
/// out of a reached block respects the successor's entry state.
pub open spec fn is_fixed_point<S: Lattice, A: AbstractAnalyzer<S>>(
    a: A,
    irmap: Map<u64, IRBlock>,
    cfg_entry: u64,
    succs: Map<u64, Vec<u64>>,
    m: Map<u64, S::V>,
) -> bool {
    &&& m.contains_key(cfg_entry)
    &&& S::le_v(m[cfg_entry], a.spec_init())
    &&& forall|b: u64| #[trigger] m.contains_key(b) ==> irmap.contains_key(b)
    &&& forall|b: u64| #[trigger] m.contains_key(b) ==> edges_ok(a, irmap, succs, m, b)
}

/// Run the statements of one instruction.
fn exec_stmts<S: Lattice, A: AbstractAnalyzer<S>>(a: &A, s: &mut S, stmts: &Vec<Stmt>, addr: u64)
    requires
        old(s).wf(),
    ensures
        final(s).wf(),
        final(s)@ == run_stmts(*a, old(s)@, stmts@, addr),
{
    let mut i: usize = 0;
    while i < stmts.len()
        invariant
            i <= stmts.len(),
            s.wf(),
            s@ == run_stmts(*a, old(s)@, stmts@.take(i as int), addr),
        decreases stmts.len() - i,
    {
        assert(stmts@.take(i + 1).drop_last() =~= stmts@.take(i as int));
        a.aexec(s, &stmts[i], &LocIdx { addr, idx: #[verifier::truncate] (i as u32) });
        i = i + 1;
    }
    assert(stmts@.take(i as int) =~= stmts@);
}

/// The out-state of a block entered in `state`.
pub fn analyze_block<S: Lattice, A: AbstractAnalyzer<S>>(a: &A, state: &S, block: &IRBlock) -> (r: S)
    requires
        state.wf(),
    ensures
        r.wf(),
        r@ == run_block(*a, state@, block@),
{
    let mut s = state.duplicate();
    let mut i: usize = 0;
    while i < block.len()
        invariant
            i <= block.len(),
            s.wf(),
            s@ == run_block(*a, state@, block@.take(i as int)),
        decreases block.len() - i,
    {
        assert(block@.take(i + 1).drop_last() =~= block@.take(i as int));
        exec_stmts(a, &mut s, &block[i].stmts, block[i].addr);
        i = i + 1;
    }
    assert(block@.take(i as int) =~= block@);
    s
}

/// The analysis is monotone on the function: from states `s ⊑ t` entering
/// a block with code, the block hands the same successors states related
/// the same way.
pub open spec fn transfer_monotone<S: Lattice, A: AbstractAnalyzer<S>>(
    a: A,
    irmap: Map<u64, IRBlock>,
    succs: Map<u64, Vec<u64>>,
) -> bool {
    forall|b: u64, s: S::V, t: S::V|
        #![trigger edge_states(a, irmap, succs, b, s), edge_states(a, irmap, succs, b, t)]
        irmap.contains_key(b) && S::valid_v(s) && S::valid_v(t) && S::le_v(s, t) ==> {
            let es = edge_states(a, irmap, succs, b, s);
            let et = edge_states(a, irmap, succs, b, t);
            &&& es.len() == et.len()
            &&& forall|j: int|
                0 <= j < es.len() ==> #[trigger] es[j].0 == et[j].0 && S::le_v(es[j].1, et[j].1)
                    && S::valid_v(es[j].1)
        }
}

/// A fixed point whose states are all valid.
pub open spec fn admissible<S: Lattice, A: AbstractAnalyzer<S>>(
    a: A,
    irmap: Map<u64, IRBlock>,
    entry: u64,
    succs: Map<u64, Vec<u64>>,
    m2: Map<u64, S::V>,
) -> bool {
    &&& is_fixed_point(a, irmap, entry, succs, m2)
    &&& forall|k: u64| #[trigger] m2.contains_key(k) ==> S::valid_v(m2[k])
}

/// Every block of `m` has a state in `m2`, below its state in `m`.
pub open spec fn below_all<S: Lattice>(m2: Map<u64, S::V>, m: Map<u64, S::V>) -> bool {
    forall|k: u64| #[trigger] m.contains_key(k) ==> m2.contains_key(k) && S::le_v(m2[k], m[k])
}

/// How a run of the worklist ends: with the entry state of every block
/// reached and the order in which they were reached; at a reached block
/// without code; or with the visit budget spent.
pub enum WorklistOutcome<V> {
    Done(Map<u64, V>, Seq<u64>),
    MissingCode(u64),
    OutOfFuel,
}

/// Hand the states `br` to their successors in turn: a block reached for
/// the first time takes the state and is queued; a block whose entry state
/// the meet lowers takes the meet and is queued again.
pub open spec fn merge_edges<S: Lattice>(
    m: Map<u64, S::V>,
    q: Seq<u64>,
    order: Seq<u64>,
    br: Seq<(u64, S::V)>,
) -> (Map<u64, S::V>, Seq<u64>, Seq<u64>)
    decreases br.len(),
{
    if br.len() == 0 {
        (m, q, order)
    } else {
        let s = br[0].0;
        let st = br[0].1;
        if !m.contains_key(s) {
            merge_edges::<S>(m.insert(s, st), q.push(s), order.push(s), br.drop_first())
        } else if S::meet_v(m[s], st) == m[s] {
            merge_edges::<S>(m, q, order, br.drop_first())
        } else {
            merge_edges::<S>(m.insert(s, S::meet_v(m[s], st)), q.push(s), order, br.drop_first())
        }
    }
}

/// The worklist algorithm with entry states `m`, queue `q`, blocks reached
/// `order`, and at most `fuel` block visits left: the first queued block is
/// run and its out-state handed to its successors.
pub open spec fn worklist_outcome<S: Lattice, A: AbstractAnalyzer<S>>(
    a: A,
    irmap: Map<u64, IRBlock>,
    succs: Map<u64, Vec<u64>>,
    m: Map<u64, S::V>,
    q: Seq<u64>,
    order: Seq<u64>,
    fuel: nat,
) -> WorklistOutcome<S::V>
    decreases fuel,
{
    if q.len() == 0 {
        WorklistOutcome::Done(m, order)
    } else if fuel == 0 {
        WorklistOutcome::OutOfFuel
    } else if !irmap.contains_key(q[0]) || !m.contains_key(q[0]) {
        WorklistOutcome::MissingCode(q[0])
    } else {
        let n = merge_edges::<S>(m, q.drop_first(), order, edge_states(a, irmap, succs, q[0], m[q[0]]));
        worklist_outcome(a, irmap, succs, n.0, n.1, n.2, (fuel - 1) as nat)
    }
}

/// The worklist started from the entry block in the initial state.
pub open spec fn run_outcome<S: Lattice, A: AbstractAnalyzer<S>>(
    a: A,
    irmap: Map<u64, IRBlock>,
    entry: u64,
    succs: Map<u64, Vec<u64>>,
    fuel: nat,
) -> WorklistOutcome<S::V> {
    worklist_outcome(
        a,
        irmap,
        succs,
        Map::empty().insert(entry, a.spec_init()),
        seq![entry],
        seq![entry],
        fuel,
    )
}

/// Lowering the entry state of a block `s` other than `c` keeps the edges
/// out of `c` respected.
proof fn lemma_lower_keeps_edges<S: Lattice, A: AbstractAnalyzer<S>>(
    a: A,
    irmap: Map<u64, IRBlock>,
    succs: Map<u64, Vec<u64>>,
    m: Map<u64, S::V>,
    s: u64,
    nv: S::V,
    c: u64,
)
    requires
        edges_ok(a, irmap, succs, m, c),
        c != s,
        m.contains_key(c),
        !m.contains_key(s) || S::le_v(nv, m[s]),
        S::valid_v(nv),
        forall|k: u64| #[trigger] m.contains_key(k) ==> S::valid_v(m[k]),
    ensures
        edges_ok(a, irmap, succs, m.insert(s, nv), c),
{
    let m2 = m.insert(s, nv);
    assert(m2[c] == m[c]);
    let out = edge_states(a, irmap, succs, c, m[c]);
    assert forall|j: int| 0 <= j < out.len() implies m2.contains_key(#[trigger] out[j].0) && S::le_v(
        m2[out[j].0],
        out[j].1,
    ) && S::valid_v(out[j].1) by {
        let t = out[j].0;
        assert(m.contains_key(t) && S::le_v(m[t], out[j].1));
        if t == s {
            S::lemma_laws(nv, m[s], out[j].1);
        }
    }
}

/// Drive analyzer `a` to a fixed point over the function whose graph is
/// `cfg` and whose lifted code is `irmap`, starting from the entry block in
/// the analyzer's initial state. A block is processed again whenever its
/// entry state changes; a successor's entry state is the meet of what its
/// predecessors hand it. Returns the entry state of every block reached,
/// exactly as `run_outcome` describes; `None` exactly when a reached block
/// has no lifted code or the fixed point takes more than `fuel` block
/// visits.
pub fn run_worklist<S: Lattice, A: AbstractAnalyzer<S>>(
    cfg: &Cfg,
    irmap: &IRMap,
    a: &A,
    fuel: u64,
) -> (r: Option<AnalysisResult<S>>)
    ensures
        r matches Some(m) ==> {
            &&& m.wf()
            &&& is_fixed_point(*a, irmap@, cfg.entrypoint, cfg.succs@, state_views(m.states@))
            &&& run_outcome(*a, irmap@, cfg.entrypoint, cfg.succs@, fuel as nat)
                == WorklistOutcome::Done(state_views(m.states@), m.order@)
            &&& transfer_monotone(*a, irmap@, cfg.succs@) ==> forall|m2: Map<u64, S::V>|
                #[trigger] admissible(*a, irmap@, cfg.entrypoint, cfg.succs@, m2) ==> below_all::<S>(
                    m2,
                    state_views(m.states@),
                )
        },
        r is None <==> !(run_outcome(*a, irmap@, cfg.entrypoint, cfg.succs@, fuel as nat) is Done),
{
    let entry = cfg.entrypoint;
    let ghost out_all = run_outcome(*a, irmap@, cfg.entrypoint, cfg.succs@, fuel as nat);
    let init = a.init_state();
    proof {
        S::lemma_valid(&init);
    }
    let ghost init_v = init@;
    let mut statemap: HashMap<u64, S> = HashMap::new();
    statemap.insert(entry, init);
    let mut queue: Vec<u64> = Vec::new();
    queue.push(entry);
    let mut order: Vec<u64> = Vec::new();
    order.push(entry);
    assert(order@[0] == entry);
    let mut head: usize = 0;
    let mut steps: u64 = 0;
    let ghost mut gm: Map<u64, S::V> = Map::empty().insert(entry, init_v);
    proof {
        S::lemma_laws(init_v, init_v, init_v);
        assert(gm =~= state_views(statemap@));
        assert(queue[0] == entry);
        assert(queue@.subrange(0, 1) =~= seq![entry]);
        assert(order@ =~= seq![entry]);
        assert forall|m2: Map<u64, S::V>|
            #[trigger] admissible(*a, irmap@, cfg.entrypoint, cfg.succs@, m2) implies below_all::<S>(m2, gm) by {
            assert forall|k: u64| gm.contains_key(k) implies m2.contains_key(k) && S::le_v(m2[k], gm[k]) by {
                assert(k == entry);
            }
        }
    }
    while head < queue.len()
        invariant
            head <= queue.len(),
            steps <= fuel,
            gm == state_views(statemap@),
            out_all == run_outcome(*a, irmap@, cfg.entrypoint, cfg.succs@, fuel as nat),
            worklist_outcome(
                *a,
                irmap@,
                cfg.succs@,
                gm,
                queue@.subrange(head as int, queue.len() as int),
                order@,
                (fuel - steps) as nat,
            ) == out_all,
            init_v == a.spec_init(),
            S::valid_v(init_v),
            forall|k: u64| #[trigger] statemap@.contains_key(k) ==> statemap@[k].wf(),
            forall|k: u64| #[trigger] statemap@.contains_key(k) <==> order@.contains(k),
            forall|k: u64| #[trigger] gm.contains_key(k) ==> S::valid_v(gm[k]),
            gm.contains_key(entry),
            S::le_v(gm[entry], init_v),
            transfer_monotone(*a, irmap@, cfg.succs@) ==> forall|m2: Map<u64, S::V>|
                #[trigger] admissible(*a, irmap@, cfg.entrypoint, cfg.succs@, m2) ==> below_all::<S>(m2, gm),
            forall|i: int| head <= i < queue.len() ==> gm.contains_key(#[trigger] queue[i]),
            forall|c: u64|
                #[trigger] gm.contains_key(c) && !(exists|i: int|
                    head <= i < queue.len() && queue[i] == c) ==> irmap@.contains_key(c)
                    && edges_ok(*a, irmap@, cfg.succs@, gm, c),
        decreases fuel - steps,
    {
        let ghost qr = queue@.subrange(head as int, queue.len() as int);
        if steps >= fuel {
            return None;
        }
        steps = steps + 1;
        let b = queue[head];
        head = head + 1;
        assert(qr[0] == b);
        assert(qr.drop_first() =~= queue@.subrange(head as int, queue.len() as int));
        let block = match irmap.get(&b) {
            Some(bl) => bl,
            None => {
                return None;
            },
        };
        let cur = match statemap.get(&b) {
            Some(st) => st,
            None => {
                return None;
            },
        };
        let out = analyze_block(a, cur, block);
        let empty: Vec<u64> = Vec::new();
        let succ_list = match cfg.succs.get(&b) {
            Some(v) => v,
            None => &empty,
        };
        let branches = a.process_branch(irmap, &out, succ_list, &b);
        let ghost gb = gm[b];
        let ghost br = edge_states(*a, irmap@, cfg.succs@, b, gb);
        assert(br == a.spec_branch(irmap@, out@, succ_list@, b));
        let ghost merged_all = merge_edges::<S>(gm, qr.drop_first(), order@, br);
        assert(br.subrange(0, br.len() as int) =~= br);
        let mut j: usize = 0;
        while j < branches.len()
            invariant
                head <= queue.len(),
                head >= 1,
                queue[head - 1] == b,
                irmap@.contains_key(b),
                gm == state_views(statemap@),
                init_v == a.spec_init(),
                S::valid_v(init_v),
                br == edge_states(*a, irmap@, cfg.succs@, b, gb),
                branches.len() == br.len(),
                forall|q: int|
                    0 <= q < branches.len() ==> (#[trigger] branches[q]).1.wf() && branches[q].0
                        == br[q].0 && branches[q].1@ == br[q].1,
                j <= branches.len(),
                merge_edges::<S>(
                    gm,
                    queue@.subrange(head as int, queue.len() as int),
                    order@,
                    br.subrange(j as int, br.len() as int),
                ) == merged_all,
                worklist_outcome(
                    *a,
                    irmap@,
                    cfg.succs@,
                    merged_all.0,
                    merged_all.1,
                    merged_all.2,
                    (fuel - steps) as nat,
                ) == out_all,
                forall|k: u64| #[trigger] statemap@.contains_key(k) ==> statemap@[k].wf(),
                forall|k: u64| #[trigger] statemap@.contains_key(k) <==> order@.contains(k),
                forall|k: u64| #[trigger] gm.contains_key(k) ==> S::valid_v(gm[k]),
                gm.contains_key(entry),
                S::le_v(gm[entry], init_v),
                gm.contains_key(b),
                S::valid_v(gb),
                transfer_monotone(*a, irmap@, cfg.succs@) ==> forall|m2: Map<u64, S::V>|
                    #[trigger] admissible(*a, irmap@, cfg.entrypoint, cfg.succs@, m2) ==> below_all::<S>(m2, gm)
                        && m2.contains_key(b) && S::le_v(m2[b], gb),
                gm[b] == gb || (exists|i: int| head <= i < queue.len() && queue[i] == b),
                forall|q: int|
                    0 <= q < j ==> gm.contains_key(#[trigger] br[q].0) && S::le_v(
                        gm[br[q].0],
                        br[q].1,
                    ) && S::valid_v(br[q].1),
                forall|i: int| head <= i < queue.len() ==> gm.contains_key(#[trigger] queue[i]),
                forall|c: u64|
                    #[trigger] gm.contains_key(c) && c != b && !(exists|i: int|
                        head <= i < queue.len() && queue[i] == c) ==> irmap@.contains_key(c)
                        && edges_ok(*a, irmap@, cfg.succs@, gm, c),
            decreases branches.len() - j,
        {
            let succ = branches[j].0;
            let incoming = &branches[j].1;
            proof {
                S::lemma_valid(incoming);
                S::lemma_laws(incoming@, incoming@, incoming@);
            }
            let ghost gm0 = gm;
            let ghost q0 = queue@;
            let ghost qr0 = queue@.subrange(head as int, queue.len() as int);
            let ghost ord0 = order@;
            let mut nv: Option<S> = None;
            match statemap.get(&succ) {
                None => {
                    nv = Some(incoming.duplicate());
                    assert(nv.unwrap()@ == br[j as int].1);
                    let ghost o0 = order@;
                    order.push(succ);
                    assert forall|k: u64| #[trigger] order@.contains(k) <==> (o0.contains(k) || k == succ) by {
                        if o0.contains(k) {
                            let i = choose|i: int| 0 <= i < o0.len() && o0[i] == k;
                            assert(order@[i] == k);
                        }
                        if k == succ {
                            assert(order@[o0.len() as int] == k);
                        }
                    }
                },
                Some(prev) => {
                    let merged = prev.meet(incoming, &LocIdx { addr: succ, idx: 0 });
                    proof {
                        S::lemma_valid(prev);
                        S::lemma_laws(prev@, incoming@, incoming@);
                    }
                    if !merged.same(prev) {
                        nv = Some(merged);
                        assert(nv.unwrap()@ == S::meet_v(gm0[succ], br[j as int].1));
                    } else {
                        assert(S::le_v(gm0[succ], incoming@));
                    }
                },
            }
            // The state handed over lies above what `succ` holds after this step.
            match nv {
                Some(v) => {
                    let ghost vv = v@;
                    proof {
                        S::lemma_valid(&v);
                        assert(S::le_v(vv, incoming@));
                        assert(!gm0.contains_key(succ) || S::le_v(vv, gm0[succ]));
                    }
                    statemap.insert(succ, v);
                    queue.push(succ);
                    proof {
                        gm = gm0.insert(succ, vv);
                        assert(gm =~= state_views(statemap@));
                        assert(queue@[queue.len() - 1] == succ);
                        assert forall|i: int| head <= i < queue.len() implies gm.contains_key(
                            #[trigger] queue[i],
                        ) by {
                            if i < queue.len() - 1 {
                                assert(queue[i] == q0[i]);
                            }
                        }
                        assert(exists|i: int| head <= i < queue.len() && queue[i] == succ) by {
                            assert(queue[queue.len() - 1] == succ);
                        }
                        if gm0[b] != gb {
                            let i = choose|i: int| head <= i < q0.len() && q0[i] == b;
                            assert(queue[i] == b);
                        }
                        assert forall|c: u64|
                            #[trigger] gm.contains_key(c) && c != b && !(exists|i: int|
                                head <= i < queue.len() && queue[i] == c) implies irmap@.contains_key(
                            c,
                        ) && edges_ok(*a, irmap@, cfg.succs@, gm, c) by {
                            assert(c != succ);
                            assert(gm0.contains_key(c));
                            assert(!(exists|i: int| head <= i < q0.len() && q0[i] == c)) by {
                                if exists|i: int| head <= i < q0.len() && q0[i] == c {
                                    let i = choose|i: int| head <= i < q0.len() && q0[i] == c;
                                    assert(queue[i] == c);
                                }
                            }
                            lemma_lower_keeps_edges(*a, irmap@, cfg.succs@, gm0, succ, vv, c);
                        }
                        assert forall|q: int| 0 <= q < j + 1 implies gm.contains_key(
                            #[trigger] br[q].0,
                        ) && S::le_v(gm[br[q].0], br[q].1) && S::valid_v(br[q].1) by {
                            if q < j && br[q].0 == succ {
                                S::lemma_laws(vv, gm0[succ], br[q].1);
                            }
                        }
                        if succ == entry {
                            S::lemma_laws(vv, gm0[entry], init_v);
                        }
                        if transfer_monotone(*a, irmap@, cfg.succs@) {
                            assert forall|m2: Map<u64, S::V>|
                                #[trigger] admissible(*a, irmap@, cfg.entrypoint, cfg.succs@, m2) implies below_all::<S>(m2, gm)
                                    && m2.contains_key(b) && S::le_v(m2[b], gb) by {
                                assert(below_all::<S>(m2, gm0) && m2.contains_key(b) && S::le_v(m2[b], gb));
                                let es = edge_states(*a, irmap@, cfg.succs@, b, m2[b]);
                                assert(S::valid_v(m2[b]));
                                assert(irmap@.contains_key(b) && S::valid_v(gb) && S::le_v(m2[b], gb));
                                assert(br == edge_states(*a, irmap@, cfg.succs@, b, gb));
                                assert(es.len() == br.len());
                                assert(0 <= j < es.len());
                                assert(es[j as int].0 == br[j as int].0);
                                assert(es[j as int].0 == br[j as int].0 && S::le_v(es[j as int].1, br[j as int].1)
                                    && S::valid_v(es[j as int].1));
                                assert(edges_ok(*a, irmap@, cfg.succs@, m2, b));
                                assert(m2.contains_key(succ) && S::le_v(m2[succ], es[j as int].1));
                                S::lemma_laws(m2[succ], es[j as int].1, br[j as int].1);
                                if gm0.contains_key(succ) {
                                    S::lemma_laws(gm0[succ], br[j as int].1, m2[succ]);
                                }
                                assert(S::le_v(m2[succ], vv));
                            }
                        }
                    }
                },
                None => {
                    assert(gm.contains_key(br[j as int].0));
                    assert(S::le_v(gm[br[j as int].0], br[j as int].1));
                    assert(S::valid_v(br[j as int].1));
                    assert forall|q: int| 0 <= q < j + 1 implies gm.contains_key(
                        #[trigger] br[q].0,
                    ) && S::le_v(gm[br[q].0], br[q].1) && S::valid_v(br[q].1) by {
                        if q < j {
                        } else {
                            assert(q == j);
                        }
                    }
                },
            }
            proof {
                let rest = br.subrange(j as int, br.len() as int);
                assert(rest[0] == br[j as int]);
                assert(rest.drop_first() =~= br.subrange(j + 1, br.len() as int));
                if !gm0.contains_key(succ) {
                    assert(queue@.subrange(head as int, queue.len() as int) =~= qr0.push(succ));
                    assert(gm == gm0.insert(succ, br[j as int].1));
                } else if S::meet_v(gm0[succ], br[j as int].1) == gm0[succ] {
                    assert(queue@ == q0);
                    assert(gm == gm0);
                } else {
                    assert(queue@.subrange(head as int, queue.len() as int) =~= qr0.push(succ));
                    assert(gm == gm0.insert(succ, S::meet_v(gm0[succ], br[j as int].1)));
                    assert(order@ == ord0);
                }
            }
            assert(forall|q: int|
                0 <= q < j + 1 ==> gm.contains_key(#[trigger] br[q].0) && S::le_v(
                    gm[br[q].0],
                    br[q].1,
                ) && S::valid_v(br[q].1));
            j = j + 1;
        }
        proof {
            assert(br.subrange(j as int, br.len() as int) =~= Seq::<(u64, S::V)>::empty());
            assert forall|c: u64|
                #[trigger] gm.contains_key(c) && !(exists|i: int|
                    head <= i < queue.len() && queue[i] == c) implies irmap@.contains_key(c)
                && edges_ok(*a, irmap@, cfg.succs@, gm, c) by {
                if c == b {
                    assert(gm[b] == gb);
                }
            }
        }
    }
    proof {
        assert(queue@.subrange(head as int, queue.len() as int) =~= Seq::<u64>::empty());
        assert forall|b: u64| #[trigger] gm.contains_key(b) implies irmap@.contains_key(b)
            && edges_ok(*a, irmap@, cfg.succs@, gm, b) by {
            assert(!(exists|i: int| head <= i < queue.len() && queue[i] == b));
        }
    }
    Some(AnalysisResult { states: statemap, order })
}

} // verus!
