//! Verification of one function: heap, stack and call safety in turn.
use crate::analysis::{is_fixed_point, run_outcome, run_worklist, state_views, AnalysisResult, Cfg, IRMap};
use crate::call_analyzer::CallAnalyzer;
use crate::call_checker::{check_calls, CallChecker};
use crate::calllattice::CallCheckLattice;
use crate::checker::result_passes;
use crate::heap_analyzer::{HeapAnalyzer, HeapLattice};
use crate::heap_checker::{check_heap, HeapChecker};
use crate::ir::{IRBlock, Stmt, Value};
use crate::metadata::CompilerMetadata;
use crate::reaching_defs::{analyze_reaching_defs, ReachingDefnAnalyzer};
use crate::stack_analyzer::StackAnalyzer;
use crate::stack_checker::{check_stack, StackChecker};
use crate::stackgrowth::StackGrowthLattice;
use vstd::prelude::*;

verus! {

broadcast use vstd::std_specs::hash::group_hash_axioms;

#[derive(Clone, Copy, Debug, PartialEq, Eq, Structural)]
pub enum VerifyError {
    /// An analysis did not reach a fixed point within its budget, or a
    /// reached block has no code.
    NoFixedPoint,
    HeapUnsafe,
    StackUnsafe,
    CallUnsafe,
}

/// Whether a statement is a call through a register or memory.
pub open spec fn is_indirect_call(s: Stmt) -> bool {
    match s {
        Stmt::Call(t) => !(t is Imm),
        _ => false,
    }
}

/// Some block listed in `order` holds an indirect call.
pub open spec fn spec_has_indirect_calls(irmap: Map<u64, IRBlock>, order: Seq<u64>) -> bool {
    exists|i: int, j: int, k: int|
        0 <= i < order.len() && irmap.contains_key(order[i]) && 0 <= j < irmap[order[i]]@.len()
            && 0 <= k < irmap[order[i]]@[j].stmts@.len() && #[trigger] is_indirect_call(
            irmap[order[i]]@[j].stmts@[k],
        )
}

/// Whether any of the blocks in `order` makes an indirect call.
pub fn has_indirect_calls(irmap: &IRMap, order: &Vec<u64>) -> (r: bool)
    ensures
        r == spec_has_indirect_calls(irmap@, order@),
{
    let mut i: usize = 0;
    while i < order.len()
        invariant
            i <= order.len(),
            forall|a: int, j: int, k: int|
                0 <= a < i && irmap@.contains_key(order@[a]) && 0 <= j < irmap@[order@[a]]@.len()
                    && 0 <= k < irmap@[order@[a]]@[j].stmts@.len() ==> !#[trigger] is_indirect_call(
                    irmap@[order@[a]]@[j].stmts@[k],
                ),
        decreases order.len() - i,
    {
        if let Some(block) = irmap.get(&order[i]) {
            let mut j: usize = 0;
            while j < block.len()
                invariant
                    i < order.len(),
                    irmap@.contains_key(order@[i as int]),
                    block == &irmap@[order@[i as int]],
                    j <= block.len(),
                    forall|a: int, jj: int, k: int|
                        0 <= a < i && irmap@.contains_key(order@[a]) && 0 <= jj < irmap@[order@[a]]@.len()
                            && 0 <= k < irmap@[order@[a]]@[jj].stmts@.len() ==> !#[trigger] is_indirect_call(
                            irmap@[order@[a]]@[jj].stmts@[k],
                        ),
                    forall|jj: int, k: int|
                        0 <= jj < j && 0 <= k < block@[jj].stmts@.len() ==> !#[trigger] is_indirect_call(
                            block@[jj].stmts@[k],
                        ),
                decreases block.len() - j,
            {
                let stmts = &block[j].stmts;
                let mut k: usize = 0;
                while k < stmts.len()
                    invariant
                        i < order.len(),
                        irmap@.contains_key(order@[i as int]),
                        block == &irmap@[order@[i as int]],
                        j < block.len(),
                        stmts == &block@[j as int].stmts,
                        k <= stmts.len(),
                        forall|a: int, jj: int, kk: int|
                            0 <= a < i && irmap@.contains_key(order@[a]) && 0 <= jj < irmap@[order@[a]]@.len()
                                && 0 <= kk < irmap@[order@[a]]@[jj].stmts@.len() ==> !#[trigger] is_indirect_call(
                                irmap@[order@[a]]@[jj].stmts@[kk],
                            ),
                        forall|jj: int, kk: int|
                            0 <= jj < j && 0 <= kk < block@[jj].stmts@.len() ==> !#[trigger] is_indirect_call(
                                block@[jj].stmts@[kk],
                            ),
                        forall|kk: int| 0 <= kk < k ==> !#[trigger] is_indirect_call(stmts@[kk]),
                    decreases stmts.len() - k,
                {
                    match &stmts[k] {
                        Stmt::Call(Value::Imm(_, _, _)) => {},
                        Stmt::Call(_) => {
                            assert(is_indirect_call(irmap@[order@[i as int]]@[j as int].stmts@[k as int]));
                            return true;
                        },
                        _ => {},
                    }
                    k = k + 1;
                }
                j = j + 1;
            }
        }
        i = i + 1;
    }
    false
}

/// A fixed point of a call analysis for compiler `md` on which the call
/// checker passes.
pub open spec fn calls_safe(
    cfg: Cfg,
    irmap: Map<u64, IRBlock>,
    md: CompilerMetadata,
    valid_funcs: Seq<u64>,
    plt: (u64, u64),
) -> bool {
    exists|ca: CallAnalyzer, cr: AnalysisResult<CallCheckLattice>|
        #![trigger ca.metadata, cr.wf()]
        {
            &&& ca.metadata == md
            &&& cr.wf()
            &&& is_fixed_point(ca, irmap, cfg.entrypoint, cfg.succs@, state_views(cr.states@))
            &&& exists|vf: &Vec<u64>, pl: &(u64, u64)|
                vf@ == valid_funcs && *pl == plt && result_passes(
                    CallChecker { analyzer: &ca, funcs: vf, plt: pl },
                    ca,
                    cr.states@,
                    cr.order@,
                    irmap,
                )
        }
}

/// What a successful verification of a function guarantees: fixed points
/// of the heap and stack analyses on which their checkers pass, and, when
/// a block that the heap analysis reached makes an indirect call, a fixed
/// point of the call analysis on which the call checker passes.
pub open spec fn function_safe(
    cfg: Cfg,
    irmap: Map<u64, IRBlock>,
    heap: HeapAnalyzer,
    stack: StackAnalyzer,
    func_addrs: Seq<(u64, String)>,
    valid_funcs: Seq<u64>,
    plt: (u64, u64),
) -> bool {
    &&& exists|hr: AnalysisResult<HeapLattice>|
        #![trigger hr.wf()]
        {
            &&& hr.wf()
            &&& is_fixed_point(heap, irmap, cfg.entrypoint, cfg.succs@, state_views(hr.states@))
            &&& exists|fa: &Vec<(u64, String)>|
                fa@ == func_addrs && result_passes(
                    HeapChecker { analyzer: &heap, func_addrs: fa },
                    heap,
                    hr.states@,
                    hr.order@,
                    irmap,
                )
            &&& spec_has_indirect_calls(irmap, hr.order@) ==> calls_safe(
                cfg,
                irmap,
                heap.metadata,
                valid_funcs,
                plt,
            )
        }
    &&& exists|sr: AnalysisResult<StackGrowthLattice>|
        #![trigger sr.wf()]
        {
            &&& sr.wf()
            &&& is_fixed_point(stack, irmap, cfg.entrypoint, cfg.succs@, state_views(sr.states@))
            &&& result_passes(StackChecker { analyzer: &stack }, stack, sr.states@, sr.order@, irmap)
        }
}

/// The heap phase: the heap analysis and its checker. On `Ok`, the fixed
/// point reached, which the checker accepts.
pub fn heap_phase(
    cfg: &Cfg,
    irmap: &IRMap,
    metadata: &CompilerMetadata,
    func_addrs: &Vec<(u64, String)>,
    fuel: u64,
) -> (r: Result<AnalysisResult<HeapLattice>, VerifyError>)
    ensures
        r matches Ok(hr) ==> {
            &&& hr.wf()
            &&& is_fixed_point(HeapAnalyzer { metadata: *metadata }, irmap@, cfg.entrypoint, cfg.succs@, state_views(hr.states@))
            &&& result_passes(
                HeapChecker { analyzer: &HeapAnalyzer { metadata: *metadata }, func_addrs },
                HeapAnalyzer { metadata: *metadata },
                hr.states@,
                hr.order@,
                irmap@,
            )
        },
        r matches Err(e) ==> e == VerifyError::NoFixedPoint || e == VerifyError::HeapUnsafe,
        r == Err::<AnalysisResult<HeapLattice>, VerifyError>(VerifyError::NoFixedPoint) <==> !(run_outcome(
            HeapAnalyzer { metadata: *metadata },
            irmap@,
            cfg.entrypoint,
            cfg.succs@,
            fuel as nat,
        ) is Done),
        r == Err::<AnalysisResult<HeapLattice>, VerifyError>(VerifyError::HeapUnsafe) ==> exists|hr: AnalysisResult<HeapLattice>|
            #![trigger hr.wf()]
            {
                &&& hr.wf()
                &&& is_fixed_point(
                    HeapAnalyzer { metadata: *metadata },
                    irmap@,
                    cfg.entrypoint,
                    cfg.succs@,
                    state_views(hr.states@),
                )
                &&& !result_passes(
                    HeapChecker { analyzer: &HeapAnalyzer { metadata: *metadata }, func_addrs },
                    HeapAnalyzer { metadata: *metadata },
                    hr.states@,
                    hr.order@,
                    irmap@,
                )
            },
{
    let heap_analyzer = HeapAnalyzer { metadata: *metadata };
    let heap_result = match run_worklist(cfg, irmap, &heap_analyzer, fuel) {
        Some(r) => r,
        None => {
            return Err(VerifyError::NoFixedPoint);
        },
    };
    if !check_heap(&heap_result, irmap, &heap_analyzer, func_addrs) {
        assert(heap_result.wf());
        return Err(VerifyError::HeapUnsafe);
    }
    Ok(heap_result)
}

/// The stack phase: the stack analysis and its checker.
pub fn stack_phase(cfg: &Cfg, irmap: &IRMap, metadata: &CompilerMetadata, fuel: u64) -> (r: Result<
    AnalysisResult<StackGrowthLattice>,
    VerifyError,
>)
    ensures
        r matches Ok(sr) ==> {
            &&& sr.wf()
            &&& is_fixed_point(StackAnalyzer { metadata: *metadata }, irmap@, cfg.entrypoint, cfg.succs@, state_views(sr.states@))
            &&& result_passes(
                StackChecker { analyzer: &StackAnalyzer { metadata: *metadata } },
                StackAnalyzer { metadata: *metadata },
                sr.states@,
                sr.order@,
                irmap@,
            )
        },
        r matches Err(e) ==> e == VerifyError::NoFixedPoint || e == VerifyError::StackUnsafe,
        r == Err::<AnalysisResult<StackGrowthLattice>, VerifyError>(VerifyError::NoFixedPoint) <==> !(run_outcome(
            StackAnalyzer { metadata: *metadata },
            irmap@,
            cfg.entrypoint,
            cfg.succs@,
            fuel as nat,
        ) is Done),
        r == Err::<AnalysisResult<StackGrowthLattice>, VerifyError>(VerifyError::StackUnsafe) ==> exists|
            sr: AnalysisResult<StackGrowthLattice>,
        |
            #![trigger sr.wf()]
            {
                &&& sr.wf()
                &&& is_fixed_point(
                    StackAnalyzer { metadata: *metadata },
                    irmap@,
                    cfg.entrypoint,
                    cfg.succs@,
                    state_views(sr.states@),
                )
                &&& !result_passes(
                    StackChecker { analyzer: &StackAnalyzer { metadata: *metadata } },
                    StackAnalyzer { metadata: *metadata },
                    sr.states@,
                    sr.order@,
                    irmap@,
                )
            },
{
    let stack_analyzer = StackAnalyzer { metadata: *metadata };
    let stack_result = match run_worklist(cfg, irmap, &stack_analyzer, fuel) {
        Some(r) => r,
        None => {
            return Err(VerifyError::NoFixedPoint);
        },
    };
    if !check_stack(&stack_result, irmap, &stack_analyzer) {
        assert(stack_result.wf());
        return Err(VerifyError::StackUnsafe);
    }
    Ok(stack_result)
}

/// The call phase, for a function whose reached blocks are `reached`: where
/// one of them makes an indirect call, the reaching-definitions and call
/// analyses and the call checker.
pub fn call_phase(
    cfg: &Cfg,
    irmap: &IRMap,
    metadata: &CompilerMetadata,
    valid_funcs: &Vec<u64>,
    plt: &(u64, u64),
    fuel: u64,
    reached: &Vec<u64>,
) -> (r: Result<(), VerifyError>)
    ensures
        r is Ok ==> (spec_has_indirect_calls(irmap@, reached@) ==> calls_safe(
            *cfg,
            irmap@,
            *metadata,
            valid_funcs@,
            *plt,
        )),
        !spec_has_indirect_calls(irmap@, reached@) ==> r is Ok,
        r matches Err(e) ==> e == VerifyError::NoFixedPoint || e == VerifyError::CallUnsafe,
        r == Err::<(), VerifyError>(VerifyError::NoFixedPoint) ==> {
            ||| !(run_outcome(ReachingDefnAnalyzer {}, irmap@, cfg.entrypoint, cfg.succs@, fuel as nat) is Done)
            ||| exists|ca: CallAnalyzer|
                #![trigger ca.metadata]
                ca.metadata == *metadata && !(run_outcome(ca, irmap@, cfg.entrypoint, cfg.succs@, fuel as nat) is Done)
        },
        r == Err::<(), VerifyError>(VerifyError::CallUnsafe) ==> exists|
            ca: CallAnalyzer,
            cr: AnalysisResult<CallCheckLattice>,
        |
            #![trigger ca.metadata, cr.wf()]
            {
                &&& ca.metadata == *metadata
                &&& cr.wf()
                &&& is_fixed_point(ca, irmap@, cfg.entrypoint, cfg.succs@, state_views(cr.states@))
                &&& !result_passes(
                    CallChecker { analyzer: &ca, funcs: valid_funcs, plt },
                    ca,
                    cr.states@,
                    cr.order@,
                    irmap@,
                )
            },
{
    if !has_indirect_calls(irmap, reached) {
        return Ok(());
    }
    let reaching_defs = match analyze_reaching_defs(cfg, irmap, fuel) {
        Some(r) => r,
        None => {
            return Err(VerifyError::NoFixedPoint);
        },
    };
    let call_analyzer = CallAnalyzer {
        metadata: *metadata,
        reaching_defs,
        reaching_analyzer: ReachingDefnAnalyzer {},
        irmap: irmap.clone(),
    };
    let call_result = match run_worklist(cfg, irmap, &call_analyzer, fuel) {
        Some(r) => r,
        None => {
            return Err(VerifyError::NoFixedPoint);
        },
    };
    if !check_calls(&call_result, irmap, &call_analyzer, valid_funcs, plt) {
        assert(call_result.wf());
        return Err(VerifyError::CallUnsafe);
    }
    proof {
        let vf = valid_funcs;
        let pl = plt;
        assert(call_result.wf());
        assert(calls_safe(*cfg, irmap@, *metadata, valid_funcs@, *plt));
    }
    Ok(())
}

/// Verify one function. `fuel` bounds the block visits of each analysis.
/// On `Ok`, the heap and stack analyses reached fixed points that their
/// checkers accept (and so did the call analysis, where an indirect call is
/// reached); `HeapUnsafe`, `StackUnsafe` and `CallUnsafe` each come with a
/// fixed point of that analysis that its checker rejects; `NoFixedPoint`
/// means one of the analyses (heap, stack, reaching definitions, call) did
/// not end in a fixed point: `run_outcome` says when.
pub fn verify_function(
    cfg: &Cfg,
    irmap: &IRMap,
    metadata: &CompilerMetadata,
    func_addrs: &Vec<(u64, String)>,
    valid_funcs: &Vec<u64>,
    plt: &(u64, u64),
    fuel: u64,
) -> (r: Result<(), VerifyError>)
    ensures
        r == Err::<(), VerifyError>(VerifyError::NoFixedPoint) ==> {
            ||| !(run_outcome(HeapAnalyzer { metadata: *metadata }, irmap@, cfg.entrypoint, cfg.succs@, fuel as nat) is Done)
            ||| !(run_outcome(StackAnalyzer { metadata: *metadata }, irmap@, cfg.entrypoint, cfg.succs@, fuel as nat) is Done)
            ||| !(run_outcome(ReachingDefnAnalyzer {}, irmap@, cfg.entrypoint, cfg.succs@, fuel as nat) is Done)
            ||| exists|ca: CallAnalyzer|
                #![trigger ca.metadata]
                ca.metadata == *metadata && !(run_outcome(ca, irmap@, cfg.entrypoint, cfg.succs@, fuel as nat) is Done)
        },
        r == Err::<(), VerifyError>(VerifyError::HeapUnsafe) ==> exists|hr: AnalysisResult<HeapLattice>|
            #![trigger hr.wf()]
            {
                &&& hr.wf()
                &&& is_fixed_point(
                    HeapAnalyzer { metadata: *metadata },
                    irmap@,
                    cfg.entrypoint,
                    cfg.succs@,
                    state_views(hr.states@),
                )
                &&& !result_passes(
                    HeapChecker { analyzer: &HeapAnalyzer { metadata: *metadata }, func_addrs },
                    HeapAnalyzer { metadata: *metadata },
                    hr.states@,
                    hr.order@,
                    irmap@,
                )
            },
        r == Err::<(), VerifyError>(VerifyError::StackUnsafe) ==> exists|
            sr: AnalysisResult<StackGrowthLattice>,
        |
            #![trigger sr.wf()]
            {
                &&& sr.wf()
                &&& is_fixed_point(
                    StackAnalyzer { metadata: *metadata },
                    irmap@,
                    cfg.entrypoint,
                    cfg.succs@,
                    state_views(sr.states@),
                )
                &&& !result_passes(
                    StackChecker { analyzer: &StackAnalyzer { metadata: *metadata } },
                    StackAnalyzer { metadata: *metadata },
                    sr.states@,
                    sr.order@,
                    irmap@,
                )
            },
        r == Err::<(), VerifyError>(VerifyError::CallUnsafe) ==> exists|
            ca: CallAnalyzer,
            cr: AnalysisResult<CallCheckLattice>,
        |
            #![trigger ca.metadata, cr.wf()]
            {
                &&& ca.metadata == *metadata
                &&& cr.wf()
                &&& is_fixed_point(ca, irmap@, cfg.entrypoint, cfg.succs@, state_views(cr.states@))
                &&& !result_passes(
                    CallChecker { analyzer: &ca, funcs: valid_funcs, plt },
                    ca,
                    cr.states@,
                    cr.order@,
                    irmap@,
                )
            },
        r is Ok ==> function_safe(
            *cfg,
            irmap@,
            HeapAnalyzer { metadata: *metadata },
            StackAnalyzer { metadata: *metadata },
            func_addrs@,
            valid_funcs@,
            *plt,
        ),
{
    let heap_result = match heap_phase(cfg, irmap, metadata, func_addrs, fuel) {
        Ok(hr) => hr,
        Err(e) => {
            return Err(e);
        },
    };
    let stack_result = match stack_phase(cfg, irmap, metadata, fuel) {
        Ok(sr) => sr,
        Err(e) => {
            return Err(e);
        },
    };
    match call_phase(cfg, irmap, metadata, valid_funcs, plt, fuel, &heap_result.order) {
        Ok(()) => {},
        Err(e) => {
            return Err(e);
        },
    }
    proof {
        let fa = func_addrs;
        assert(heap_result.wf());
        assert(stack_result.wf());
    }
    Ok(())
}

} // verus!
