use std::collections::HashMap;
use veriwasm::analysis::{analyze_block, run_worklist, AnalysisResult, Cfg, IRMap};
use veriwasm::call_analyzer::CallAnalyzer;
use veriwasm::calllattice::{CallCheckLattice, CallCheckValue, DAV};
use veriwasm::heap_analyzer::{HeapAnalyzer, HeapLattice};
use veriwasm::heap_checker::check_heap;
use veriwasm::heaplattice::HeapValue;
use veriwasm::ir::{
    Binopcode, ImmType, IRInstr, JumpKind, MemArg, MemArgs, Stmt, Unopcode, ValSize, Value,
};
use veriwasm::analysis::AbstractAnalyzer;
use veriwasm::lattice::{ConstLattice, Lattice, LocIdx};
use veriwasm::metadata::{Compiler, CompilerMetadata};
use veriwasm::pipeline::{verify_function, VerifyError};
use veriwasm::reach::ReachLattice;
use veriwasm::reaching_defs::{analyze_reaching_defs, ReachState, ReachingDefnAnalyzer};
use veriwasm::varstate::VariableState;
use veriwasm::stack_analyzer::StackAnalyzer;
use veriwasm::stackgrowth::StackGrowthLattice;

const FUEL: u64 = 10_000;
const GUEST_TABLE_0: u64 = 0x50_0000;
const LUCET_TABLES: u64 = 0x60_0000;

fn lucet() -> CompilerMetadata {
    CompilerMetadata {
        compiler: Compiler::Lucet,
        guest_table_0: GUEST_TABLE_0,
        lucet_tables: LUCET_TABLES,
        lucet_probestack: 0x70_0000,
        globals_size: 0,
    }
}

fn wamr() -> CompilerMetadata {
    CompilerMetadata {
        compiler: Compiler::Wamr,
        guest_table_0: 0,
        lucet_tables: 0,
        lucet_probestack: 0,
        globals_size: 64,
    }
}

fn r64(n: u8) -> Value {
    Value::Reg(n, ValSize::Size64)
}

fn r32(n: u8) -> Value {
    Value::Reg(n, ValSize::Size32)
}

fn imm(x: i64) -> Value {
    Value::Imm(ImmType::Signed, ValSize::Size64, x)
}

fn mov(dst: Value, src: Value) -> Stmt {
    Stmt::Unop(Unopcode::Mov, dst, src)
}

fn reg_disp(n: u8, d: i64) -> MemArgs {
    MemArgs::Mem2Args(MemArg::Reg(n, ValSize::Size64), MemArg::Imm(ImmType::Signed, ValSize::Size32, d))
}

fn at_rsp() -> Value {
    Value::Mem(ValSize::Size64, MemArgs::Mem1Arg(MemArg::Reg(4, ValSize::Size64)))
}

/// One block per entry, each instruction lifted to the statements given.
fn function(blocks: Vec<(u64, Vec<Vec<Stmt>>, Vec<u64>)>) -> (Cfg, IRMap) {
    let entry = blocks[0].0;
    let mut irmap: IRMap = HashMap::new();
    let mut succs: HashMap<u64, Vec<u64>> = HashMap::new();
    for (addr, instrs, next) in blocks {
        let mut block = Vec::new();
        for (i, stmts) in instrs.into_iter().enumerate() {
            block.push(IRInstr { addr: addr + 4 * i as u64, stmts });
        }
        irmap.insert(addr, block);
        succs.insert(addr, next);
    }
    (Cfg { entrypoint: entry, succs }, irmap)
}

fn run(md: CompilerMetadata, cfg: &Cfg, irmap: &IRMap) -> Result<(), VerifyError> {
    let funcs: Vec<(u64, String)> = vec![(0x1000, "f".to_string())];
    let valid: Vec<u64> = vec![0x1000];
    verify_function(cfg, irmap, &md, &funcs, &valid, &(0, 0), FUEL)
}

fn heap_load(index_move: Stmt) -> (Cfg, IRMap) {
    function(vec![(
        0x1000,
        vec![
            vec![mov(r64(7), r64(7))],
            vec![index_move],
            vec![mov(
                r64(3),
                Value::Mem(
                    ValSize::Size64,
                    MemArgs::Mem2Args(MemArg::Reg(7, ValSize::Size64), MemArg::Reg(0, ValSize::Size64)),
                ),
            )],
            vec![Stmt::Ret],
        ],
        vec![],
    )])
}

#[test]
fn lucet_heap_load() {
    let (cfg, irmap) = heap_load(mov(r32(0), r32(1)));
    assert_eq!(run(lucet(), &cfg, &irmap), Ok(()));
}

#[test]
fn lucet_heap_load_64bit_index() {
    let (cfg, irmap) = heap_load(mov(r64(0), r64(1)));
    assert_eq!(run(lucet(), &cfg, &irmap), Err(VerifyError::HeapUnsafe));
}

fn indirect_call(shift_reg: u8) -> (Cfg, IRMap) {
    let table_size =
        Value::Mem(ValSize::Size64, reg_disp(6, 8));
    let fn_ptr = Value::Mem(
        ValSize::Size64,
        MemArgs::Mem3Args(
            MemArg::Reg(2, ValSize::Size64),
            MemArg::Reg(shift_reg, ValSize::Size64),
            MemArg::Imm(ImmType::Signed, ValSize::Size32, 8),
        ),
    );
    function(vec![
        (
            0x100,
            vec![
                vec![mov(r64(6), imm(LUCET_TABLES as i64))],
                vec![mov(r64(2), imm(GUEST_TABLE_0 as i64))],
                vec![Stmt::Binop(Binopcode::Cmp, r64(1), r64(1), table_size)],
                vec![Stmt::Branch(JumpKind::Jnb, imm(0x300))],
            ],
            vec![0x300, 0x200],
        ),
        (
            0x200,
            vec![
                vec![Stmt::Binop(Binopcode::Shl, r64(1), r64(1), imm(4))],
                vec![mov(r64(0), fn_ptr)],
                vec![Stmt::Call(r64(0))],
                vec![Stmt::Ret],
            ],
            vec![],
        ),
        (0x300, vec![vec![Stmt::Undefined]], vec![]),
    ])
}

#[test]
fn lucet_indirect_call_checked() {
    let (cfg, irmap) = indirect_call(1);
    assert_eq!(run(lucet(), &cfg, &irmap), Ok(()));
}

#[test]
fn lucet_indirect_call_unchecked_rejected() {
    // the offset is built from rbx, which was never compared
    let (cfg, mut irmap) = indirect_call(1);
    let block = irmap.get_mut(&0x200).unwrap();
    block[0].stmts = vec![Stmt::Binop(Binopcode::Shl, r64(1), r64(3), imm(4))];
    assert_eq!(run(lucet(), &cfg, &irmap), Err(VerifyError::CallUnsafe));
}

#[test]
fn lucet_stack_probe_respected() {
    let (cfg, irmap) = function(vec![(
        0x1000,
        vec![
            vec![Stmt::ProbeStack(0x3000)],
            vec![Stmt::Binop(Binopcode::Sub, r64(4), r64(4), imm(8))],
            vec![Stmt::Binop(Binopcode::Add, r64(4), r64(4), imm(0x3008))],
            vec![Stmt::Ret],
        ],
        vec![],
    )]);
    assert_eq!(run(lucet(), &cfg, &irmap), Ok(()));
    let a = StackAnalyzer { metadata: lucet() };
    let mut s = a.init_state();
    assert!(!a.step(&mut s, &Stmt::ProbeStack(0x3000)));
    assert!(!a.step(&mut s, &Stmt::Binop(Binopcode::Sub, r64(4), r64(4), imm(8))));
    assert_eq!(s.get_stackgrowth(), Some(-0x3008));
    assert_eq!(s.get_probestack(), Some(0x4000));
}

#[test]
fn lucet_stack_probe_skipped() {
    let (cfg, irmap) = function(vec![(
        0x1000,
        vec![
            vec![Stmt::Binop(Binopcode::Sub, r64(4), r64(4), imm(0x5000))],
            vec![Stmt::Binop(Binopcode::Add, r64(4), r64(4), imm(0x5000))],
            vec![Stmt::Ret],
        ],
        vec![],
    )]);
    assert_eq!(run(lucet(), &cfg, &irmap), Err(VerifyError::StackUnsafe));
    let a = StackAnalyzer { metadata: lucet() };
    let mut s = a.init_state();
    assert!(a.step(&mut s, &Stmt::Binop(Binopcode::Sub, r64(4), r64(4), imm(0x5000))));
    assert!(s == StackGrowthLattice { v: None });
}

fn wamr_store(index_move: Stmt) -> bool {
    let (cfg, irmap) = function(vec![(
        0x1000,
        vec![
            vec![mov(r64(0), Value::Mem(ValSize::Size64, reg_disp(7, 0x10)))],
            vec![mov(r64(3), Value::Mem(ValSize::Size64, reg_disp(0, 0x150)))],
            vec![index_move],
            vec![mov(
                Value::Mem(
                    ValSize::Size32,
                    MemArgs::Mem2Args(MemArg::Reg(3, ValSize::Size64), MemArg::Reg(1, ValSize::Size64)),
                ),
                imm(0),
            )],
            vec![Stmt::Ret],
        ],
        vec![],
    )]);
    let a = HeapAnalyzer { metadata: wamr() };
    let result = run_worklist(&cfg, &irmap, &a, FUEL).unwrap();
    check_heap(&result, &irmap, &a, &vec![])
}

#[test]
fn wamr_heap_store() {
    assert!(wamr_store(mov(r32(1), r32(6))));
    assert!(!wamr_store(mov(r64(1), r64(6))));
}

fn callee_saved(with_pop: bool) -> (Cfg, IRMap) {
    let mut instrs = vec![
        vec![
            Stmt::Binop(Binopcode::Sub, r64(4), r64(4), imm(8)),
            mov(at_rsp(), r64(3)),
        ],
        vec![mov(r64(3), imm(0))],
    ];
    if with_pop {
        instrs.push(vec![mov(r64(3), at_rsp()), Stmt::Binop(Binopcode::Add, r64(4), r64(4), imm(8))]);
    }
    instrs.push(vec![Stmt::Ret]);
    function(vec![(0x1000, instrs, vec![])])
}

#[test]
fn wamr_callee_saved_discipline() {
    let (cfg, irmap) = callee_saved(true);
    assert_eq!(run(wamr(), &cfg, &irmap), Ok(()));
    let (cfg, irmap) = callee_saved(false);
    assert_eq!(run(wamr(), &cfg, &irmap), Err(VerifyError::StackUnsafe));
}

#[test]
fn wamr_push_records_saved_register() {
    let a = StackAnalyzer { metadata: wamr() };
    let mut s = a.init_state();
    assert!(!a.step(&mut s, &Stmt::Binop(Binopcode::Sub, r64(4), r64(4), imm(8))));
    assert!(!a.step(&mut s, &mov(at_rsp(), r64(3))));
    let mut saved = HashMap::new();
    saved.insert(3u8, -8i64);
    assert!(s == StackGrowthLattice { v: Some((-8, 4096, saved)) });
    // a second push of the same register is fatal
    assert!(a.step(&mut s.clone(), &mov(at_rsp(), r64(3))));
    // popping at the same offset restores the entry record
    assert!(!a.step(&mut s, &mov(r64(3), at_rsp())));
    assert!(!a.step(&mut s, &Stmt::Binop(Binopcode::Add, r64(4), r64(4), imm(8))));
    assert!(s == StackGrowthLattice { v: Some((0, 4096, HashMap::new())) });
}

#[test]
fn wamr_pop_at_other_offset_is_fatal() {
    let a = StackAnalyzer { metadata: wamr() };
    let mut s = a.init_state();
    assert!(!a.step(&mut s, &Stmt::Binop(Binopcode::Sub, r64(4), r64(4), imm(8))));
    assert!(!a.step(&mut s, &mov(at_rsp(), r64(3))));
    assert!(!a.step(&mut s, &Stmt::Binop(Binopcode::Sub, r64(4), r64(4), imm(8))));
    assert!(a.step(&mut s, &mov(r64(3), at_rsp())));
}

#[test]
fn no_fixed_point_within_budget() {
    let (cfg, irmap) = heap_load(mov(r32(0), r32(1)));
    let funcs: Vec<(u64, String)> = vec![];
    let r = verify_function(&cfg, &irmap, &lucet(), &funcs, &vec![], &(0, 0), 0);
    assert_eq!(r, Err(VerifyError::NoFixedPoint));
}

#[test]
fn missing_block_has_no_fixed_point() {
    let (mut cfg, irmap) = heap_load(mov(r32(0), r32(1)));
    cfg.succs.insert(0x1000, vec![0x9999]);
    let a = HeapAnalyzer { metadata: lucet() };
    assert!(run_worklist(&cfg, &irmap, &a, FUEL).is_none());
}

#[test]
fn lucet_call_needs_heap_base_in_rdi() {
    let (cfg, irmap) = function(vec![(
        0x1000,
        vec![vec![mov(r64(7), imm(-1))], vec![Stmt::Call(imm(0x10))], vec![Stmt::Ret]],
        vec![],
    )]);
    assert_eq!(run(lucet(), &cfg, &irmap), Err(VerifyError::HeapUnsafe));
}

#[test]
fn fixed_point_over_a_loop() {
    // 0x10: rax = 1 ; loop 0x20: rax = rax + 1 ; back to 0x20 or exit to 0x30
    let (cfg, irmap) = function(vec![
        (0x10, vec![vec![mov(r64(0), imm(1))]], vec![0x20]),
        (
            0x20,
            vec![vec![Stmt::Binop(Binopcode::Add, r64(0), r64(0), imm(1))]],
            vec![0x20, 0x30],
        ),
        (0x30, vec![vec![Stmt::Ret]], vec![]),
    ]);
    let a = HeapAnalyzer { metadata: lucet() };
    let result = run_worklist(&cfg, &irmap, &a, FUEL).unwrap();
    assert_eq!(result.order, vec![0x10, 0x20, 0x30]);
    // entering the loop, rax is a bounded immediate; around it, unknown
    let head: &HeapLattice = result.states.get(&0x20).unwrap();
    assert!(head.regs.get(&0, &ValSize::Size64).v.is_none());
    let exit = result.states.get(&0x30).unwrap();
    assert!(exit.regs.get(&0, &ValSize::Size64).v.is_none());
    assert_eq!(exit.regs.get(&7, &ValSize::Size64).v, Some(HeapValue::HeapBase));
    let defs = analyze_reaching_defs(&cfg, &irmap, FUEL).unwrap();
    // at the loop head both definitions of rax reach; at the exit only the
    // one inside the loop
    let at_head = defs.states.get(&0x20).unwrap();
    let rax = at_head.regs.get(&0, &ValSize::Size64);
    assert!(rax.contains(&LocIdx { addr: 0x10, idx: 0 }));
    assert!(rax.contains(&LocIdx { addr: 0x20, idx: 0 }));
    let at_exit = defs.states.get(&0x30).unwrap();
    let rax = at_exit.regs.get(&0, &ValSize::Size64);
    assert!(!rax.contains(&LocIdx { addr: 0x10, idx: 0 }));
    assert!(rax.contains(&LocIdx { addr: 0x20, idx: 0 }));
}

#[test]
fn thirty_two_bit_write_is_bounded() {
    let a = HeapAnalyzer { metadata: lucet() };
    let mut s = a.init_state();
    a.aexec(&mut s, &mov(r32(0), Value::Mem(ValSize::Size32, reg_disp(9, 0x40))), &LocIdx { addr: 0, idx: 0 });
    assert_eq!(s.regs.get(&0, &ValSize::Size64).v, Some(HeapValue::Bounded4GB));
    a.aexec(&mut s, &Stmt::Binop(Binopcode::Add, r32(1), r32(1), r32(2)), &LocIdx { addr: 4, idx: 0 });
    assert_eq!(s.regs.get(&1, &ValSize::Size64).v, Some(HeapValue::Bounded4GB));
    a.aexec(&mut s, &mov(Value::Reg(2, ValSize::Size8), r64(9)), &LocIdx { addr: 8, idx: 0 });
    assert_eq!(s.regs.get(&2, &ValSize::Size64).v, Some(HeapValue::Bounded256B));
    // a 64-bit write of an unknown value stays unknown
    a.aexec(&mut s, &mov(r64(1), r64(9)), &LocIdx { addr: 12, idx: 0 });
    assert!(s.regs.get(&1, &ValSize::Size64).v.is_none());
}

#[test]
fn wamr_metadata_chain() {
    let a = HeapAnalyzer { metadata: wamr() };
    let mut s = a.init_state();
    let loc = LocIdx { addr: 0, idx: 0 };
    a.aexec(&mut s, &mov(r64(0), Value::Mem(ValSize::Size64, reg_disp(7, 0x10))), &loc);
    assert_eq!(s.regs.get(&0, &ValSize::Size64).v, Some(HeapValue::WamrModuleInstance));
    a.aexec(&mut s, &mov(r64(1), Value::Mem(ValSize::Size64, reg_disp(0, 0x28))), &loc);
    assert_eq!(s.regs.get(&1, &ValSize::Size64).v, Some(HeapValue::WamrFuncPtrsTable));
    a.aexec(&mut s, &mov(r64(2), Value::Mem(ValSize::Size64, reg_disp(0, 0x30))), &loc);
    assert_eq!(s.regs.get(&2, &ValSize::Size64).v, Some(HeapValue::WamrFuncTypeTable));
    a.aexec(&mut s, &mov(r64(3), Value::Mem(ValSize::Size64, reg_disp(7, 0x18))), &loc);
    assert_eq!(s.regs.get(&3, &ValSize::Size64).v, Some(HeapValue::GlobalsBase));
}

#[test]
fn stack_slots_round_trip() {
    let a = HeapAnalyzer { metadata: lucet() };
    let mut s = a.init_state();
    let loc = LocIdx { addr: 0, idx: 0 };
    let slot = Value::Mem(
        ValSize::Size64,
        MemArgs::Mem2Args(MemArg::Reg(4, ValSize::Size64), MemArg::Imm(ImmType::Signed, ValSize::Size32, -16)),
    );
    a.aexec(&mut s, &mov(slot, r64(7)), &loc);
    a.aexec(&mut s, &mov(r64(7), imm(-1)), &loc);
    a.aexec(&mut s, &Stmt::Call(imm(0x10)), &loc);
    assert!(s.regs.get(&7, &ValSize::Size64).v.is_none());
    a.aexec(&mut s, &mov(r64(7), slot), &loc);
    assert_eq!(s.regs.get(&7, &ValSize::Size64).v, Some(HeapValue::HeapBase));
    // after rsp moves down by 8, the same slot is 8 bytes further away
    a.aexec(&mut s, &Stmt::Binop(Binopcode::Sub, r64(4), r64(4), imm(8)), &loc);
    let moved = Value::Mem(
        ValSize::Size64,
        MemArgs::Mem2Args(MemArg::Reg(4, ValSize::Size64), MemArg::Imm(ImmType::Signed, ValSize::Size32, -8)),
    );
    assert_eq!(s.get(&moved).unwrap().v, Some(HeapValue::HeapBase));
    // an overlapping 4-byte write forgets the slot
    let overlap = Value::Mem(
        ValSize::Size32,
        MemArgs::Mem2Args(MemArg::Reg(4, ValSize::Size64), MemArg::Imm(ImmType::Signed, ValSize::Size32, -4)),
    );
    a.aexec(&mut s, &mov(overlap, imm(0)), &loc);
    assert!(s.get(&moved).unwrap().v.is_none());
}

fn call_analyzer_for(cfg: &Cfg, irmap: &IRMap) -> CallAnalyzer {
    CallAnalyzer {
        metadata: lucet(),
        reaching_defs: analyze_reaching_defs(cfg, irmap, FUEL).unwrap(),
        reaching_analyzer: ReachingDefnAnalyzer {},
        irmap: irmap.clone(),
    }
}

#[test]
fn check_propagates_to_registers_with_the_same_definitions() {
    // block 0x100 ends in a comparison of rcx against the table size
    let (cfg, irmap) = function(vec![
        (
            0x100,
            vec![
                vec![Stmt::Binop(
                    Binopcode::Cmp,
                    Value::Reg(16, ValSize::Size8),
                    r64(1),
                    Value::Mem(ValSize::Size64, reg_disp(6, 8)),
                )],
                vec![Stmt::Branch(JumpKind::Jnb, imm(0x300))],
            ],
            vec![0x300, 0x200],
        ),
        (0x200, vec![vec![Stmt::Ret]], vec![]),
        (0x300, vec![vec![Stmt::Ret]], vec![]),
    ]);
    // on entry, rcx and rdx hold the value defined at one site, rbx another
    let site = LocIdx { addr: 0x50, idx: 0 };
    let mut entry: ReachState = VariableState::new();
    entry.regs.set(&1, &ValSize::Size64, ReachLattice::singleton(site));
    entry.regs.set(&2, &ValSize::Size64, ReachLattice::singleton(site));
    entry.regs.set(&3, &ValSize::Size64, ReachLattice::singleton(LocIdx { addr: 0x60, idx: 0 }));
    let mut states = HashMap::new();
    states.insert(0x100u64, entry);
    let a = CallAnalyzer {
        metadata: lucet(),
        reaching_defs: AnalysisResult { states, order: vec![0x100] },
        reaching_analyzer: ReachingDefnAnalyzer {},
        irmap: irmap.clone(),
    };
    let mut out: CallCheckLattice = VariableState::new();
    out.regs.set(&16, &ValSize::Size64, ConstLattice::new(CallCheckValue::CheckFlag(0, 1)));
    let edges = a.process_branch(&irmap, &out, &vec![0x300, 0x200], &0x100);
    assert_eq!(edges.len(), 2);
    assert_eq!(edges[0].0, 0x300);
    assert_eq!(edges[1].0, 0x200);
    let taken = &edges[1].1;
    assert!(matches!(taken.regs.get(&1, &ValSize::Size64).v, Some(CallCheckValue::CheckedVal)));
    assert!(matches!(taken.regs.get(&2, &ValSize::Size64).v, Some(CallCheckValue::CheckedVal)));
    assert!(taken.regs.get(&3, &ValSize::Size64).v.is_none());
    assert!(taken.regs.get(&16, &ValSize::Size64).v.is_none());
    let other = &edges[0].1;
    assert!(other.regs.get(&1, &ValSize::Size64).v.is_none());
    assert!(other.regs.get(&2, &ValSize::Size64).v.is_none());
    assert!(other.regs.get(&16, &ValSize::Size64).v.is_none());
    let _ = cfg;
}

#[test]
fn wamr_check_sets_the_compared_bound() {
    let mut md = wamr();
    md.globals_size = 64;
    let (_cfg, irmap) = function(vec![(0x100, vec![vec![Stmt::Ret]], vec![])]);
    let a = CallAnalyzer {
        metadata: md,
        reaching_defs: AnalysisResult { states: HashMap::new(), order: vec![] },
        reaching_analyzer: ReachingDefnAnalyzer {},
        irmap: irmap.clone(),
    };
    let mut s: CallCheckLattice = a.init_state();
    a.aexec(&mut s, &Stmt::Binop(Binopcode::Cmp, r64(1), r64(1), imm(12)), &LocIdx { addr: 0x100, idx: 0 });
    assert!(matches!(s.regs.get(&16, &ValSize::Size64).v, Some(CallCheckValue::CheckFlag(12, 1))));
    let edges = a.process_branch(&irmap, &s, &vec![0x200, 0x300], &0x100);
    // WAMR: the first successor is the equality-taken edge
    assert!(matches!(edges[0].1.regs.get(&1, &ValSize::Size64).v, Some(CallCheckValue::WamrChecked(12))));
    assert!(edges[1].1.regs.get(&1, &ValSize::Size64).v.is_none());
}

#[test]
fn unchecked_offset_remembers_definitions() {
    let (cfg, irmap) = function(vec![(
        0x100,
        vec![
            vec![mov(r64(3), imm(1))],
            vec![Stmt::Binop(Binopcode::Shl, r64(1), r64(3), imm(4))],
            vec![Stmt::Ret],
        ],
        vec![],
    )]);
    let a = call_analyzer_for(&cfg, &irmap);
    let result = run_worklist(&cfg, &irmap, &a, FUEL).unwrap();
    let mut s = result.states.get(&0x100).unwrap().duplicate();
    a.aexec(&mut s, &mov(r64(3), imm(1)), &LocIdx { addr: 0x100, idx: 0 });
    a.aexec(&mut s, &Stmt::Binop(Binopcode::Shl, r64(1), r64(3), imm(4)), &LocIdx { addr: 0x104, idx: 0 });
    match s.regs.get(&1, &ValSize::Size64).v {
        Some(CallCheckValue::PtrOffset(DAV::Unchecked(d))) => {
            assert!(d.contains(&LocIdx { addr: 0x100, idx: 0 }));
            assert!(!d.contains(&LocIdx { addr: 0x104, idx: 0 }));
        },
        other => panic!("unexpected {:?}", other),
    }
    let checked = ConstLattice::new(CallCheckValue::PtrOffset(DAV::Checked));
    assert!(matches!(checked.v, Some(CallCheckValue::PtrOffset(DAV::Checked))));
    let _ = ReachLattice::bot();
}

#[test]
fn fixed_point_respects_every_edge() {
    let (cfg, irmap) = function(vec![
        (0x10, vec![vec![mov(r64(0), imm(1))], vec![mov(r32(1), r32(2))]], vec![0x20]),
        (
            0x20,
            vec![
                vec![Stmt::Binop(Binopcode::Add, r64(0), r64(0), imm(1))],
                vec![mov(r64(3), r64(7))],
            ],
            vec![0x20, 0x30],
        ),
        (0x30, vec![vec![Stmt::Ret]], vec![]),
    ]);
    let a = HeapAnalyzer { metadata: lucet() };
    let result = run_worklist(&cfg, &irmap, &a, FUEL).unwrap();
    for b in &result.order {
        let entry = result.states.get(b).unwrap();
        let out = analyze_block(&a, entry, irmap.get(b).unwrap());
        let edges = a.process_branch(&irmap, &out, cfg.succs.get(b).unwrap(), b);
        for (s, st) in edges.iter() {
            let at_s = result.states.get(s).unwrap();
            // the entry state of s lies below what the edge hands it
            assert!(at_s.meet(st, &LocIdx { addr: *s, idx: 0 }).same(at_s));
        }
    }
}

#[test]
fn narrow_rsp_write_resets_stack_state() {
    let a = StackAnalyzer { metadata: lucet() };
    let mut s = a.init_state();
    assert!(!a.step(&mut s, &Stmt::Binop(Binopcode::Sub, r64(4), r64(4), imm(8))));
    assert_eq!(s.get_stackgrowth(), Some(-8));
    assert!(!a.step(&mut s, &mov(r32(4), r32(1))));
    assert_eq!(s.get_stackgrowth(), Some(0));
    assert!(!a.step(&mut s, &Stmt::Binop(Binopcode::Sub, r64(4), r64(4), imm(16))));
    assert!(!a.step(&mut s, &Stmt::Binop(Binopcode::Add, Value::Reg(4, ValSize::Size16), Value::Reg(4, ValSize::Size16), imm(2))));
    assert_eq!(s.get_stackgrowth(), Some(0));
}

#[test]
fn heap_base_may_be_second_operand() {
    let (cfg, irmap) = function(vec![(
        0x1000,
        vec![
            vec![mov(r32(0), r32(1))],
            vec![mov(
                r64(3),
                Value::Mem(
                    ValSize::Size64,
                    MemArgs::Mem2Args(MemArg::Reg(0, ValSize::Size64), MemArg::Reg(7, ValSize::Size64)),
                ),
            )],
            vec![Stmt::Ret],
        ],
        vec![],
    )]);
    assert_eq!(run(lucet(), &cfg, &irmap), Ok(()));
}

#[test]
fn check_reaches_r15() {
    let (_cfg, irmap) = function(vec![
        (0x100, vec![vec![Stmt::Branch(JumpKind::Jnb, imm(0x300))]], vec![0x300, 0x200]),
        (0x200, vec![vec![Stmt::Ret]], vec![]),
        (0x300, vec![vec![Stmt::Ret]], vec![]),
    ]);
    let site = LocIdx { addr: 0x50, idx: 0 };
    let mut entry: ReachState = VariableState::new();
    entry.regs.set(&1, &ValSize::Size64, ReachLattice::singleton(site));
    entry.regs.set(&15, &ValSize::Size64, ReachLattice::singleton(site));
    let mut states = HashMap::new();
    states.insert(0x100u64, entry);
    let a = CallAnalyzer {
        metadata: lucet(),
        reaching_defs: AnalysisResult { states, order: vec![0x100] },
        reaching_analyzer: ReachingDefnAnalyzer {},
        irmap: irmap.clone(),
    };
    let mut out: CallCheckLattice = VariableState::new();
    out.regs.set(&16, &ValSize::Size64, ConstLattice::new(CallCheckValue::CheckFlag(0, 1)));
    let edges = a.process_branch(&irmap, &out, &vec![0x300, 0x200], &0x100);
    assert!(matches!(edges[1].1.regs.get(&15, &ValSize::Size64).v, Some(CallCheckValue::CheckedVal)));
}
