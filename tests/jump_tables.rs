use std::collections::HashMap;
use veriwasm::analysis::{run_worklist, Cfg, IRMap};
use veriwasm::ir::{Binopcode, ImmType, IRInstr, JumpKind, MemArg, MemArgs, Stmt, Unopcode, ValSize, Value};
use veriwasm::jump_resolver::{extract_jmp_targets, load_target, resolve_jumps};
use veriwasm::metadata::{Compiler, CompilerMetadata};
use veriwasm::switch_analyzer::{SwitchAnalyzer, SwitchValue};
use yaxpeax_core::memory::repr::process::ModuleData;

/// A minimal little-endian ELF64 executable with one loadable segment
/// holding `data` at virtual address `vaddr`.
fn elf_with(vaddr: u64, data: &[u8]) -> ModuleData {
    let mut f: Vec<u8> = Vec::new();
    f.extend_from_slice(&[0x7f, b'E', b'L', b'F', 2, 1, 1, 0]);
    f.extend_from_slice(&[0; 8]);
    f.extend_from_slice(&2u16.to_le_bytes()); // executable
    f.extend_from_slice(&0x3eu16.to_le_bytes()); // x86-64
    f.extend_from_slice(&1u32.to_le_bytes());
    f.extend_from_slice(&vaddr.to_le_bytes()); // entry
    f.extend_from_slice(&64u64.to_le_bytes()); // program headers
    f.extend_from_slice(&0u64.to_le_bytes()); // no section headers
    f.extend_from_slice(&0u32.to_le_bytes());
    f.extend_from_slice(&64u16.to_le_bytes());
    f.extend_from_slice(&56u16.to_le_bytes());
    f.extend_from_slice(&1u16.to_le_bytes());
    f.extend_from_slice(&64u16.to_le_bytes());
    f.extend_from_slice(&0u16.to_le_bytes());
    f.extend_from_slice(&0u16.to_le_bytes());
    f.extend_from_slice(&1u32.to_le_bytes()); // loadable
    f.extend_from_slice(&5u32.to_le_bytes());
    f.extend_from_slice(&120u64.to_le_bytes());
    f.extend_from_slice(&vaddr.to_le_bytes());
    f.extend_from_slice(&vaddr.to_le_bytes());
    f.extend_from_slice(&(data.len() as u64).to_le_bytes());
    f.extend_from_slice(&(data.len() as u64).to_le_bytes());
    f.extend_from_slice(&0x1000u64.to_le_bytes());
    assert_eq!(f.len(), 120);
    f.extend_from_slice(data);
    ModuleData::load_from(&f, "table".to_string()).expect("a loadable module")
}

#[test]
fn lucet_table_entries_are_relative() {
    let mut table = Vec::new();
    table.extend_from_slice(&0x10u32.to_le_bytes());
    table.extend_from_slice(&(-16i32).to_le_bytes());
    let program = elf_with(0x1000, &table);
    assert_eq!(load_target(&program, 0x1000), Some(0x10));
    assert_eq!(load_target(&program, 0x1004), Some(0xffff_fff0));
    assert_eq!(load_target(&program, 0x2000), None);
    let targets = extract_jmp_targets(&program, 0x1000, 2, Compiler::Lucet).unwrap();
    assert_eq!(targets, vec![0x1010, 0xff0]);
    assert_eq!(extract_jmp_targets(&program, 0x1000, 3, Compiler::Lucet), None);
}

#[test]
fn wamr_table_entries_are_absolute() {
    let mut table = Vec::new();
    table.extend_from_slice(&0x4000_1234u64.to_le_bytes());
    table.extend_from_slice(&0x4000_5678u64.to_le_bytes());
    let program = elf_with(0x1000, &table);
    let targets = extract_jmp_targets(&program, 0x1000, 2, Compiler::Wamr).unwrap();
    assert_eq!(targets, vec![0x4000_1234, 0x4000_5678]);
}

fn reg(n: u8) -> Value {
    Value::Reg(n, ValSize::Size64)
}

fn imm(x: i64) -> Value {
    Value::Imm(ImmType::Signed, ValSize::Size64, x)
}

fn block(addr: u64, stmts: Vec<Stmt>) -> Vec<IRInstr> {
    stmts
        .into_iter()
        .enumerate()
        .map(|(i, s)| IRInstr { addr: addr + 4 * i as u64, stmts: vec![s] })
        .collect()
}

fn switch_function(entry_index_reg: u8) -> (Cfg, IRMap) {
    let mut irmap: IRMap = HashMap::new();
    irmap.insert(
        0x100,
        block(
            0x100,
            vec![
                Stmt::Binop(Binopcode::Cmp, reg(1), reg(1), imm(2)),
                Stmt::Branch(JumpKind::Ja, imm(0x300)),
            ],
        ),
    );
    irmap.insert(
        0x200,
        block(
            0x200,
            vec![
                Stmt::Unop(Unopcode::Mov, reg(0), imm(0x1000)),
                Stmt::Unop(
                    Unopcode::Mov,
                    reg(2),
                    Value::Mem(
                        ValSize::Size32,
                        MemArgs::MemScale(
                            MemArg::Reg(0, ValSize::Size64),
                            MemArg::Reg(entry_index_reg, ValSize::Size64),
                            MemArg::Imm(ImmType::Unsigned, ValSize::Size32, 4),
                        ),
                    ),
                ),
                Stmt::Binop(Binopcode::Add, reg(2), reg(2), reg(0)),
                Stmt::Branch(JumpKind::Jmp, reg(2)),
            ],
        ),
    );
    irmap.insert(0x300, block(0x300, vec![Stmt::Ret]));
    let mut succs = HashMap::new();
    succs.insert(0x100u64, vec![0x200u64, 0x300]);
    succs.insert(0x200, vec![]);
    succs.insert(0x300, vec![]);
    (Cfg { entrypoint: 0x100, succs }, irmap)
}

fn lucet() -> CompilerMetadata {
    CompilerMetadata {
        compiler: Compiler::Lucet,
        guest_table_0: 0,
        lucet_tables: 0,
        lucet_probestack: 0,
        globals_size: 0,
    }
}

#[test]
fn switch_table_is_resolved() {
    let (cfg, irmap) = switch_function(1);
    let analyzer = SwitchAnalyzer { metadata: lucet() };
    let result = run_worklist(&cfg, &irmap, &analyzer, 1000).unwrap();
    let entry = result.states.get(&0x200).unwrap();
    assert_eq!(entry.regs.get(&1, &ValSize::Size64).v, Some(SwitchValue::UpperBound(2)));
    let mut table = Vec::new();
    table.extend_from_slice(&0x10u32.to_le_bytes());
    table.extend_from_slice(&0x20u32.to_le_bytes());
    let program = elf_with(0x1000, &table);
    let targets = resolve_jumps(&program, &result, &irmap, &analyzer).unwrap();
    assert_eq!(targets.len(), 1);
    assert_eq!(targets.get(&0x20c), Some(&vec![0x1010, 0x1020]));
}

#[test]
fn unbounded_switch_is_not_resolved() {
    // the table is indexed by rbx, which no comparison bounded
    let (cfg, irmap) = switch_function(3);
    let analyzer = SwitchAnalyzer { metadata: lucet() };
    let result = run_worklist(&cfg, &irmap, &analyzer, 1000).unwrap();
    let program = elf_with(0x1000, &[0u8; 8]);
    assert!(resolve_jumps(&program, &result, &irmap, &analyzer).is_none());
}

#[test]
fn wamr_switch_through_memory_is_resolved() {
    let mut irmap: IRMap = HashMap::new();
    irmap.insert(
        0x100,
        block(0x100, vec![Stmt::Binop(Binopcode::Cmp, reg(1), reg(1), imm(2)), Stmt::Branch(JumpKind::Ja, imm(0x300))]),
    );
    irmap.insert(
        0x200,
        block(
            0x200,
            vec![Stmt::Branch(
                JumpKind::Jmp,
                Value::Mem(
                    ValSize::Size64,
                    MemArgs::MemScale(
                        MemArg::Imm(ImmType::Unsigned, ValSize::Size32, 0x1000),
                        MemArg::Reg(1, ValSize::Size64),
                        MemArg::Imm(ImmType::Unsigned, ValSize::Size32, 8),
                    ),
                ),
            )],
        ),
    );
    irmap.insert(0x300, block(0x300, vec![Stmt::Ret]));
    let mut succs = HashMap::new();
    succs.insert(0x100u64, vec![0x200u64, 0x300]);
    succs.insert(0x200, vec![]);
    succs.insert(0x300, vec![]);
    let cfg = Cfg { entrypoint: 0x100, succs };
    let mut md = lucet();
    md.compiler = Compiler::Wamr;
    let analyzer = SwitchAnalyzer { metadata: md };
    let result = run_worklist(&cfg, &irmap, &analyzer, 1000).unwrap();
    let mut table = Vec::new();
    table.extend_from_slice(&0x5000u64.to_le_bytes());
    table.extend_from_slice(&0x6000u64.to_le_bytes());
    let program = elf_with(0x1000, &table);
    let targets = resolve_jumps(&program, &result, &irmap, &analyzer).unwrap();
    assert_eq!(targets.get(&0x200), Some(&vec![0x5000, 0x6000]));
    // Lucet takes no jump through memory
    let lucet_analyzer = SwitchAnalyzer { metadata: lucet() };
    assert!(resolve_jumps(&program, &result, &irmap, &lucet_analyzer).is_none());
}

#[test]
fn nothing_to_resolve_gives_an_empty_map() {
    let mut irmap: IRMap = HashMap::new();
    irmap.insert(0x100, block(0x100, vec![Stmt::Ret]));
    let mut succs = HashMap::new();
    succs.insert(0x100u64, vec![]);
    let cfg = Cfg { entrypoint: 0x100, succs };
    let analyzer = SwitchAnalyzer { metadata: lucet() };
    let result = run_worklist(&cfg, &irmap, &analyzer, 10).unwrap();
    let program = elf_with(0x1000, &[0u8; 4]);
    assert_eq!(resolve_jumps(&program, &result, &irmap, &analyzer).map(|m| m.len()), Some(0));
    assert_eq!(extract_jmp_targets(&program, 0x1000, 0, Compiler::Lucet), Some(vec![]));
    assert_eq!(veriwasm::jump_resolver::table_entry_addr(0x1000, 3, Compiler::Wamr), 0x1018);
    // a reached block without code leaves no fixed point
    let mut succs = HashMap::new();
    succs.insert(0x100u64, vec![0x999]);
    let cfg = Cfg { entrypoint: 0x100, succs };
    assert!(run_worklist(&cfg, &irmap, &analyzer, 10).is_none());
}
