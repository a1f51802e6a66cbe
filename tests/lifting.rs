use veriwasm::ir::{Binopcode, ImmType, IRInstr, JumpKind, MemArg, MemArgs, Stmt, Unopcode, ValSize, Value};
use veriwasm::lifter::{lift, lift_block, RegClass, X86Instr, X86Opcode, X86Operand, X86Reg};
use veriwasm::metadata::{Compiler, CompilerMetadata};

fn q(num: u8) -> X86Operand {
    X86Operand::Register(X86Reg { num, class: RegClass::Q })
}

fn d(num: u8) -> X86Operand {
    X86Operand::Register(X86Reg { num, class: RegClass::D })
}

fn instr(opcode: X86Opcode, operands: Vec<X86Operand>, writes_zf: bool) -> X86Instr {
    X86Instr { opcode, operands, length: 4, writes_zf }
}

fn rsp() -> Value {
    Value::Reg(4, ValSize::Size64)
}

fn at_rsp() -> Value {
    Value::Mem(ValSize::Size64, MemArgs::Mem1Arg(MemArg::Reg(4, ValSize::Size64)))
}

fn imm8() -> Value {
    Value::Imm(ImmType::Signed, ValSize::Size64, 8)
}

fn lucet(probestack: u64) -> CompilerMetadata {
    CompilerMetadata {
        compiler: Compiler::Lucet,
        guest_table_0: 0,
        lucet_tables: 0,
        lucet_probestack: probestack,
        globals_size: 0,
    }
}

fn is_stmt(s: &Stmt, expected: &str) -> bool {
    format!("{:?}", s) == expected
}

#[test]
fn push_and_pop_move_rsp() {
    let push = lift(&instr(X86Opcode::PUSH, vec![q(3)], false), 0x10).unwrap();
    assert_eq!(push.len(), 2);
    assert!(matches!(&push[0], Stmt::Binop(Binopcode::Sub, a, b, c) if *a == rsp() && *b == rsp() && *c == imm8()));
    assert!(matches!(&push[1], Stmt::Unop(Unopcode::Mov, a, b) if *a == at_rsp() && *b == Value::Reg(3, ValSize::Size64)));
    let pop = lift(&instr(X86Opcode::POP, vec![q(3)], false), 0x14).unwrap();
    assert!(matches!(&pop[0], Stmt::Unop(Unopcode::Mov, a, b) if *a == Value::Reg(3, ValSize::Size64) && *b == at_rsp()));
    assert!(matches!(&pop[1], Stmt::Binop(Binopcode::Add, a, b, c) if *a == rsp() && *b == rsp() && *c == imm8()));
    // pushing an immediate is not lifted
    assert!(lift(&instr(X86Opcode::PUSH, vec![X86Operand::ImmediateI8(1)], false), 0x18).is_none());
}

#[test]
fn rip_relative_lea_is_a_constant() {
    let rip = X86Reg { num: 0, class: RegClass::Rip };
    let i = X86Instr {
        opcode: X86Opcode::LEA,
        operands: vec![q(0), X86Operand::RegDisp(rip, 0x20)],
        length: 7,
        writes_zf: false,
    };
    let out = lift(&i, 0x1000).unwrap();
    assert_eq!(out.len(), 1);
    assert!(matches!(&out[0], Stmt::Unop(Unopcode::Mov, Value::Reg(0, ValSize::Size64), Value::Imm(_, ValSize::Size64, 0x1027))));
    // lea rax, [rbx + 8] is an addition
    let add = X86Instr {
        opcode: X86Opcode::LEA,
        operands: vec![q(0), X86Operand::RegDisp(X86Reg { num: 3, class: RegClass::Q }, 8)],
        length: 4,
        writes_zf: false,
    };
    let out = lift(&add, 0).unwrap();
    assert!(matches!(&out[0], Stmt::Binop(Binopcode::Add, Value::Reg(0, ValSize::Size64), Value::Reg(3, ValSize::Size64), Value::Imm(_, _, 8))));
}

#[test]
fn flag_writers_clear_the_zero_flag() {
    let out = lift(&instr(X86Opcode::XOR, vec![d(0), d(0)], true), 0).unwrap();
    assert_eq!(out.len(), 2);
    assert!(matches!(&out[0], Stmt::Unop(Unopcode::Mov, Value::Reg(0, ValSize::Size32), Value::Imm(_, _, 0))));
    assert!(matches!(&out[1], Stmt::Clear(Value::Reg(16, ValSize::Size8), srcs) if srcs.len() == 2));
    let out = lift(&instr(X86Opcode::ADD, vec![q(0), q(1)], true), 0).unwrap();
    assert!(is_stmt(&out[0], "Binop(Add, Reg(0, Size64), Reg(0, Size64), Reg(1, Size64))"));
    assert!(matches!(&out[1], Stmt::Clear(Value::Reg(16, ValSize::Size8), _)));
    let out = lift(&instr(X86Opcode::CMP, vec![q(0), X86Operand::ImmediateI8(5)], true), 0).unwrap();
    assert_eq!(out.len(), 1);
    assert!(is_stmt(&out[0], "Binop(Cmp, Reg(0, Size64), Reg(0, Size64), Imm(Signed, Size8, 5))"));
    // any other instruction makes its destination unknown
    let out = lift(&instr(X86Opcode::Other, vec![q(2), q(1)], true), 0).unwrap();
    assert_eq!(out.len(), 2);
    assert!(matches!(&out[0], Stmt::Clear(Value::Reg(2, ValSize::Size64), _)));
    assert!(matches!(&out[1], Stmt::Clear(Value::Reg(16, ValSize::Size8), _)));
}

#[test]
fn branches_calls_and_returns() {
    let out = lift(&instr(X86Opcode::JNZ, vec![X86Operand::ImmediateI32(0x40)], false), 0).unwrap();
    assert!(matches!(&out[0], Stmt::Branch(JumpKind::Jnz, Value::Imm(_, _, 0x40))));
    let out = lift(&instr(X86Opcode::CALL, vec![q(0)], false), 0).unwrap();
    assert!(matches!(&out[0], Stmt::Call(Value::Reg(0, ValSize::Size64))));
    let out = lift(&instr(X86Opcode::RETURN, vec![], false), 0).unwrap();
    assert!(matches!(&out[0], Stmt::Ret));
    let out = lift(&instr(X86Opcode::NOP, vec![], false), 0).unwrap();
    assert!(out.is_empty());
    assert!(lift(&instr(X86Opcode::MOV, vec![q(0), X86Operand::Unsupported], false), 0).is_none());
}

#[test]
fn probestack_sequence_is_fused() {
    let block = vec![
        (0x100u64, instr(X86Opcode::MOV, vec![d(0), X86Operand::ImmediateU32(0x3000)], false)),
        // call to 0x200: 0x105 + 5 + 0xf6
        (0x105u64, instr(X86Opcode::CALL, vec![X86Operand::ImmediateI32(0xf6)], false)),
        (0x10au64, instr(X86Opcode::SUB, vec![q(4), q(0)], true)),
        (0x10du64, instr(X86Opcode::SUB, vec![q(4), X86Operand::ImmediateI8(8)], true)),
    ];
    let out: Vec<IRInstr> = lift_block(&block, &lucet(0x200)).unwrap();
    assert_eq!(out.len(), 3);
    assert!(matches!(&out[1].stmts[..], [Stmt::ProbeStack(0x3000)]));
    assert_eq!(out[1].addr, 0x105);
    assert_eq!(out[2].addr, 0x10d);
    // without the probestack address the call is an ordinary call
    let plain = lift_block(&block, &lucet(0x999)).unwrap();
    assert_eq!(plain.len(), 4);
    assert!(matches!(&plain[1].stmts[..], [Stmt::Call(_)]));
    // a probestack call must be followed by sub rsp, rax
    let broken = vec![
        (0x100u64, instr(X86Opcode::MOV, vec![d(0), X86Operand::ImmediateU32(0x3000)], false)),
        (0x105u64, instr(X86Opcode::CALL, vec![X86Operand::ImmediateI32(0xf6)], false)),
        (0x10au64, instr(X86Opcode::RETURN, vec![], false)),
    ];
    assert!(lift_block(&broken, &lucet(0x200)).is_none());
}
