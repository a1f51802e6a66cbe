//! Lifting decoded x86-64 instructions into the IR. An instruction is
//! given as plain values: its opcode, its operands, its length, and whether
//! it writes the zero flag.
use crate::ir::{
    mk_value_i64, Binopcode, ImmType, IRInstr, JumpKind, MemArg, MemArgs, Stmt, Unopcode, ValSize,
    Value,
};
use crate::metadata::{Compiler, CompilerMetadata};
use vstd::prelude::*;

verus! {

/// The opcodes the lifter tells apart. Every other opcode is `Other`: its
/// destination (and the zero flag, where written) becomes unknown.
#[allow(non_camel_case_types)]
#[derive(Clone, Copy, Debug, PartialEq, Eq, Structural)]
pub enum X86Opcode {
    JMP,
    JO,
    JNO,
    JB,
    JNB,
    JZ,
    JNZ,
    JA,
    JNA,
    JS,
    JNS,
    JP,
    JNP,
    JL,
    JGE,
    JLE,
    JG,
    MOV,
    MOVSX,
    MOVSXD,
    MOVSD,
    MOVD,
    MOVQ,
    MOVZX,
    LEA,
    TEST,
    CMP,
    AND,
    ADD,
    SUB,
    SHLX,
    SHL,
    UD2,
    RETURN,
    CALL,
    PUSH,
    POP,
    NOP,
    FILD,
    STD,
    CLD,
    STI,
    IDIV,
    DIV,
    XOR,
    SETO,
    SETNO,
    SETB,
    SETAE,
    SETZ,
    SETNZ,
    SETBE,
    SETA,
    SETS,
    SETNS,
    SETP,
    SETNP,
    SETL,
    SETGE,
    SETLE,
    SETG,
    Invalid,
    Other,
}

/// The register class of an operand register.
#[derive(Clone, Copy, Debug, PartialEq, Eq, Structural)]
pub enum RegClass {
    /// rax to r15
    Q,
    /// eax to r15d
    D,
    /// ax to r15w
    W,
    /// al, cl, dl, bl, ah, ch, dh, bh
    B,
    /// spl to r15b
    RB,
    Rip,
    Eip,
    /// vector, segment, control and other registers
    Other,
}

#[derive(Clone, Copy, Debug, PartialEq, Eq, Structural)]
pub struct X86Reg {
    pub num: u8,
    pub class: RegClass,
}

/// A decoded operand.
#[derive(Clone, Copy, Debug, PartialEq, Eq, Structural)]
pub enum X86Operand {
    ImmediateI8(i8),
    ImmediateU8(u8),
    ImmediateI16(i16),
    ImmediateU16(u16),
    ImmediateI32(i32),
    ImmediateU32(u32),
    ImmediateI64(i64),
    ImmediateU64(u64),
    Register(X86Reg),
    DisplacementU32(u32),
    DisplacementU64(u64),
    RegDeref(X86Reg),
    RegDisp(X86Reg, i32),
    RegScale(X86Reg, u8),
    RegIndexBase(X86Reg, X86Reg),
    RegIndexBaseDisp(X86Reg, X86Reg, i32),
    RegScaleDisp(X86Reg, u8, i32),
    RegIndexBaseScale(X86Reg, X86Reg, u8),
    RegIndexBaseScaleDisp(X86Reg, X86Reg, u8, i32),
    Nothing,
    /// An operand form the lifter does not handle (masked vector operands).
    Unsupported,
}

/// A decoded instruction.
pub struct X86Instr {
    pub opcode: X86Opcode,
    pub operands: Vec<X86Operand>,
    /// Length in bytes.
    pub length: u8,
    /// Whether the instruction writes the zero flag.
    pub writes_zf: bool,
}

pub open spec fn spec_operand(instr: X86Instr, i: int) -> X86Operand {
    if 0 <= i < instr.operands@.len() {
        instr.operands@[i]
    } else {
        X86Operand::Nothing
    }
}

pub fn operand(instr: &X86Instr, i: usize) -> (r: X86Operand)
    ensures
        r == spec_operand(*instr, i as int),
{
    if i < instr.operands.len() {
        instr.operands[i]
    } else {
        X86Operand::Nothing
    }
}

pub open spec fn spec_reg_size(r: X86Reg) -> Option<ValSize> {
    match r.class {
        RegClass::Q => Some(ValSize::Size64),
        RegClass::D => Some(ValSize::Size32),
        RegClass::W => Some(ValSize::Size16),
        RegClass::B | RegClass::RB => Some(ValSize::Size8),
        RegClass::Rip | RegClass::Eip => None,
        RegClass::Other => Some(ValSize::SizeOther),
    }
}

/// Width of a register operand; none for the instruction pointer.
pub fn reg_size(r: X86Reg) -> (s: Option<ValSize>)
    ensures
        s == spec_reg_size(r),
{
    match r.class {
        RegClass::Q => Some(ValSize::Size64),
        RegClass::D => Some(ValSize::Size32),
        RegClass::W => Some(ValSize::Size16),
        RegClass::B | RegClass::RB => Some(ValSize::Size8),
        RegClass::Rip | RegClass::Eip => None,
        RegClass::Other => Some(ValSize::SizeOther),
    }
}

pub open spec fn spec_memarg_reg(r: X86Reg) -> Option<MemArg> {
    match r.class {
        RegClass::Q => Some(MemArg::Reg(r.num, ValSize::Size64)),
        RegClass::D => Some(MemArg::Reg(r.num, ValSize::Size32)),
        RegClass::W => Some(MemArg::Reg(r.num, ValSize::Size16)),
        RegClass::B => Some(MemArg::Reg(r.num, ValSize::Size8)),
        _ => None,
    }
}

/// An address register; none for other register classes.
pub fn memarg_reg(r: X86Reg) -> (m: Option<MemArg>)
    ensures
        m == spec_memarg_reg(r),
{
    match r.class {
        RegClass::Q => Some(MemArg::Reg(r.num, ValSize::Size64)),
        RegClass::D => Some(MemArg::Reg(r.num, ValSize::Size32)),
        RegClass::W => Some(MemArg::Reg(r.num, ValSize::Size16)),
        RegClass::B => Some(MemArg::Reg(r.num, ValSize::Size8)),
        _ => None,
    }
}

pub open spec fn simm32(x: int) -> MemArg {
    MemArg::Imm(ImmType::Signed, ValSize::Size32, x as i64)
}

pub open spec fn uimm32(x: int) -> MemArg {
    MemArg::Imm(ImmType::Unsigned, ValSize::Size32, x as i64)
}

/// An operand as an IR value, with `memsize` the width of a memory access.
/// Scaled forms with scale 1 become unscaled ones. None for operands the
/// IR cannot express.
pub open spec fn spec_convert_operand(op: X86Operand, memsize: ValSize) -> Option<Value> {
    match op {
        X86Operand::ImmediateI8(x) => Some(Value::Imm(ImmType::Signed, ValSize::Size8, x as i64)),
        X86Operand::ImmediateU8(x) => Some(Value::Imm(ImmType::Unsigned, ValSize::Size8, x as i64)),
        X86Operand::ImmediateI16(x) => Some(Value::Imm(ImmType::Signed, ValSize::Size16, x as i64)),
        X86Operand::ImmediateU16(x) => Some(Value::Imm(ImmType::Unsigned, ValSize::Size16, x as i64)),
        X86Operand::ImmediateU32(x) => Some(Value::Imm(ImmType::Unsigned, ValSize::Size32, x as i64)),
        X86Operand::ImmediateI32(x) => Some(Value::Imm(ImmType::Signed, ValSize::Size32, x as i64)),
        X86Operand::ImmediateU64(x) => Some(Value::Imm(ImmType::Unsigned, ValSize::Size64, x as i64)),
        X86Operand::ImmediateI64(x) => Some(Value::Imm(ImmType::Signed, ValSize::Size64, x)),
        X86Operand::Register(r) => match spec_reg_size(r) {
            Some(sz) => Some(Value::Reg(r.num, sz)),
            None => None,
        },
        X86Operand::DisplacementU32(x) => Some(
            Value::Mem(memsize, MemArgs::Mem1Arg(MemArg::Imm(ImmType::Unsigned, ValSize::Size32, x as i64))),
        ),
        X86Operand::DisplacementU64(x) => Some(
            Value::Mem(memsize, MemArgs::Mem1Arg(MemArg::Imm(ImmType::Unsigned, ValSize::Size64, x as i64))),
        ),
        X86Operand::RegDeref(r) => match spec_memarg_reg(r) {
            Some(a) => Some(Value::Mem(memsize, MemArgs::Mem1Arg(a))),
            None => None,
        },
        X86Operand::RegDisp(r, d) => match spec_memarg_reg(r) {
            Some(a) => Some(Value::Mem(memsize, MemArgs::Mem2Args(a, simm32(d as int)))),
            None => None,
        },
        X86Operand::RegIndexBase(r1, r2) => match (spec_memarg_reg(r1), spec_memarg_reg(r2)) {
            (Some(a), Some(b)) => Some(Value::Mem(memsize, MemArgs::Mem2Args(a, b))),
            _ => None,
        },
        X86Operand::RegIndexBaseDisp(r1, r2, d) => match (spec_memarg_reg(r1), spec_memarg_reg(r2)) {
            (Some(a), Some(b)) => Some(Value::Mem(memsize, MemArgs::Mem3Args(a, b, simm32(d as int)))),
            _ => None,
        },
        X86Operand::RegScale(r, s) => match spec_memarg_reg(r) {
            Some(a) => if s == 1 {
                Some(Value::Mem(memsize, MemArgs::Mem1Arg(a)))
            } else {
                Some(Value::Mem(memsize, MemArgs::MemScale(uimm32(0), a, uimm32(s as int))))
            },
            None => None,
        },
        X86Operand::RegScaleDisp(r, s, d) => match spec_memarg_reg(r) {
            Some(a) => if s == 1 {
                Some(Value::Mem(memsize, MemArgs::Mem2Args(a, simm32(d as int))))
            } else {
                Some(Value::Mem(memsize, MemArgs::MemScale(uimm32(d as int), a, uimm32(s as int))))
            },
            None => None,
        },
        X86Operand::RegIndexBaseScale(r1, r2, s) => match (spec_memarg_reg(r1), spec_memarg_reg(r2)) {
            (Some(a), Some(b)) => if s == 1 {
                Some(Value::Mem(memsize, MemArgs::Mem2Args(a, b)))
            } else {
                Some(Value::Mem(memsize, MemArgs::MemScale(a, b, simm32(s as int))))
            },
            _ => None,
        },
        X86Operand::RegIndexBaseScaleDisp(r1, r2, s, d) => match (spec_memarg_reg(r1), spec_memarg_reg(r2)) {
            (Some(a), Some(b)) => if s == 1 {
                Some(Value::Mem(memsize, MemArgs::Mem3Args(a, b, simm32(d as int))))
            } else {
                Some(Value::Mem(memsize, MemArgs::MemScaleDisp(a, b, uimm32(s as int), simm32(d as int))))
            },
            _ => None,
        },
        X86Operand::Nothing | X86Operand::Unsupported => None,
    }
}

pub fn convert_operand(op: X86Operand, memsize: ValSize) -> (r: Option<Value>)
    ensures
        r == spec_convert_operand(op, memsize),
{
    match op {
        X86Operand::ImmediateI8(x) => Some(Value::Imm(ImmType::Signed, ValSize::Size8, x as i64)),
        X86Operand::ImmediateU8(x) => Some(Value::Imm(ImmType::Unsigned, ValSize::Size8, x as i64)),
        X86Operand::ImmediateI16(x) => Some(Value::Imm(ImmType::Signed, ValSize::Size16, x as i64)),
        X86Operand::ImmediateU16(x) => Some(Value::Imm(ImmType::Unsigned, ValSize::Size16, x as i64)),
        X86Operand::ImmediateU32(x) => Some(Value::Imm(ImmType::Unsigned, ValSize::Size32, x as i64)),
        X86Operand::ImmediateI32(x) => Some(Value::Imm(ImmType::Signed, ValSize::Size32, x as i64)),
        X86Operand::ImmediateU64(x) => Some(
            Value::Imm(ImmType::Unsigned, ValSize::Size64, #[verifier::truncate] (x as i64)),
        ),
        X86Operand::ImmediateI64(x) => Some(Value::Imm(ImmType::Signed, ValSize::Size64, x)),
        X86Operand::Register(r) => match reg_size(r) {
            Some(sz) => Some(Value::Reg(r.num, sz)),
            None => None,
        },
        X86Operand::DisplacementU32(x) => Some(
            Value::Mem(memsize, MemArgs::Mem1Arg(MemArg::Imm(ImmType::Unsigned, ValSize::Size32, x as i64))),
        ),
        X86Operand::DisplacementU64(x) => Some(
            Value::Mem(
                memsize,
                MemArgs::Mem1Arg(
                    MemArg::Imm(ImmType::Unsigned, ValSize::Size64, #[verifier::truncate] (x as i64)),
                ),
            ),
        ),
        X86Operand::RegDeref(r) => match memarg_reg(r) {
            Some(a) => Some(Value::Mem(memsize, MemArgs::Mem1Arg(a))),
            None => None,
        },
        X86Operand::RegDisp(r, d) => match memarg_reg(r) {
            Some(a) => Some(
                Value::Mem(memsize, MemArgs::Mem2Args(a, MemArg::Imm(ImmType::Signed, ValSize::Size32, d as i64))),
            ),
            None => None,
        },
        X86Operand::RegIndexBase(r1, r2) => match (memarg_reg(r1), memarg_reg(r2)) {
            (Some(a), Some(b)) => Some(Value::Mem(memsize, MemArgs::Mem2Args(a, b))),
            _ => None,
        },
        X86Operand::RegIndexBaseDisp(r1, r2, d) => match (memarg_reg(r1), memarg_reg(r2)) {
            (Some(a), Some(b)) => Some(
                Value::Mem(
                    memsize,
                    MemArgs::Mem3Args(a, b, MemArg::Imm(ImmType::Signed, ValSize::Size32, d as i64)),
                ),
            ),
            _ => None,
        },
        X86Operand::RegScale(r, s) => match memarg_reg(r) {
            Some(a) => if s == 1 {
                Some(Value::Mem(memsize, MemArgs::Mem1Arg(a)))
            } else {
                Some(
                    Value::Mem(
                        memsize,
                        MemArgs::MemScale(
                            MemArg::Imm(ImmType::Unsigned, ValSize::Size32, 0),
                            a,
                            MemArg::Imm(ImmType::Unsigned, ValSize::Size32, s as i64),
                        ),
                    ),
                )
            },
            None => None,
        },
        X86Operand::RegScaleDisp(r, s, d) => match memarg_reg(r) {
            Some(a) => if s == 1 {
                Some(
                    Value::Mem(
                        memsize,
                        MemArgs::Mem2Args(a, MemArg::Imm(ImmType::Signed, ValSize::Size32, d as i64)),
                    ),
                )
            } else {
                Some(
                    Value::Mem(
                        memsize,
                        MemArgs::MemScale(
                            MemArg::Imm(ImmType::Unsigned, ValSize::Size32, d as i64),
                            a,
                            MemArg::Imm(ImmType::Unsigned, ValSize::Size32, s as i64),
                        ),
                    ),
                )
            },
            None => None,
        },
        X86Operand::RegIndexBaseScale(r1, r2, s) => match (memarg_reg(r1), memarg_reg(r2)) {
            (Some(a), Some(b)) => if s == 1 {
                Some(Value::Mem(memsize, MemArgs::Mem2Args(a, b)))
            } else {
                Some(
                    Value::Mem(
                        memsize,
                        MemArgs::MemScale(a, b, MemArg::Imm(ImmType::Signed, ValSize::Size32, s as i64)),
                    ),
                )
            },
            _ => None,
        },
        X86Operand::RegIndexBaseScaleDisp(r1, r2, s, d) => match (memarg_reg(r1), memarg_reg(r2)) {
            (Some(a), Some(b)) => if s == 1 {
                Some(
                    Value::Mem(
                        memsize,
                        MemArgs::Mem3Args(a, b, MemArg::Imm(ImmType::Signed, ValSize::Size32, d as i64)),
                    ),
                )
            } else {
                Some(
                    Value::Mem(
                        memsize,
                        MemArgs::MemScaleDisp(
                            a,
                            b,
                            MemArg::Imm(ImmType::Unsigned, ValSize::Size32, s as i64),
                            MemArg::Imm(ImmType::Signed, ValSize::Size32, d as i64),
                        ),
                    ),
                )
            },
            _ => None,
        },
        X86Operand::Nothing | X86Operand::Unsupported => None,
    }
}

pub open spec fn spec_jump_kind(op: X86Opcode) -> Option<JumpKind> {
    match op {
        X86Opcode::JMP => Some(JumpKind::Jmp),
        X86Opcode::JO => Some(JumpKind::Jo),
        X86Opcode::JNO => Some(JumpKind::Jno),
        X86Opcode::JB => Some(JumpKind::Jb),
        X86Opcode::JNB => Some(JumpKind::Jnb),
        X86Opcode::JZ => Some(JumpKind::Jz),
        X86Opcode::JNZ => Some(JumpKind::Jnz),
        X86Opcode::JA => Some(JumpKind::Ja),
        X86Opcode::JNA => Some(JumpKind::Jna),
        X86Opcode::JS => Some(JumpKind::Js),
        X86Opcode::JNS => Some(JumpKind::Jns),
        X86Opcode::JP => Some(JumpKind::Jp),
        X86Opcode::JNP => Some(JumpKind::Jnp),
        X86Opcode::JL => Some(JumpKind::Jl),
        X86Opcode::JGE => Some(JumpKind::Jge),
        X86Opcode::JLE => Some(JumpKind::Jle),
        X86Opcode::JG => Some(JumpKind::Jg),
        _ => None,
    }
}

/// The jump a branch opcode stands for.
pub fn jump_kind(op: X86Opcode) -> (r: Option<JumpKind>)
    ensures
        r == spec_jump_kind(op),
{
    match op {
        X86Opcode::JMP => Some(JumpKind::Jmp),
        X86Opcode::JO => Some(JumpKind::Jo),
        X86Opcode::JNO => Some(JumpKind::Jno),
        X86Opcode::JB => Some(JumpKind::Jb),
        X86Opcode::JNB => Some(JumpKind::Jnb),
        X86Opcode::JZ => Some(JumpKind::Jz),
        X86Opcode::JNZ => Some(JumpKind::Jnz),
        X86Opcode::JA => Some(JumpKind::Ja),
        X86Opcode::JNA => Some(JumpKind::Jna),
        X86Opcode::JS => Some(JumpKind::Js),
        X86Opcode::JNS => Some(JumpKind::Jns),
        X86Opcode::JP => Some(JumpKind::Jp),
        X86Opcode::JNP => Some(JumpKind::Jnp),
        X86Opcode::JL => Some(JumpKind::Jl),
        X86Opcode::JGE => Some(JumpKind::Jge),
        X86Opcode::JLE => Some(JumpKind::Jle),
        X86Opcode::JG => Some(JumpKind::Jg),
        _ => None,
    }
}

pub open spec fn is_mov_opcode(op: X86Opcode) -> bool {
    op == X86Opcode::MOV || op == X86Opcode::MOVSX || op == X86Opcode::MOVSXD || op == X86Opcode::MOVSD || op == X86Opcode::MOVD || op == X86Opcode::MOVQ || op == X86Opcode::MOVZX
}

pub open spec fn is_set_opcode(op: X86Opcode) -> bool {
    op == X86Opcode::SETO || op == X86Opcode::SETNO || op == X86Opcode::SETB || op == X86Opcode::SETAE || op == X86Opcode::SETZ || op == X86Opcode::SETNZ || op == X86Opcode::SETBE || op == X86Opcode::SETA || op == X86Opcode::SETS || op == X86Opcode::SETNS || op == X86Opcode::SETP || op == X86Opcode::SETNP || op == X86Opcode::SETL || op == X86Opcode::SETGE || op == X86Opcode::SETLE || op == X86Opcode::SETG
}

pub open spec fn is_nop_opcode(op: X86Opcode) -> bool {
    op == X86Opcode::NOP || op == X86Opcode::FILD || op == X86Opcode::STD || op == X86Opcode::CLD || op == X86Opcode::STI
}


/// A statement with its source list as a sequence.
pub enum StmtView {
    Clear(Value, Seq<Value>),
    Unop(Unopcode, Value, Value),
    Binop(Binopcode, Value, Value, Value),
    Undefined,
    Ret,
    Branch(JumpKind, Value),
    Call(Value),
    ProbeStack(u64),
}

pub open spec fn stmt_view(s: Stmt) -> StmtView {
    match s {
        Stmt::Clear(d, srcs) => StmtView::Clear(d, srcs@),
        Stmt::Unop(op, d, s) => StmtView::Unop(op, d, s),
        Stmt::Binop(op, d, s1, s2) => StmtView::Binop(op, d, s1, s2),
        Stmt::Undefined => StmtView::Undefined,
        Stmt::Ret => StmtView::Ret,
        Stmt::Branch(k, v) => StmtView::Branch(k, v),
        Stmt::Call(v) => StmtView::Call(v),
        Stmt::ProbeStack(n) => StmtView::ProbeStack(n),
    }
}

pub open spec fn stmts_view(s: Seq<Stmt>) -> Seq<StmtView> {
    s.map_values(|x: Stmt| stmt_view(x))
}

pub open spec fn spec_operand_size(op: X86Operand) -> Option<ValSize> {
    match op {
        X86Operand::ImmediateI8(_) | X86Operand::ImmediateU8(_) => Some(ValSize::Size8),
        X86Operand::ImmediateI16(_) | X86Operand::ImmediateU16(_) => Some(ValSize::Size16),
        X86Operand::ImmediateI32(_) | X86Operand::ImmediateU32(_) => Some(ValSize::Size32),
        X86Operand::ImmediateI64(_) | X86Operand::ImmediateU64(_) => Some(ValSize::Size64),
        X86Operand::Register(r) => spec_reg_size(r),
        _ => None,
    }
}

/// Width of an immediate or register operand; none for memory operands.
pub fn operand_size(op: X86Operand) -> (r: Option<ValSize>)
    ensures
        r == spec_operand_size(op),
{
    match op {
        X86Operand::ImmediateI8(_) | X86Operand::ImmediateU8(_) => Some(ValSize::Size8),
        X86Operand::ImmediateI16(_) | X86Operand::ImmediateU16(_) => Some(ValSize::Size16),
        X86Operand::ImmediateI32(_) | X86Operand::ImmediateU32(_) => Some(ValSize::Size32),
        X86Operand::ImmediateI64(_) | X86Operand::ImmediateU64(_) => Some(ValSize::Size64),
        X86Operand::Register(r) => reg_size(r),
        _ => None,
    }
}

/// The access width of a two-operand instruction: the first operand's
/// width, else the second's; none when both are memory operands.
pub open spec fn spec_access_size(instr: X86Instr) -> Option<ValSize> {
    match spec_operand_size(spec_operand(instr, 0)) {
        Some(x) => Some(x),
        None => spec_operand_size(spec_operand(instr, 1)),
    }
}

fn access_size(instr: &X86Instr) -> (r: Option<ValSize>)
    ensures
        r == spec_access_size(*instr),
{
    match operand_size(operand(instr, 0)) {
        Some(x) => Some(x),
        None => operand_size(operand(instr, 1)),
    }
}

/// Every operand converts (at 32 bits for memory) and there are at most
/// four of them.
pub open spec fn sources_ok(instr: X86Instr) -> bool {
    &&& instr.operands@.len() <= 4
    &&& forall|i: int|
        0 <= i < instr.operands@.len() ==> (#[trigger] spec_convert_operand(
            instr.operands@[i],
            ValSize::Size32,
        )) is Some
}

pub open spec fn spec_sources(instr: X86Instr) -> Seq<Value> {
    Seq::new(
        instr.operands@.len(),
        |i: int| spec_convert_operand(instr.operands@[i], ValSize::Size32).unwrap(),
    )
}

/// The operands as sources of a statement.
pub fn get_sources(instr: &X86Instr) -> (r: Option<Vec<Value>>)
    ensures
        r is Some <==> sources_ok(*instr),
        r matches Some(v) ==> v@ == spec_sources(*instr),
{
    if instr.operands.len() > 4 {
        return None;
    }
    let mut out: Vec<Value> = Vec::new();
    let mut i: usize = 0;
    while i < instr.operands.len()
        invariant
            i <= instr.operands.len(),
            instr.operands.len() <= 4,
            out@ == spec_sources(*instr).take(i as int),
            forall|j: int|
                0 <= j < i ==> (#[trigger] spec_convert_operand(instr.operands@[j], ValSize::Size32)) is Some,
        decreases instr.operands.len() - i,
    {
        match convert_operand(instr.operands[i], ValSize::Size32) {
            Some(v) => {
                out.push(v);
                assert(spec_sources(*instr).take(i + 1) =~= spec_sources(*instr).take(i as int).push(v));
            },
            None => {
                return None;
            },
        }
        i = i + 1;
    }
    assert(spec_sources(*instr).take(i as int) =~= spec_sources(*instr));
    Some(out)
}

pub open spec fn zf_reg() -> Value {
    Value::Reg(16, ValSize::Size8)
}

/// `dst <- op src` at the instruction's access width.
pub open spec fn spec_unop(op: Unopcode, instr: X86Instr) -> Option<StmtView> {
    match spec_access_size(instr) {
        Some(ms) => match (
            spec_convert_operand(spec_operand(instr, 0), ms),
            spec_convert_operand(spec_operand(instr, 1), ms),
        ) {
            (Some(d), Some(s)) => Some(StmtView::Unop(op, d, s)),
            _ => None,
        },
        None => None,
    }
}

/// `dst <- src1 op src2`; with two operands the first is both destination
/// and first source.
pub open spec fn spec_binop(op: Binopcode, instr: X86Instr) -> Option<StmtView> {
    match spec_access_size(instr) {
        Some(ms) => {
            let a = spec_convert_operand(spec_operand(instr, 0), ms);
            let b = spec_convert_operand(spec_operand(instr, 1), ms);
            let c = spec_convert_operand(spec_operand(instr, 2), ms);
            if instr.operands@.len() == 2 {
                match (a, b) {
                    (Some(x), Some(y)) => Some(StmtView::Binop(op, x, x, y)),
                    _ => None,
                }
            } else {
                match (a, b, c) {
                    (Some(x), Some(y), Some(z)) => Some(StmtView::Binop(op, x, y, z)),
                    _ => None,
                }
            }
        },
        None => None,
    }
}

fn unop(op: Unopcode, instr: &X86Instr) -> (r: Option<Stmt>)
    ensures
        r is Some <==> spec_unop(op, *instr) is Some,
        r matches Some(s) ==> Some(stmt_view(s)) == spec_unop(op, *instr),
{
    let ms = match access_size(instr) {
        Some(ms) => ms,
        None => {
            return None;
        },
    };
    match (convert_operand(operand(instr, 0), ms), convert_operand(operand(instr, 1), ms)) {
        (Some(d), Some(s)) => Some(Stmt::Unop(op, d, s)),
        _ => None,
    }
}

fn binop(op: Binopcode, instr: &X86Instr) -> (r: Option<Stmt>)
    ensures
        r is Some <==> spec_binop(op, *instr) is Some,
        r matches Some(s) ==> Some(stmt_view(s)) == spec_binop(op, *instr),
{
    let ms = match access_size(instr) {
        Some(ms) => ms,
        None => {
            return None;
        },
    };
    let a = convert_operand(operand(instr, 0), ms);
    let b = convert_operand(operand(instr, 1), ms);
    let c = convert_operand(operand(instr, 2), ms);
    if instr.operands.len() == 2 {
        match (a, b) {
            (Some(x), Some(y)) => Some(Stmt::Binop(op, x, x, y)),
            _ => None,
        }
    } else {
        match (a, b, c) {
            (Some(x), Some(y), Some(z)) => Some(Stmt::Binop(op, x, y, z)),
            _ => None,
        }
    }
}

/// The destination becomes unknown, and the zero flag too where the
/// instruction writes it.
pub open spec fn spec_clear_dst(instr: X86Instr) -> Option<Seq<StmtView>> {
    match spec_convert_operand(spec_operand(instr, 0), ValSize::Size8) {
        Some(d) => if sources_ok(instr) {
            let srcs = spec_sources(instr);
            if instr.writes_zf {
                Some(seq![StmtView::Clear(d, srcs), StmtView::Clear(zf_reg(), srcs)])
            } else {
                Some(seq![StmtView::Clear(d, srcs)])
            }
        } else {
            None
        },
        None => None,
    }
}

fn clear_dst(instr: &X86Instr) -> (r: Option<Vec<Stmt>>)
    ensures
        r is Some <==> spec_clear_dst(*instr) is Some,
        r matches Some(v) ==> Some(stmts_view(v@)) == spec_clear_dst(*instr),
{
    let d = match convert_operand(operand(instr, 0), ValSize::Size8) {
        Some(d) => d,
        None => {
            return None;
        },
    };
    let srcs = match get_sources(instr) {
        Some(s) => s,
        None => {
            return None;
        },
    };
    let mut out: Vec<Stmt> = Vec::new();
    if instr.writes_zf {
        let srcs2 = clone_values(&srcs);
        out.push(Stmt::Clear(d, srcs));
        out.push(Stmt::Clear(Value::Reg(16, ValSize::Size8), srcs2));
    } else {
        out.push(Stmt::Clear(d, srcs));
    }
    assert(stmts_view(out@) =~= spec_clear_dst(*instr).unwrap());
    Some(out)
}

fn clone_values(v: &Vec<Value>) -> (r: Vec<Value>)
    ensures
        r@ == v@,
{
    let mut out: Vec<Value> = Vec::new();
    let mut i: usize = 0;
    while i < v.len()
        invariant
            i <= v.len(),
            out@ == v@.take(i as int),
        decreases v.len() - i,
    {
        out.push(v[i]);
        assert(v@.take(i + 1) =~= v@.take(i as int).push(v@[i as int]));
        i = i + 1;
    }
    assert(v@.take(i as int) =~= v@);
    out
}

/// The zero flag, written by arithmetic, becomes unknown.
pub open spec fn spec_zf_clear(instr: X86Instr) -> Option<StmtView> {
    if sources_ok(instr) {
        Some(StmtView::Clear(zf_reg(), spec_sources(instr)))
    } else {
        None
    }
}

fn zf_clear(instr: &X86Instr) -> (r: Option<Stmt>)
    ensures
        r is Some <==> spec_zf_clear(*instr) is Some,
        r matches Some(s) ==> Some(stmt_view(s)) == spec_zf_clear(*instr),
{
    match get_sources(instr) {
        Some(s) => Some(Stmt::Clear(Value::Reg(16, ValSize::Size8), s)),
        None => None,
    }
}

pub open spec fn rsp64() -> Value {
    Value::Reg(4, ValSize::Size64)
}

pub open spec fn at_rsp64() -> Value {
    Value::Mem(ValSize::Size64, MemArgs::Mem1Arg(MemArg::Reg(4, ValSize::Size64)))
}

pub open spec fn imm64(x: i64) -> Value {
    Value::Imm(ImmType::Signed, ValSize::Size64, x)
}

/// `lea dst, src`: a `rip`-relative address is the constant `addr + length
/// + disp`; `[r + imm]` is an addition; `[imm]` a move; any other address
/// computation leaves a register destination unknown.
pub open spec fn spec_lea(instr: X86Instr, addr: u64) -> Option<Seq<StmtView>> {
    let dst = spec_operand(instr, 0);
    match spec_operand(instr, 1) {
        X86Operand::RegDisp(r, d) if r.class == RegClass::Rip => match spec_convert_operand(
            dst,
            ValSize::SizeOther,
        ) {
            Some(x) => Some(
                seq![StmtView::Unop(Unopcode::Mov, x, imm64((addr as int + instr.length as int + d as int) as i64))],
            ),
            None => None,
        },
        src => match spec_operand_size(dst) {
            None => None,
            Some(dsz) => match spec_convert_operand(src, dsz) {
                Some(Value::Mem(ms, MemArgs::Mem1Arg(_))) => match spec_unop(Unopcode::Mov, instr) {
                    Some(u) => Some(seq![u]),
                    None => None,
                },
                Some(Value::Mem(ms, MemArgs::Mem2Args(MemArg::Reg(n, rs), MemArg::Imm(t, s, v)))) => match spec_convert_operand(dst, ms) {
                    Some(x) => Some(seq![StmtView::Binop(Binopcode::Add, x, Value::Reg(n, rs), Value::Imm(t, s, v))]),
                    None => None,
                },
                Some(Value::Mem(ms, _)) => match spec_convert_operand(dst, ms) {
                    Some(Value::Reg(n, rs)) => Some(seq![StmtView::Clear(Value::Reg(n, rs), Seq::empty())]),
                    _ => spec_clear_dst(instr),
                },
                _ => None,
            },
        },
    }
}

fn lea(instr: &X86Instr, addr: u64) -> (r: Option<Vec<Stmt>>)
    ensures
        r is Some <==> spec_lea(*instr, addr) is Some,
        r matches Some(v) ==> Some(stmts_view(v@)) == spec_lea(*instr, addr),
{
    let dst = operand(instr, 0);
    let src = operand(instr, 1);
    if let X86Operand::RegDisp(r, d) = src {
        if r.class == RegClass::Rip {
            return match convert_operand(dst, ValSize::SizeOther) {
                Some(x) => {
                    let target: i64 = #[verifier::truncate] ((addr as i128 + instr.length as i128 + d as i128) as i64);
                    let out = vec![Stmt::Unop(Unopcode::Mov, x, Value::Imm(ImmType::Signed, ValSize::Size64, target))];
                    assert(stmts_view(out@) =~= spec_lea(*instr, addr).unwrap());
                    Some(out)
                },
                None => None,
            };
        }
    }
    let dsz = match operand_size(dst) {
        Some(s) => s,
        None => {
            return None;
        },
    };
    match convert_operand(src, dsz) {
        Some(Value::Mem(_, MemArgs::Mem1Arg(_))) => match unop(Unopcode::Mov, instr) {
            Some(u) => {
                let out = vec![u];
                assert(stmts_view(out@) =~= spec_lea(*instr, addr).unwrap());
                Some(out)
            },
            None => None,
        },
        Some(Value::Mem(ms, MemArgs::Mem2Args(MemArg::Reg(n, rs), MemArg::Imm(t, s, v)))) => match convert_operand(dst, ms) {
            Some(x) => {
                let out = vec![Stmt::Binop(Binopcode::Add, x, Value::Reg(n, rs), Value::Imm(t, s, v))];
                assert(stmts_view(out@) =~= spec_lea(*instr, addr).unwrap());
                Some(out)
            },
            None => None,
        },
        Some(Value::Mem(ms, _)) => match convert_operand(dst, ms) {
            Some(Value::Reg(n, rs)) => {
                let out = vec![Stmt::Clear(Value::Reg(n, rs), Vec::new())];
                assert(stmts_view(out@) =~= spec_lea(*instr, addr).unwrap());
                Some(out)
            },
            _ => clear_dst(instr),
        },
        _ => None,
    }
}

/// The statements one instruction at `addr` lifts to; none where the
/// instruction has operands the IR cannot express.
pub open spec fn spec_lift(instr: X86Instr, addr: u64) -> Option<Seq<StmtView>> {
    let op = instr.opcode;
    if is_mov_opcode(op) {
        match spec_unop(Unopcode::Mov, instr) {
            Some(u) => Some(seq![u]),
            None => None,
        }
    } else if op == X86Opcode::LEA {
        spec_lea(instr, addr)
    } else if op == X86Opcode::TEST || op == X86Opcode::CMP || op == X86Opcode::SHLX {
        let code = if op == X86Opcode::TEST {
            Binopcode::Test
        } else if op == X86Opcode::CMP {
            Binopcode::Cmp
        } else {
            Binopcode::Shl
        };
        match spec_binop(code, instr) {
            Some(b) => Some(seq![b]),
            None => None,
        }
    } else if op == X86Opcode::AND || op == X86Opcode::ADD || op == X86Opcode::SUB || op
        == X86Opcode::SHL {
        let code = if op == X86Opcode::AND {
            Binopcode::And
        } else if op == X86Opcode::ADD {
            Binopcode::Add
        } else if op == X86Opcode::SUB {
            Binopcode::Sub
        } else {
            Binopcode::Shl
        };
        match (spec_binop(code, instr), spec_zf_clear(instr)) {
            (Some(b), Some(z)) => Some(seq![b, z]),
            _ => None,
        }
    } else if op == X86Opcode::UD2 {
        Some(seq![StmtView::Undefined])
    } else if op == X86Opcode::RETURN {
        Some(seq![StmtView::Ret])
    } else if op == X86Opcode::CALL {
        match spec_convert_operand(spec_operand(instr, 0), ValSize::Size64) {
            Some(v) => Some(seq![StmtView::Call(v)]),
            None => None,
        }
    } else if op == X86Opcode::PUSH {
        match spec_operand(instr, 0) {
            X86Operand::Register(r) if r.class == RegClass::Q => Some(
                seq![
                    StmtView::Binop(Binopcode::Sub, rsp64(), rsp64(), imm64(8)),
                    StmtView::Unop(Unopcode::Mov, at_rsp64(), Value::Reg(r.num, ValSize::Size64)),
                ],
            ),
            _ => None,
        }
    } else if op == X86Opcode::POP {
        match spec_operand(instr, 0) {
            X86Operand::Register(r) if r.class == RegClass::Q => Some(
                seq![
                    StmtView::Unop(Unopcode::Mov, Value::Reg(r.num, ValSize::Size64), at_rsp64()),
                    StmtView::Binop(Binopcode::Add, rsp64(), rsp64(), imm64(8)),
                ],
            ),
            _ => None,
        }
    } else if is_nop_opcode(op) || op == X86Opcode::Invalid {
        Some(Seq::empty())
    } else if op == X86Opcode::IDIV || op == X86Opcode::DIV {
        match spec_zf_clear(instr) {
            Some(z) => Some(
                seq![
                    StmtView::Clear(Value::Reg(0, ValSize::Size64), Seq::empty()),
                    StmtView::Clear(Value::Reg(2, ValSize::Size64), Seq::empty()),
                    z,
                ],
            ),
            None => None,
        }
    } else if op == X86Opcode::XOR && instr.operands@.len() == 2 && spec_operand(instr, 0)
        == spec_operand(instr, 1) {
        match (spec_convert_operand(spec_operand(instr, 0), ValSize::Size64), spec_zf_clear(instr)) {
            (Some(x), Some(z)) => Some(seq![StmtView::Unop(Unopcode::Mov, x, imm64(0)), z]),
            _ => None,
        }
    } else if is_set_opcode(op) {
        match spec_convert_operand(spec_operand(instr, 0), ValSize::Size8) {
            Some(x) => Some(seq![StmtView::Unop(Unopcode::Setcc, x, zf_reg())]),
            None => None,
        }
    } else if let Some(k) = spec_jump_kind(op) {
        match spec_convert_operand(spec_operand(instr, 0), ValSize::Size64) {
            Some(v) => Some(seq![StmtView::Branch(k, v)]),
            None => None,
        }
    } else if instr.operands@.len() > 0 {
        spec_clear_dst(instr)
    } else {
        Some(Seq::empty())
    }
}

/// Lift one instruction at `addr`.
pub fn lift(instr: &X86Instr, addr: u64) -> (r: Option<Vec<Stmt>>)
    ensures
        r is Some <==> spec_lift(*instr, addr) is Some,
        r matches Some(v) ==> Some(stmts_view(v@)) == spec_lift(*instr, addr),
{
    let op = instr.opcode;
    let out: Vec<Stmt> = match op {
        X86Opcode::MOV
        | X86Opcode::MOVSX
        | X86Opcode::MOVSXD
        | X86Opcode::MOVSD
        | X86Opcode::MOVD
        | X86Opcode::MOVQ
        | X86Opcode::MOVZX => match unop(Unopcode::Mov, instr) {
            Some(u) => vec![u],
            None => {
                return None;
            },
        },
        X86Opcode::LEA => {
            return lea(instr, addr);
        },
        X86Opcode::TEST | X86Opcode::CMP | X86Opcode::SHLX => {
            let code = match op {
                X86Opcode::TEST => Binopcode::Test,
                X86Opcode::CMP => Binopcode::Cmp,
                _ => Binopcode::Shl,
            };
            match binop(code, instr) {
                Some(b) => vec![b],
                None => {
                    return None;
                },
            }
        },
        X86Opcode::AND | X86Opcode::ADD | X86Opcode::SUB | X86Opcode::SHL => {
            let code = match op {
                X86Opcode::AND => Binopcode::And,
                X86Opcode::ADD => Binopcode::Add,
                X86Opcode::SUB => Binopcode::Sub,
                _ => Binopcode::Shl,
            };
            match (binop(code, instr), zf_clear(instr)) {
                (Some(b), Some(z)) => vec![b, z],
                _ => {
                    return None;
                },
            }
        },
        X86Opcode::UD2 => vec![Stmt::Undefined],
        X86Opcode::RETURN => vec![Stmt::Ret],
        X86Opcode::CALL => match convert_operand(operand(instr, 0), ValSize::Size64) {
            Some(v) => vec![Stmt::Call(v)],
            None => {
                return None;
            },
        },
        X86Opcode::PUSH => match operand(instr, 0) {
            X86Operand::Register(r) if r.class == RegClass::Q => vec![
                Stmt::Binop(
                    Binopcode::Sub,
                    Value::Reg(4, ValSize::Size64),
                    Value::Reg(4, ValSize::Size64),
                    mk_value_i64(8),
                ),
                Stmt::Unop(
                    Unopcode::Mov,
                    Value::Mem(ValSize::Size64, MemArgs::Mem1Arg(MemArg::Reg(4, ValSize::Size64))),
                    Value::Reg(r.num, ValSize::Size64),
                ),
            ],
            _ => {
                return None;
            },
        },
        X86Opcode::POP => match operand(instr, 0) {
            X86Operand::Register(r) if r.class == RegClass::Q => vec![
                Stmt::Unop(
                    Unopcode::Mov,
                    Value::Reg(r.num, ValSize::Size64),
                    Value::Mem(ValSize::Size64, MemArgs::Mem1Arg(MemArg::Reg(4, ValSize::Size64))),
                ),
                Stmt::Binop(
                    Binopcode::Add,
                    Value::Reg(4, ValSize::Size64),
                    Value::Reg(4, ValSize::Size64),
                    mk_value_i64(8),
                ),
            ],
            _ => {
                return None;
            },
        },
        X86Opcode::NOP
        | X86Opcode::FILD
        | X86Opcode::STD
        | X86Opcode::CLD
        | X86Opcode::STI
        | X86Opcode::Invalid => Vec::new(),
        X86Opcode::IDIV | X86Opcode::DIV => match zf_clear(instr) {
            Some(z) => vec![
                Stmt::Clear(Value::Reg(0, ValSize::Size64), Vec::new()),
                Stmt::Clear(Value::Reg(2, ValSize::Size64), Vec::new()),
                z,
            ],
            None => {
                return None;
            },
        },
        X86Opcode::XOR if instr.operands.len() == 2 && operand(instr, 0) == operand(instr, 1) => {
            match (convert_operand(operand(instr, 0), ValSize::Size64), zf_clear(instr)) {
                (Some(x), Some(z)) => vec![Stmt::Unop(Unopcode::Mov, x, mk_value_i64(0)), z],
                _ => {
                    return None;
                },
            }
        },
        X86Opcode::SETO
        | X86Opcode::SETNO
        | X86Opcode::SETB
        | X86Opcode::SETAE
        | X86Opcode::SETZ
        | X86Opcode::SETNZ
        | X86Opcode::SETBE
        | X86Opcode::SETA
        | X86Opcode::SETS
        | X86Opcode::SETNS
        | X86Opcode::SETP
        | X86Opcode::SETNP
        | X86Opcode::SETL
        | X86Opcode::SETGE
        | X86Opcode::SETLE
        | X86Opcode::SETG => match convert_operand(operand(instr, 0), ValSize::Size8) {
            Some(x) => vec![Stmt::Unop(Unopcode::Setcc, x, Value::Reg(16, ValSize::Size8))],
            None => {
                return None;
            },
        },
        _ => match jump_kind(op) {
            Some(k) => match convert_operand(operand(instr, 0), ValSize::Size64) {
                Some(v) => vec![Stmt::Branch(k, v)],
                None => {
                    return None;
                },
            },
            None => {
                if instr.operands.len() > 0 {
                    return clear_dst(instr);
                }
                Vec::new()
            },
        },
    };
    assert(stmts_view(out@) =~= spec_lift(*instr, addr).unwrap());
    Some(out)
}

/// A Lucet call to `lucet_probestack` (a call is five bytes long).
pub open spec fn spec_is_probestack(instr: X86Instr, addr: u64, md: CompilerMetadata) -> bool {
    &&& md.compiler == Compiler::Lucet
    &&& instr.opcode == X86Opcode::CALL
    &&& spec_convert_operand(spec_operand(instr, 0), ValSize::SizeOther) matches Some(
        Value::Imm(_, _, off),
    )
    &&& 5 + off as int + addr as int == md.lucet_probestack as int
}

fn is_probestack(instr: &X86Instr, addr: u64, md: &CompilerMetadata) -> (r: bool)
    ensures
        r == spec_is_probestack(*instr, addr, *md),
{
    if md.compiler != Compiler::Lucet || instr.opcode != X86Opcode::CALL {
        return false;
    }
    match convert_operand(operand(instr, 0), ValSize::SizeOther) {
        Some(Value::Imm(_, _, off)) => 5 + off as i128 + addr as i128 == md.lucet_probestack as i128,
        _ => false,
    }
}

/// `mov eax, n`: the size of a following probestack call.
pub open spec fn spec_probestack_arg(instr: X86Instr) -> Option<u64> {
    if instr.opcode == X86Opcode::MOV && instr.operands@.len() == 2 {
        match (
            spec_convert_operand(spec_operand(instr, 0), ValSize::SizeOther),
            spec_convert_operand(spec_operand(instr, 1), ValSize::SizeOther),
        ) {
            (Some(Value::Reg(0, ValSize::Size32)), Some(Value::Imm(_, _, x))) => Some(x as u64),
            _ => None,
        }
    } else {
        None
    }
}

fn probestack_arg(instr: &X86Instr) -> (r: Option<u64>)
    ensures
        r == spec_probestack_arg(*instr),
{
    if instr.opcode == X86Opcode::MOV && instr.operands.len() == 2 {
        match (
            convert_operand(operand(instr, 0), ValSize::SizeOther),
            convert_operand(operand(instr, 1), ValSize::SizeOther),
        ) {
            (Some(Value::Reg(0, ValSize::Size32)), Some(Value::Imm(_, _, x))) => Some(
                #[verifier::truncate] (x as u64),
            ),
            _ => None,
        }
    } else {
        None
    }
}

/// `sub rsp, rax`, which completes a probestack sequence.
pub open spec fn spec_is_probestack_suffix(instr: X86Instr) -> bool {
    &&& instr.opcode == X86Opcode::SUB
    &&& instr.operands@.len() == 2
    &&& spec_convert_operand(spec_operand(instr, 0), ValSize::SizeOther) == Some(rsp64())
    &&& spec_convert_operand(spec_operand(instr, 1), ValSize::SizeOther) == Some(
        Value::Reg(0, ValSize::Size64),
    )
}

fn is_probestack_suffix(instr: &X86Instr) -> (r: bool)
    ensures
        r == spec_is_probestack_suffix(*instr),
{
    instr.opcode == X86Opcode::SUB && instr.operands.len() == 2 && convert_operand(
        operand(instr, 0),
        ValSize::SizeOther,
    ) == Some(Value::Reg(4, ValSize::Size64)) && convert_operand(operand(instr, 1), ValSize::SizeOther)
        == Some(Value::Reg(0, ValSize::Size64))
}

pub open spec fn instr_view(i: IRInstr) -> (u64, Seq<StmtView>) {
    (i.addr, stmts_view(i.stmts@))
}

/// Lifting the instructions of a block from index `i` on; `probe` is the
/// size set by the latest `mov eax, n`, and `suffix` says that the previous
/// instruction was a probestack call, whose `sub rsp, rax` is consumed.
pub open spec fn spec_lift_from(
    instrs: Seq<(u64, X86Instr)>,
    md: CompilerMetadata,
    i: int,
    probe: Option<u64>,
    suffix: bool,
) -> Option<Seq<(u64, Seq<StmtView>)>>
    decreases instrs.len() - i,
{
    if i >= instrs.len() || i < 0 {
        Some(Seq::empty())
    } else {
        let (addr, ins) = instrs[i];
        if suffix {
            if spec_is_probestack_suffix(ins) {
                spec_lift_from(instrs, md, i + 1, probe, false)
            } else {
                None
            }
        } else if spec_is_probestack(ins, addr, md) {
            match (probe, spec_lift_from(instrs, md, i + 1, probe, true)) {
                (Some(n), Some(rest)) => Some(seq![(addr, seq![StmtView::ProbeStack(n)])] + rest),
                _ => None,
            }
        } else {
            match (spec_lift(ins, addr), spec_lift_from(instrs, md, i + 1, spec_probestack_arg(ins), false)) {
                (Some(s), Some(rest)) => Some(seq![(addr, s)] + rest),
                _ => None,
            }
        }
    }
}

/// Lift the instructions of a block. A `mov eax, n; call lucet_probestack;
/// sub rsp, rax` sequence becomes a single `ProbeStack(n)` at the call.
pub fn lift_block(instrs: &Vec<(u64, X86Instr)>, md: &CompilerMetadata) -> (r: Option<Vec<IRInstr>>)
    ensures
        r is Some <==> spec_lift_from(instrs@, *md, 0, None, false) is Some,
        r matches Some(v) ==> Some(v@.map_values(|x: IRInstr| instr_view(x))) == spec_lift_from(
            instrs@,
            *md,
            0,
            None,
            false,
        ),
{
    let mut out: Vec<IRInstr> = Vec::new();
    let mut probe: Option<u64> = None;
    let mut suffix = false;
    let mut i: usize = 0;
    while i < instrs.len()
        invariant
            i <= instrs.len(),
            spec_lift_from(instrs@, *md, 0, None, false) == match spec_lift_from(
                instrs@,
                *md,
                i as int,
                probe,
                suffix,
            ) {
                Some(rest) => Some(out@.map_values(|x: IRInstr| instr_view(x)) + rest),
                None => None,
            },
        decreases instrs.len() - i,
    {
        let addr = instrs[i].0;
        let ins = &instrs[i].1;
        let ghost prev = out@.map_values(|x: IRInstr| instr_view(x));
        if suffix {
            if !is_probestack_suffix(ins) {
                return None;
            }
            suffix = false;
        } else if is_probestack(ins, addr, md) {
            match probe {
                Some(n) => {
                    let probe_stmts = vec![Stmt::ProbeStack(n)];
                    assert(stmts_view(probe_stmts@) =~= seq![StmtView::ProbeStack(n)]);
                    out.push(IRInstr { addr, stmts: probe_stmts });
                    suffix = true;
                    proof {
                        assert(out@.map_values(|x: IRInstr| instr_view(x)) =~= prev.push(
                            (addr, seq![StmtView::ProbeStack(n)]),
                        ));
                    }
                },
                None => {
                    return None;
                },
            }
        } else {
            match lift(ins, addr) {
                Some(stmts) => {
                    let ghost sv = stmts_view(stmts@);
                    out.push(IRInstr { addr, stmts });
                    probe = probestack_arg(ins);
                    proof {
                        assert(out@.map_values(|x: IRInstr| instr_view(x)) =~= prev.push((addr, sv)));
                    }
                },
                None => {
                    return None;
                },
            }
        }
        proof {
            let cur = out@.map_values(|x: IRInstr| instr_view(x));
            match spec_lift_from(instrs@, *md, i + 1, probe, suffix) {
                Some(rest) => {
                    if cur.len() > prev.len() {
                        assert(cur + rest =~= prev + (seq![cur.last()] + rest));
                    }
                },
                None => {},
            }
        }
        i = i + 1;
    }
    assert(out@.map_values(|x: IRInstr| instr_view(x)) + Seq::<(u64, Seq<StmtView>)>::empty()
        =~= out@.map_values(|x: IRInstr| instr_view(x)));
    Some(out)
}

} // verus!
