//! The intermediate representation that the analyses run on.
use vstd::prelude::*;

verus! {

/// Register number of `%rsp`.
pub const RSP: u8 = 4;

#[derive(Clone, Copy, Debug, PartialEq, Eq, Structural)]
pub enum ImmType {
    Signed,
    Unsigned,
}

#[derive(Clone, Copy, Debug, PartialEq, Eq, Structural)]
pub enum ValSize {
    Size8,
    Size16,
    Size32,
    Size64,
    SizeOther,
}

pub open spec fn size_bits(s: ValSize) -> u32 {
    match s {
        ValSize::Size8 => 8,
        ValSize::Size16 => 16,
        ValSize::Size32 => 32,
        ValSize::Size64 => 64,
        ValSize::SizeOther => 64,
    }
}

impl ValSize {
    /// Width in bits; an unknown width counts as 64.
    pub fn to_u32(&self) -> (r: u32)
        ensures
            r == size_bits(*self),
    {
        match self {
            ValSize::Size8 => 8,
            ValSize::Size16 => 16,
            ValSize::Size32 => 32,
            ValSize::Size64 => 64,
            ValSize::SizeOther => 64,
        }
    }
}

/// The size whose width is `num` bits.
pub fn valsize(num: u32) -> (r: ValSize)
    requires
        num == 8 || num == 16 || num == 32 || num == 64,
    ensures
        size_bits(r) == num,
        r != ValSize::SizeOther,
{
    if num == 8 {
        ValSize::Size8
    } else if num == 16 {
        ValSize::Size16
    } else if num == 32 {
        ValSize::Size32
    } else {
        ValSize::Size64
    }
}

#[derive(Clone, Copy, Debug, PartialEq, Eq, Structural)]
pub enum MemArg {
    /// A register: number and width.
    Reg(u8, ValSize),
    /// An immediate: signedness, width, payload.
    Imm(ImmType, ValSize, i64),
}

#[derive(Clone, Copy, Debug, PartialEq, Eq, Structural)]
pub enum MemArgs {
    /// `[a]`
    Mem1Arg(MemArg),
    /// `[a + b]`
    Mem2Args(MemArg, MemArg),
    /// `[a + b + c]`
    Mem3Args(MemArg, MemArg, MemArg),
    /// `[a + b * s]`
    MemScale(MemArg, MemArg, MemArg),
    /// `[a + b * s + d]`
    MemScaleDisp(MemArg, MemArg, MemArg, MemArg),
}

#[derive(Clone, Copy, Debug, PartialEq, Eq, Structural)]
pub enum Value {
    /// A memory operand: access width and address.
    Mem(ValSize, MemArgs),
    /// A register: number and width.
    Reg(u8, ValSize),
    /// An immediate: signedness, width, payload.
    Imm(ImmType, ValSize, i64),
}

/// A signed 64-bit immediate.
pub fn mk_value_i64(num: i64) -> (r: Value)
    ensures
        r == Value::Imm(ImmType::Signed, ValSize::Size64, num),
{
    Value::Imm(ImmType::Signed, ValSize::Size64, num)
}

#[derive(Clone, Copy, Debug, PartialEq, Eq, Structural)]
pub enum Unopcode {
    Mov,
    Setcc,
}

#[derive(Clone, Copy, Debug, PartialEq, Eq, Structural)]
pub enum Binopcode {
    Test,
    Rol,
    Cmp,
    Shl,
    And,
    Add,
    Sub,
}

/// The jump instruction a branch was lifted from.
#[derive(Clone, Copy, Debug, PartialEq, Eq, Structural)]
pub enum JumpKind {
    Jmp,
    Jo,
    Jno,
    Jb,
    Jnb,
    Jz,
    Jnz,
    Ja,
    Jna,
    Js,
    Jns,
    Jp,
    Jnp,
    Jl,
    Jge,
    Jle,
    Jg,
}

#[derive(Clone, Debug)]
pub enum Stmt {
    /// The destination becomes unknown; the sources are listed.
    Clear(Value, Vec<Value>),
    Unop(Unopcode, Value, Value),
    Binop(Binopcode, Value, Value, Value),
    Undefined,
    Ret,
    Branch(JumpKind, Value),
    Call(Value),
    /// A probestack call that touched this many bytes below `%rsp`.
    ProbeStack(u64),
}

/// One instruction's address and the statements it lifts to.
#[derive(Clone, Debug)]
pub struct IRInstr {
    pub addr: u64,
    pub stmts: Vec<Stmt>,
}

/// The lifted statements of one basic block, in order.
pub type IRBlock = Vec<IRInstr>;

pub open spec fn is_rsp(v: Value) -> bool {
    v == Value::Reg(RSP, ValSize::Size64)
}

/// Whether `v` is the full 64-bit `%rsp`.
pub fn value_is_rsp(v: &Value) -> (r: bool)
    ensures
        r == is_rsp(*v),
{
    match v {
        Value::Reg(4, ValSize::Size64) => true,
        _ => false,
    }
}

/// A write to `%rsp` at any width (`rsp`, `esp`, `sp`, `spl`).
pub open spec fn writes_rsp(v: Value) -> bool {
    match v {
        Value::Reg(n, sz) => n == RSP && sz != ValSize::SizeOther,
        _ => false,
    }
}

pub fn value_writes_rsp(v: &Value) -> (r: bool)
    ensures
        r == writes_rsp(*v),
{
    match v {
        Value::Reg(4, sz) => *sz != ValSize::SizeOther,
        _ => false,
    }
}

pub open spec fn memarg_is_stack(m: MemArg) -> bool {
    match m {
        MemArg::Reg(n, _) => n == RSP,
        _ => false,
    }
}

/// A memory operand addressed from `%rsp`: `[rsp]` or `[rsp + imm]`.
pub open spec fn is_stack_access(v: Value) -> bool {
    match v {
        Value::Mem(_, MemArgs::Mem1Arg(a)) => memarg_is_stack(a),
        Value::Mem(_, MemArgs::Mem2Args(a, b)) => memarg_is_stack(a) && b is Imm,
        _ => false,
    }
}

pub fn value_is_stack_access(v: &Value) -> (r: bool)
    ensures
        r == is_stack_access(*v),
{
    match v {
        Value::Mem(_, MemArgs::Mem1Arg(MemArg::Reg(4, _))) => true,
        Value::Mem(_, MemArgs::Mem2Args(MemArg::Reg(4, _), MemArg::Imm(_, _, _))) => true,
        _ => false,
    }
}

/// The displacement of a stack access (zero for `[rsp]`).
pub open spec fn stack_disp(v: Value) -> i64 {
    match v {
        Value::Mem(_, MemArgs::Mem2Args(_, MemArg::Imm(_, _, d))) => d,
        _ => 0,
    }
}

pub fn stack_access_disp(v: &Value) -> (r: i64)
    ensures
        r == stack_disp(*v),
{
    match v {
        Value::Mem(_, MemArgs::Mem2Args(_, MemArg::Imm(_, _, d))) => *d,
        _ => 0,
    }
}

/// The callee-saved registers of the System V ABI: rbx, rbp, r12 to r15.
pub open spec fn is_callee_saved_num(n: u8) -> bool {
    n == 3 || n == 5 || n == 12 || n == 13 || n == 14 || n == 15
}

pub open spec fn is_callee_saved_reg(v: Value) -> bool {
    match v {
        Value::Reg(n, _) => is_callee_saved_num(n),
        _ => false,
    }
}

pub fn value_is_callee_saved_reg(v: &Value) -> (r: bool)
    ensures
        r == is_callee_saved_reg(*v),
{
    match v {
        Value::Reg(n, _) => *n == 3 || *n == 5 || *n == 12 || *n == 13 || *n == 14 || *n == 15,
        _ => false,
    }
}

/// The payload of an immediate operand; zero for anything else.
pub open spec fn imm_payload(v: Value) -> i64 {
    match v {
        Value::Imm(_, _, x) => x,
        _ => 0,
    }
}

} // verus!
