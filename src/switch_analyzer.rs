//! Switch analysis: recognises the bounds check and address arithmetic of
//! a compiled jump table, so that an indirect jump through the table can be
//! resolved to its targets.
use crate::analysis::{AbstractAnalyzer, IRMap};
use crate::ir::{Binopcode, IRBlock, ImmType, MemArg, MemArgs, Stmt, ValSize, Value};
use crate::lattice::{const_le, const_meet, lemma_const_laws, ConstLattice, Lattice, LocIdx};
use crate::metadata::CompilerMetadata;
use crate::regs::reg_read;
use crate::varstate::{state_adjust, state_on_call, state_write, StateView, VariableState};
use vstd::prelude::*;

verus! {

#[derive(Clone, Copy, Debug, PartialEq, Eq, Structural)]
pub enum SwitchValue {
    /// The address of a jump table.
    SwitchBase(u32),
    /// The zero flag holds a comparison of register `.1` against `.0`.
    ZF(u32, u8),
    /// An index below this bound.
    UpperBound(u32),
    /// An entry loaded from the table at `.0` with an index below `.1`.
    JmpOffset(u32, u32),
    /// A jump target computed from the table at `.0` with an index below `.1`.
    JmpTarget(u32, u32),
}

pub type SwitchValueLattice = ConstLattice<SwitchValue>;

pub type SwitchLattice = VariableState<SwitchValueLattice>;

pub type SwitchView = StateView<Option<SwitchValue>>;

impl View for ConstLattice<SwitchValue> {
    type V = Option<SwitchValue>;

    open spec fn view(&self) -> Option<SwitchValue> {
        self.v
    }
}

impl Lattice for ConstLattice<SwitchValue> {
    open spec fn wf(&self) -> bool {
        true
    }

    open spec fn le_v(a: Option<SwitchValue>, b: Option<SwitchValue>) -> bool {
        const_le(a, b)
    }

    open spec fn meet_v(a: Option<SwitchValue>, b: Option<SwitchValue>) -> Option<SwitchValue> {
        const_meet(a, b)
    }

    open spec fn bot_v() -> Option<SwitchValue> {
        None
    }

    open spec fn valid_v(a: Option<SwitchValue>) -> bool {
        true
    }

    proof fn lemma_valid(x: &Self) {
    }

    proof fn lemma_bot_valid() {
    }

    proof fn lemma_laws(a: Option<SwitchValue>, b: Option<SwitchValue>, c: Option<SwitchValue>) {
        lemma_const_laws(a, b, c);
    }

    fn meet(&self, other: &Self, loc: &LocIdx) -> (r: Self) {
        if self.v == other.v {
            ConstLattice { v: self.v }
        } else {
            ConstLattice { v: None }
        }
    }

    fn bot() -> (r: Self) {
        ConstLattice { v: None }
    }

    fn duplicate(&self) -> (r: Self) {
        ConstLattice { v: self.v }
    }

    fn same(&self, other: &Self) -> (r: bool) {
        self.v == other.v
    }
}

pub struct SwitchAnalyzer {
    pub metadata: CompilerMetadata,
}

pub open spec fn regw(s: SwitchView, n: u8, sz: ValSize) -> Option<SwitchValue> {
    reg_read(s.0, n, sz, None)
}

/// A source operand: `[B + I*4]` with B a table base and I bounded loads a
/// table entry; a register has its value; a non-zero immediate may be a
/// table base.
pub open spec fn spec_switch_eval(s: SwitchView, v: Value) -> Option<SwitchValue> {
    match v {
        Value::Mem(
            _,
            MemArgs::MemScale(MemArg::Reg(n1, sz1), MemArg::Reg(n2, sz2), MemArg::Imm(_, _, 4)),
        ) => match (regw(s, n1, sz1), regw(s, n2, sz2)) {
            (Some(SwitchValue::SwitchBase(base)), Some(SwitchValue::UpperBound(bound))) => Some(
                SwitchValue::JmpOffset(base, bound),
            ),
            _ => None,
        },
        Value::Reg(n, sz) => regw(s, n, sz),
        Value::Imm(_, _, x) => if x == 0 {
            None
        } else {
            Some(SwitchValue::SwitchBase(x as u32))
        },
        _ => None,
    }
}

/// `base + entry`: a jump target.
pub open spec fn spec_switch_add(s: SwitchView, src1: Value, src2: Value) -> Option<SwitchValue> {
    match (src1, src2) {
        (Value::Reg(n1, sz1), Value::Reg(n2, sz2)) => match (regw(s, n1, sz1), regw(s, n2, sz2)) {
            (Some(SwitchValue::SwitchBase(base)), Some(SwitchValue::JmpOffset(_, bound))) => Some(
                SwitchValue::JmpTarget(base, bound),
            ),
            (Some(SwitchValue::JmpOffset(_, bound)), Some(SwitchValue::SwitchBase(base))) => Some(
                SwitchValue::JmpTarget(base, bound),
            ),
            _ => None,
        },
        _ => None,
    }
}

pub open spec fn spec_switch_aexec(s: SwitchView, stmt: Stmt) -> SwitchView {
    match stmt {
        Stmt::Clear(dst, _) => state_write(s, dst, None, None),
        Stmt::Unop(_, dst, src) => state_write(s, dst, spec_switch_eval(s, src), None),
        Stmt::Binop(op, dst, src1, src2) => if op == Binopcode::Cmp {
            match (src1, src2) {
                (Value::Reg(n, _), Value::Imm(_, _, v)) | (Value::Imm(_, _, v), Value::Reg(n, _)) => (
                    s.0.insert(16, Some(SwitchValue::ZF(v as u32, n))),
                    s.1,
                ),
                _ => s,
            }
        } else if op == Binopcode::Test {
            s
        } else {
            state_adjust(
                state_write(
                    s,
                    dst,
                    if op == Binopcode::Add {
                        spec_switch_add(s, src1, src2)
                    } else {
                        None
                    },
                    None,
                ),
                op,
                dst,
                src1,
                src2,
                None,
            )
        },
        Stmt::Call(_) => state_on_call(s, None),
        Stmt::ProbeStack(n) => state_adjust(
            s,
            Binopcode::Sub,
            Value::Reg(4, ValSize::Size64),
            Value::Reg(4, ValSize::Size64),
            Value::Imm(ImmType::Unsigned, ValSize::Size64, n as i64),
            None,
        ),
        _ => s,
    }
}

/// On the edge where a comparison `cmp r, n` did not branch away (the
/// first successor), `r` is below `n`; both edges forget the flag.
pub open spec fn spec_switch_branch(out: SwitchView, succs: Seq<u64>) -> Seq<(u64, SwitchView)> {
    if succs.len() == 2 {
        let cleared = (out.0.insert(16, None), out.1);
        let bounded = match out.0[16] {
            Some(SwitchValue::ZF(bound, r)) => (
                crate::regs::reg_write(cleared.0, r, ValSize::Size64, Some(SwitchValue::UpperBound(bound))),
                out.1,
            ),
            _ => cleared,
        };
        seq![(succs[0], bounded), (succs[1], cleared)]
    } else {
        Seq::new(succs.len(), |j: int| (succs[j], out))
    }
}

impl SwitchAnalyzer {
    fn eval(&self, s: &SwitchLattice, v: &Value) -> (r: SwitchValueLattice)
        requires
            s.wf(),
        ensures
            r@ == spec_switch_eval(s@, *v),
    {
        match v {
            Value::Mem(
                _,
                MemArgs::MemScale(MemArg::Reg(n1, sz1), MemArg::Reg(n2, sz2), MemArg::Imm(_, _, 4)),
            ) => match (s.regs.get(n1, sz1).v, s.regs.get(n2, sz2).v) {
                (Some(SwitchValue::SwitchBase(base)), Some(SwitchValue::UpperBound(bound))) => {
                    ConstLattice::new(SwitchValue::JmpOffset(base, bound))
                },
                _ => ConstLattice { v: None },
            },
            Value::Reg(n, sz) => s.regs.get(n, sz),
            Value::Imm(_, _, x) => {
                if *x == 0 {
                    ConstLattice { v: None }
                } else {
                    ConstLattice::new(SwitchValue::SwitchBase(#[verifier::truncate] (*x as u32)))
                }
            },
            _ => ConstLattice { v: None },
        }
    }

    fn eval_add(&self, s: &SwitchLattice, src1: &Value, src2: &Value) -> (r: SwitchValueLattice)
        requires
            s.wf(),
        ensures
            r@ == spec_switch_add(s@, *src1, *src2),
    {
        match (src1, src2) {
            (Value::Reg(n1, sz1), Value::Reg(n2, sz2)) => match (
                s.regs.get(n1, sz1).v,
                s.regs.get(n2, sz2).v,
            ) {
                (Some(SwitchValue::SwitchBase(base)), Some(SwitchValue::JmpOffset(_, bound))) => {
                    ConstLattice::new(SwitchValue::JmpTarget(base, bound))
                },
                (Some(SwitchValue::JmpOffset(_, bound)), Some(SwitchValue::SwitchBase(base))) => {
                    ConstLattice::new(SwitchValue::JmpTarget(base, bound))
                },
                _ => ConstLattice { v: None },
            },
            _ => ConstLattice { v: None },
        }
    }
}

impl AbstractAnalyzer<SwitchLattice> for SwitchAnalyzer {
    open spec fn spec_init(&self) -> SwitchView {
        <SwitchLattice as Lattice>::bot_v()
    }

    open spec fn spec_aexec(&self, s: SwitchView, stmt: Stmt, loc: LocIdx) -> SwitchView {
        spec_switch_aexec(s, stmt)
    }

    open spec fn spec_branch(
        &self,
        irmap: Map<u64, IRBlock>,
        out: SwitchView,
        succs: Seq<u64>,
        addr: u64,
    ) -> Seq<(u64, SwitchView)> {
        spec_switch_branch(out, succs)
    }

    fn init_state(&self) -> (r: SwitchLattice) {
        VariableState::new()
    }

    fn aexec(&self, s: &mut SwitchLattice, stmt: &Stmt, loc: &LocIdx) {
        match stmt {
            Stmt::Clear(dst, _) => s.set_to_bot(dst),
            Stmt::Unop(_, dst, src) => {
                let v = self.eval(s, src);
                s.set(dst, v);
            },
            Stmt::Binop(Binopcode::Cmp, _, src1, src2) => match (src1, src2) {
                (Value::Reg(n, _), Value::Imm(_, _, v)) | (Value::Imm(_, _, v), Value::Reg(n, _)) => {
                    s.regs.set(
                        &16,
                        &ValSize::Size64,
                        ConstLattice::new(SwitchValue::ZF(#[verifier::truncate] (*v as u32), *n)),
                    );
                },
                _ => {},
            },
            Stmt::Binop(Binopcode::Test, _, _, _) => {},
            Stmt::Binop(op, dst, src1, src2) => {
                let v = match op {
                    Binopcode::Add => self.eval_add(s, src1, src2),
                    _ => ConstLattice { v: None },
                };
                s.set(dst, v);
                s.adjust_stack_offset(op, dst, src1, src2);
            },
            Stmt::Call(_) => s.on_call(),
            Stmt::ProbeStack(n) => s.adjust_stack_offset(
                &Binopcode::Sub,
                &Value::Reg(4, ValSize::Size64),
                &Value::Reg(4, ValSize::Size64),
                &Value::Imm(ImmType::Unsigned, ValSize::Size64, *n as i64),
            ),
            _ => {},
        }
    }

    fn process_branch(&self, irmap: &IRMap, s: &SwitchLattice, succs: &Vec<u64>, addr: &u64) -> (r: Vec<
        (u64, SwitchLattice),
    >) {
        let mut r: Vec<(u64, SwitchLattice)> = Vec::new();
        if succs.len() == 2 {
            let mut cleared = s.duplicate();
            cleared.regs.set(&16, &ValSize::Size64, ConstLattice { v: None });
            let mut bounded = cleared.duplicate();
            if let Some(SwitchValue::ZF(bound, reg)) = s.regs.get(&16, &ValSize::Size64).v {
                bounded.regs.set(&reg, &ValSize::Size64, ConstLattice::new(SwitchValue::UpperBound(bound)));
            }
            r.push((succs[0], bounded));
            r.push((succs[1], cleared));
            return r;
        }
        let mut j: usize = 0;
        while j < succs.len()
            invariant
                s.wf(),
                j <= succs.len(),
                r.len() == j,
                forall|q: int|
                    0 <= q < j ==> (#[trigger] r[q]).1.wf() && r[q].0 == succs[q] && r[q].1@ == s@,
            decreases succs.len() - j,
        {
            r.push((succs[j], s.duplicate()));
            j = j + 1;
        }
        r
    }
}

} // verus!
