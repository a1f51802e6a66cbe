//! A whole abstract machine state: register file and stack.
use crate::ir::{is_rsp, imm_payload, size_bits, value_is_rsp, value_writes_rsp, writes_rsp, Binopcode, MemArg, MemArgs, Value};
use crate::lattice::{Lattice, LocIdx};
use crate::regs::{is_caller_saved, reg_read, reg_write, X86RegsLattice, NUM_REGS};
use crate::stack::{lemma_lookup_valid, stack_read, stack_shift, stack_update, StackLattice};
use vstd::prelude::*;

verus! {

pub struct VariableState<T> {
    pub regs: X86RegsLattice<T>,
    pub stack: StackLattice<T>,
}

/// Abstract state: register values, and the stack (`%rsp` displacement and
/// values by absolute key).
pub type StateView<V> = (Map<int, V>, (i64, Map<(i64, u32), V>));

impl<T: Lattice> View for VariableState<T> {
    type V = StateView<T::V>;

    open spec fn view(&self) -> StateView<T::V> {
        (self.regs@, self.stack@)
    }
}

/// The stack location `v` addresses, as (displacement from `%rsp`, bytes).
pub open spec fn stack_loc(v: Value) -> Option<(i64, u32)> {
    match v {
        Value::Mem(sz, MemArgs::Mem1Arg(MemArg::Reg(4, _))) => Some((0i64, size_bits(sz) / 8)),
        Value::Mem(sz, MemArgs::Mem2Args(MemArg::Reg(4, _), MemArg::Imm(_, _, off))) => Some(
            (off, size_bits(sz) / 8),
        ),
        _ => None,
    }
}

/// What reading `index` yields: a register's value, a stack slot's value,
/// or nothing for other memory and for immediates.
pub open spec fn state_read<V>(s: StateView<V>, index: Value, bot: V) -> Option<V> {
    match index {
        Value::Reg(n, sz) => Some(reg_read(s.0, n, sz, bot)),
        Value::Mem(_, _) => match stack_loc(index) {
            Some(l) => Some(stack_read(s.1, l.0, l.1, bot)),
            None => None,
        },
        Value::Imm(_, _, _) => None,
    }
}

/// The state after writing `v` to `index`. Writes to memory other than the
/// stack, and to immediates, change nothing.
pub open spec fn state_write<V>(s: StateView<V>, index: Value, v: V, bot: V) -> StateView<V> {
    match index {
        Value::Reg(n, sz) => (reg_write(s.0, n, sz, v), s.1),
        Value::Mem(_, _) => match stack_loc(index) {
            Some(l) => (s.0, stack_update(s.1, l.0, l.1, v, bot)),
            None => s,
        },
        Value::Imm(_, _, _) => s,
    }
}

/// The state after a binary operation `dst <- src1 op src2` has moved
/// `%rsp`: `rsp += imm` and `rsp -= imm` shift the stack; any other write to
/// `%rsp`, at any width, forgets the stack.
pub open spec fn state_adjust<V>(
    s: StateView<V>,
    opcode: Binopcode,
    dst: Value,
    src1: Value,
    src2: Value,
    bot: V,
) -> StateView<V> {
    if !writes_rsp(dst) {
        s
    } else if is_rsp(dst) && is_rsp(src1) && src2 is Imm && opcode == Binopcode::Add {
        (s.0, stack_shift(s.1, imm_payload(src2) as int, bot))
    } else if is_rsp(dst) && is_rsp(src1) && src2 is Imm && opcode == Binopcode::Sub {
        (s.0, stack_shift(s.1, -(imm_payload(src2) as int), bot))
    } else {
        (s.0, (s.1.0, Map::total(|k: (i64, u32)| bot)))
    }
}

pub open spec fn state_on_call<V>(s: StateView<V>, bot: V) -> StateView<V> {
    (Map::total(|i: int| if is_caller_saved(i) { bot } else { s.0[i] }), s.1)
}

pub open spec fn opt_view<T: View>(r: Option<T>) -> Option<T::V> {
    match r {
        Some(x) => Some(x@),
        None => None,
    }
}

impl<T: Lattice> VariableState<T> {
    pub open spec fn wf(&self) -> bool {
        self.regs.wf() && self.stack.wf()
    }

    /// Every register and every stack slot at the default value.
    pub fn new() -> (r: Self)
        ensures
            r.wf(),
            r@ == <Self as Lattice>::bot_v(),
    {
        VariableState { regs: X86RegsLattice::new(), stack: StackLattice::new() }
    }

    pub fn get(&self, index: &Value) -> (r: Option<T>)
        requires
            self.wf(),
        ensures
            opt_view(r) == state_read(self@, *index, T::bot_v()),
            r matches Some(x) ==> x.wf(),
    {
        match index {
            Value::Reg(n, sz) => Some(self.regs.get(n, sz)),
            Value::Mem(sz, MemArgs::Mem1Arg(MemArg::Reg(4, _))) => Some(
                self.stack.get(0, sz.to_u32() / 8),
            ),
            Value::Mem(sz, MemArgs::Mem2Args(MemArg::Reg(4, _), MemArg::Imm(_, _, off))) => Some(
                self.stack.get(*off, sz.to_u32() / 8),
            ),
            _ => None,
        }
    }

    pub fn set(&mut self, index: &Value, v: T)
        requires
            old(self).wf(),
            v.wf(),
        ensures
            final(self).wf(),
            final(self)@ == state_write(old(self)@, *index, v@, T::bot_v()),
    {
        match index {
            Value::Reg(n, sz) => self.regs.set(n, sz, v),
            Value::Mem(sz, MemArgs::Mem1Arg(MemArg::Reg(4, _))) => self.stack.update(
                0,
                v,
                sz.to_u32() / 8,
            ),
            Value::Mem(sz, MemArgs::Mem2Args(MemArg::Reg(4, _), MemArg::Imm(_, _, off))) => {
                self.stack.update(*off, v, sz.to_u32() / 8)
            },
            _ => {},
        }
    }

    pub fn set_to_bot(&mut self, index: &Value)
        requires
            old(self).wf(),
        ensures
            final(self).wf(),
            final(self)@ == state_write(old(self)@, *index, T::bot_v(), T::bot_v()),
    {
        self.set(index, T::bot())
    }

    /// Forget the registers a call may clobber.
    pub fn on_call(&mut self)
        requires
            old(self).wf(),
        ensures
            final(self).wf(),
            final(self)@ == state_on_call(old(self)@, T::bot_v()),
    {
        self.regs.clear_regs()
    }

    pub fn adjust_stack_offset(&mut self, opcode: &Binopcode, dst: &Value, src1: &Value, src2: &Value)
        requires
            old(self).wf(),
        ensures
            final(self).wf(),
            final(self)@ == state_adjust(old(self)@, *opcode, *dst, *src1, *src2, T::bot_v()),
    {
        if value_is_rsp(dst) {
            match (src1, src2, opcode) {
                (Value::Reg(4, crate::ir::ValSize::Size64), Value::Imm(_, _, x), Binopcode::Add) => {
                    self.stack.update_stack_offset(*x)
                },
                (Value::Reg(4, crate::ir::ValSize::Size64), Value::Imm(_, _, x), Binopcode::Sub) => {
                    self.stack.lower_stack_offset(*x)
                },
                _ => self.stack.clear(),
            }
        } else if value_writes_rsp(dst) {
            self.stack.clear();
        }
    }
}

impl<T: Lattice> Lattice for VariableState<T> {
    open spec fn wf(&self) -> bool {
        self.regs.wf() && self.stack.wf()
    }

    /// Pointwise order on registers and on stack keys.
    open spec fn le_v(a: StateView<T::V>, b: StateView<T::V>) -> bool {
        &&& forall|i: int| T::le_v(#[trigger] a.0[i], b.0[i])
        &&& forall|k: (i64, u32)| T::le_v(#[trigger] a.1.1[k], b.1.1[k])
    }

    open spec fn meet_v(a: StateView<T::V>, b: StateView<T::V>) -> StateView<T::V> {
        (
            Map::total(|i: int| T::meet_v(a.0[i], b.0[i])),
            (a.1.0, Map::total(|k: (i64, u32)| T::meet_v(a.1.1[k], b.1.1[k]))),
        )
    }

    open spec fn bot_v() -> StateView<T::V> {
        (Map::total(|i: int| T::bot_v()), (0i64, Map::total(|k: (i64, u32)| T::bot_v())))
    }

    open spec fn valid_v(a: StateView<T::V>) -> bool {
        &&& a.0.dom() == Set::<int>::full()
        &&& a.1.1.dom() == Set::<(i64, u32)>::full()
        &&& forall|i: int| T::valid_v(#[trigger] a.0[i])
        &&& forall|k: (i64, u32)| T::valid_v(#[trigger] a.1.1[k])
    }

    proof fn lemma_valid(x: &Self) {
        assert forall|i: int| T::valid_v(#[trigger] x@.0[i]) by {
            T::lemma_bot_valid();
            if 0 <= i < x.regs.regs.len() {
                T::lemma_valid(&x.regs.regs[i]);
            }
        }
        assert forall|k: (i64, u32)| T::valid_v(#[trigger] x@.1.1[k]) by {
            lemma_lookup_valid(x.stack.slots@, k);
        }
        assert(x@.0.dom() =~= Set::<int>::full());
        assert(x@.1.1.dom() =~= Set::<(i64, u32)>::full());
    }

    proof fn lemma_bot_valid() {
        T::lemma_bot_valid();
        assert(Self::bot_v().0.dom() =~= Set::<int>::full());
        assert(Self::bot_v().1.1.dom() =~= Set::<(i64, u32)>::full());
    }

    proof fn lemma_laws(a: StateView<T::V>, b: StateView<T::V>, c: StateView<T::V>) {
        let m = Self::meet_v(a, b);
        assert forall|i: int| T::le_v(#[trigger] a.0[i], a.0[i]) by {
            T::lemma_laws(a.0[i], b.0[i], c.0[i]);
        }
        assert forall|k: (i64, u32)| T::le_v(#[trigger] a.1.1[k], a.1.1[k]) by {
            T::lemma_laws(a.1.1[k], b.1.1[k], c.1.1[k]);
        }
        if Self::le_v(a, b) && Self::le_v(b, c) {
            assert forall|i: int| T::le_v(#[trigger] a.0[i], c.0[i]) by {
                T::lemma_laws(a.0[i], b.0[i], c.0[i]);
            }
            assert forall|k: (i64, u32)| T::le_v(#[trigger] a.1.1[k], c.1.1[k]) by {
                T::lemma_laws(a.1.1[k], b.1.1[k], c.1.1[k]);
            }
        }
        assert forall|i: int|
            T::le_v(#[trigger] m.0[i], a.0[i]) && T::le_v(m.0[i], b.0[i]) && T::valid_v(m.0[i]) by {
            T::lemma_laws(a.0[i], b.0[i], c.0[i]);
        }
        assert forall|k: (i64, u32)|
            T::le_v(#[trigger] m.1.1[k], a.1.1[k]) && T::le_v(m.1.1[k], b.1.1[k]) && T::valid_v(
                m.1.1[k],
            ) by {
            T::lemma_laws(a.1.1[k], b.1.1[k], c.1.1[k]);
        }
        assert(m.0.dom() =~= Set::<int>::full());
        assert(m.1.1.dom() =~= Set::<(i64, u32)>::full());
        if Self::le_v(c, a) && Self::le_v(c, b) {
            assert forall|i: int| T::le_v(#[trigger] c.0[i], m.0[i]) by {
                T::lemma_laws(a.0[i], b.0[i], c.0[i]);
            }
            assert forall|k: (i64, u32)| T::le_v(#[trigger] c.1.1[k], m.1.1[k]) by {
                T::lemma_laws(a.1.1[k], b.1.1[k], c.1.1[k]);
            }
        }
        let mm = Self::meet_v(a, a);
        assert forall|i: int| #[trigger] mm.0[i] == a.0[i] by {
            T::lemma_laws(a.0[i], a.0[i], a.0[i]);
        }
        assert forall|k: (i64, u32)| #[trigger] mm.1.1[k] == a.1.1[k] by {
            T::lemma_laws(a.1.1[k], a.1.1[k], a.1.1[k]);
        }
        assert(mm.0 =~= a.0);
        assert(mm.1.1 =~= a.1.1);
    }

    fn meet(&self, other: &Self, loc: &LocIdx) -> (r: Self) {
        VariableState { regs: self.regs.meet(&other.regs, loc), stack: self.stack.meet(&other.stack, loc) }
    }

    fn bot() -> (r: Self) {
        Self::new()
    }

    fn duplicate(&self) -> (r: Self) {
        VariableState { regs: self.regs.duplicate(), stack: self.stack.duplicate() }
    }

    fn same(&self, other: &Self) -> (r: bool) {
        self.regs.same(&other.regs) && self.stack.same(&other.stack)
    }
}

} // verus!
