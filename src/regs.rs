//! The register file: one lattice value per general-purpose register and
//! one for the zero flag.
use crate::ir::ValSize;
use crate::lattice::{Lattice, LocIdx};
use vstd::prelude::*;

verus! {

/// Number of tracked registers: the sixteen general-purpose registers and
/// the zero-flag pseudo-register.
pub const NUM_REGS: usize = 17;

/// Register file. Register `i` (0 to 15 in x86 encoding order, 16 for the
/// zero flag) holds `regs[i]`.
pub struct X86RegsLattice<T> {
    pub regs: Vec<T>,
}

/// Register number to value; numbers outside the file read as the default.
pub open spec fn regs_view<T: Lattice>(regs: Seq<T>) -> Map<int, T::V> {
    Map::total(|i: int| if 0 <= i < regs.len() { regs[i]@ } else { T::bot_v() })
}

impl<T: Lattice> View for X86RegsLattice<T> {
    type V = Map<int, T::V>;

    open spec fn view(&self) -> Map<int, T::V> {
        regs_view(self.regs@)
    }
}

/// The file after writing `v` to register `idx` at width `size`. The
/// lattice value stands for the whole 64-bit register, whatever the width
/// written; registers of no known width (vector registers) are not tracked.
pub open spec fn reg_write<V>(regs: Map<int, V>, idx: u8, size: ValSize, v: V) -> Map<int, V> {
    if idx < NUM_REGS && size != ValSize::SizeOther {
        regs.insert(idx as int, v)
    } else {
        regs
    }
}

/// What reading register `idx` at width `size` yields: the parent
/// register's value, or `bot` for an untracked register.
pub open spec fn reg_read<V>(regs: Map<int, V>, idx: u8, size: ValSize, bot: V) -> V {
    if idx < NUM_REGS && size != ValSize::SizeOther {
        regs[idx as int]
    } else {
        bot
    }
}

/// The caller-saved registers of the System V ABI and the zero flag.
pub open spec fn is_caller_saved(i: int) -> bool {
    i == 0 || i == 1 || i == 2 || i == 6 || i == 7 || i == 8 || i == 9 || i == 10 || i == 11
        || i == 16
}

impl<T: Lattice> X86RegsLattice<T> {
    pub open spec fn wf(&self) -> bool {
        &&& self.regs.len() == NUM_REGS
        &&& forall|i: int| 0 <= i < self.regs.len() ==> (#[trigger] self.regs[i]).wf()
    }

    /// Every register at the default value.
    pub fn new() -> (r: Self)
        ensures
            r.wf(),
            r@ == Map::total(|i: int| T::bot_v()),
    {
        let mut regs: Vec<T> = Vec::new();
        let mut i: usize = 0;
        while i < NUM_REGS
            invariant
                i <= NUM_REGS,
                regs.len() == i,
                forall|j: int| 0 <= j < i ==> (#[trigger] regs[j]).wf() && regs[j]@ == T::bot_v(),
            decreases NUM_REGS - i,
        {
            regs.push(T::bot());
            i = i + 1;
        }
        let r = X86RegsLattice { regs };
        assert(r@ =~= Map::total(|i: int| T::bot_v()));
        r
    }

    pub fn get(&self, idx: &u8, size: &ValSize) -> (r: T)
        requires
            self.wf(),
        ensures
            r.wf(),
            r@ == reg_read(self@, *idx, *size, T::bot_v()),
    {
        if (*idx as usize) < NUM_REGS && *size != ValSize::SizeOther {
            self.regs[*idx as usize].duplicate()
        } else {
            T::bot()
        }
    }

    pub fn set(&mut self, idx: &u8, size: &ValSize, v: T)
        requires
            old(self).wf(),
            v.wf(),
        ensures
            final(self).wf(),
            final(self)@ == reg_write(old(self)@, *idx, *size, v@),
    {
        if (*idx as usize) < NUM_REGS && *size != ValSize::SizeOther {
            self.regs.set(*idx as usize, v);
            assert(self@ =~= reg_write(old(self)@, *idx, *size, v@));
        }
    }

    /// Forget the registers that a call may clobber.
    pub fn clear_regs(&mut self)
        requires
            old(self).wf(),
        ensures
            final(self).wf(),
            final(self)@ == Map::total(
                |i: int| if is_caller_saved(i) { T::bot_v() } else { old(self)@[i] },
            ),
    {
        let mut i: usize = 0;
        while i < NUM_REGS
            invariant
                i <= NUM_REGS,
                self.wf(),
                forall|j: int|
                    #[trigger] self@[j] == if 0 <= j < i && is_caller_saved(j) {
                        T::bot_v()
                    } else {
                        old(self)@[j]
                    },
            decreases NUM_REGS - i,
        {
            if i == 0 || i == 1 || i == 2 || i == 6 || i == 7 || i == 8 || i == 9 || i == 10 || i
                == 11 || i == 16 {
                let ghost prev = self@;
                self.regs.set(i, T::bot());
                assert(self@ =~= prev.insert(i as int, T::bot_v()));
            }
            i = i + 1;
        }
        assert(self@ =~= Map::total(
            |i: int| if is_caller_saved(i) { T::bot_v() } else { old(self)@[i] },
        ));
    }

    pub fn duplicate(&self) -> (r: Self)
        requires
            self.wf(),
        ensures
            r.wf(),
            r@ == self@,
    {
        let mut regs: Vec<T> = Vec::new();
        let mut i: usize = 0;
        while i < self.regs.len()
            invariant
                self.wf(),
                i <= self.regs.len(),
                regs.len() == i,
                forall|j: int| 0 <= j < i ==> (#[trigger] regs[j]).wf() && regs[j]@ == self.regs[j]@,
            decreases self.regs.len() - i,
        {
            regs.push(self.regs[i].duplicate());
            i = i + 1;
        }
        let r = X86RegsLattice { regs };
        assert(r@ =~= self@);
        r
    }

    /// Register-wise meet.
    pub fn meet(&self, other: &Self, loc: &LocIdx) -> (r: Self)
        requires
            self.wf(),
            other.wf(),
        ensures
            r.wf(),
            r@ == Map::total(|i: int| T::meet_v(self@[i], other@[i])),
    {
        let mut regs: Vec<T> = Vec::new();
        let mut i: usize = 0;
        while i < NUM_REGS
            invariant
                self.wf(),
                other.wf(),
                i <= NUM_REGS,
                regs.len() == i,
                forall|j: int|
                    0 <= j < i ==> (#[trigger] regs[j]).wf() && regs[j]@ == T::meet_v(
                        self.regs[j]@,
                        other.regs[j]@,
                    ),
            decreases NUM_REGS - i,
        {
            regs.push(self.regs[i].meet(&other.regs[i], loc));
            i = i + 1;
        }
        let r = X86RegsLattice { regs };
        assert forall|i: int| #[trigger] r@[i] == T::meet_v(self@[i], other@[i]) by {
            T::lemma_bot_valid();
                T::lemma_laws(T::bot_v(), T::bot_v(), T::bot_v());
        }
        assert(r@ =~= Map::total(|i: int| T::meet_v(self@[i], other@[i])));
        r
    }

    pub fn same(&self, other: &Self) -> (r: bool)
        requires
            self.wf(),
            other.wf(),
        ensures
            r == (self@ == other@),
    {
        let mut i: usize = 0;
        while i < NUM_REGS
            invariant
                self.wf(),
                other.wf(),
                i <= NUM_REGS,
                forall|j: int| 0 <= j < i ==> #[trigger] self@[j] == other@[j],
            decreases NUM_REGS - i,
        {
            if !self.regs[i].same(&other.regs[i]) {
                assert(self@[i as int] != other@[i as int]);
                return false;
            }
            i = i + 1;
        }
        assert forall|j: int| #[trigger] self@[j] == other@[j] by {
            if 0 <= j < NUM_REGS {
                assert(self@[j] == other@[j]);
            }
        }
        assert(self@ =~= other@);
        true
    }
}

} // verus!
