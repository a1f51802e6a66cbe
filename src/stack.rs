//! The abstract stack: lattice values stored at byte offsets from `%rsp` at
//! function entry.
use crate::lattice::{Lattice, LocIdx};
use vstd::prelude::*;

verus! {

/// A value of `size` bytes stored at `offset` (relative to `%rsp` at entry).
pub struct StackSlot<T> {
    pub offset: i64,
    pub size: u32,
    pub value: T,
}

/// `offset` is the current displacement of `%rsp` from its value at entry.
pub struct StackLattice<T> {
    pub offset: i64,
    pub slots: Vec<StackSlot<T>>,
}

pub open spec fn slot_seq<T: Lattice>(s: Seq<StackSlot<T>>) -> Seq<(i64, u32, T::V)> {
    s.map_values(|x: StackSlot<T>| (x.offset, x.size, x.value@))
}

/// The value of the last slot stored under key `k`, or `bot`.
pub open spec fn lookup<V>(s: Seq<(i64, u32, V)>, k: (i64, u32), bot: V) -> V
    decreases s.len(),
{
    if s.len() == 0 {
        bot
    } else if s.last().0 == k.0 && s.last().1 == k.1 {
        s.last().2
    } else {
        lookup(s.drop_last(), k, bot)
    }
}

pub open spec fn key_in<V>(s: Seq<(i64, u32, V)>, k: (i64, u32)) -> bool {
    exists|i: int| 0 <= i < s.len() && s[i].0 == k.0 && s[i].1 == k.1
}

pub proof fn lemma_lookup_absent<V>(s: Seq<(i64, u32, V)>, k: (i64, u32), bot: V)
    requires
        !key_in(s, k),
    ensures
        lookup(s, k, bot) == bot,
    decreases s.len(),
{
    if s.len() > 0 {
        assert(!key_in(s.drop_last(), k)) by {
            if key_in(s.drop_last(), k) {
                let i = choose|i: int|
                    0 <= i < s.drop_last().len() && s.drop_last()[i].0 == k.0 && s.drop_last()[i].1
                        == k.1;
                assert(s[i] == s.drop_last()[i]);
            }
        }
        assert(s[s.len() - 1] == s.last());
        lemma_lookup_absent(s.drop_last(), k, bot);
    }
}

pub proof fn lemma_lookup_valid<T: Lattice>(s: Seq<StackSlot<T>>, k: (i64, u32))
    requires
        forall|i: int| 0 <= i < s.len() ==> (#[trigger] s[i]).value.wf(),
    ensures
        T::valid_v(lookup(slot_seq(s), k, T::bot_v())),
    decreases s.len(),
{
    T::lemma_bot_valid();
    if s.len() > 0 {
        assert(slot_seq(s).drop_last() =~= slot_seq(s.drop_last()));
        T::lemma_valid(&s[s.len() - 1].value);
        lemma_lookup_valid(s.drop_last(), k);
    }
}

pub proof fn lemma_key_in_push<V>(s: Seq<(i64, u32, V)>, x: (i64, u32, V), k: (i64, u32))
    ensures
        key_in(s.push(x), k) == (key_in(s, k) || (x.0 == k.0 && x.1 == k.1)),
{
    if key_in(s, k) {
        let i = choose|i: int| 0 <= i < s.len() && s[i].0 == k.0 && s[i].1 == k.1;
        assert(s.push(x)[i] == s[i]);
    }
    if x.0 == k.0 && x.1 == k.1 {
        assert(s.push(x)[s.len() as int] == x);
    }
    if key_in(s.push(x), k) {
        let i = choose|i: int|
            0 <= i < s.push(x).len() && s.push(x)[i].0 == k.0 && s.push(x)[i].1 == k.1;
        if i < s.len() {
            assert(s.push(x)[i] == s[i]);
        }
    }
}

/// Whether the byte ranges of slot key `k` and `[a, a + w)` intersect.
pub open spec fn overlaps(k: (i64, u32), a: int, w: int) -> bool {
    k.0 < a + w && a < k.0 + k.1
}

pub open spec fn fits_i64(x: int) -> bool {
    i64::MIN <= x <= i64::MAX
}

/// The abstract stack after a write of `v` over `w` bytes at absolute
/// offset `a`: the slot at `(a, w)` holds `v`, every slot that overlaps
/// `[a, a + w)` is forgotten.
pub open spec fn stack_write<V>(m: Map<(i64, u32), V>, a: i64, w: u32, v: V, bot: V) -> Map<
    (i64, u32),
    V,
> {
    Map::total(
        |k: (i64, u32)|
            if k.0 == a && k.1 == w {
                v
            } else if overlaps(k, a as int, w as int) {
                bot
            } else {
                m[k]
            },
    )
}

impl<T: Lattice> View for StackLattice<T> {
    type V = (i64, Map<(i64, u32), T::V>);

    open spec fn view(&self) -> (i64, Map<(i64, u32), T::V>) {
        (self.offset, Map::total(|k: (i64, u32)| lookup(slot_seq(self.slots@), k, T::bot_v())))
    }
}

/// The value read at `off` bytes from the current `%rsp`, `size` bytes wide.
pub open spec fn stack_read<V>(s: (i64, Map<(i64, u32), V>), off: i64, size: u32, bot: V) -> V {
    if fits_i64(s.0 + off) {
        s.1[((s.0 + off) as i64, size)]
    } else {
        bot
    }
}

/// The abstract stack after writing `v` at `off` bytes from the current
/// `%rsp`; where the address cannot be formed, everything is forgotten.
pub open spec fn stack_update<V>(s: (i64, Map<(i64, u32), V>), off: i64, size: u32, v: V, bot: V) -> (
    i64,
    Map<(i64, u32), V>,
) {
    if fits_i64(s.0 + off) {
        (s.0, stack_write(s.1, (s.0 + off) as i64, size, v, bot))
    } else {
        (s.0, Map::total(|k: (i64, u32)| bot))
    }
}

/// The abstract stack after `%rsp` moves by `adj` bytes.
pub open spec fn stack_shift<V>(s: (i64, Map<(i64, u32), V>), adj: int, bot: V) -> (
    i64,
    Map<(i64, u32), V>,
) {
    if fits_i64(s.0 + adj) {
        ((s.0 + adj) as i64, s.1)
    } else {
        (s.0, Map::total(|k: (i64, u32)| bot))
    }
}

impl<T: Lattice> StackLattice<T> {
    pub open spec fn wf(&self) -> bool {
        forall|i: int| 0 <= i < self.slots.len() ==> (#[trigger] self.slots[i]).value.wf()
    }

    pub fn new() -> (r: Self)
        ensures
            r.wf(),
            r@ == (0i64, Map::total(|k: (i64, u32)| T::bot_v())),
    {
        let r = StackLattice { offset: 0, slots: Vec::new() };
        assert(r@.1 =~= Map::total(|k: (i64, u32)| T::bot_v()));
        r
    }

    /// The value of the last slot under the absolute key `(a, size)`.
    pub fn lookup_abs(&self, a: i64, size: u32) -> (r: T)
        requires
            self.wf(),
        ensures
            r.wf(),
            r@ == lookup(slot_seq(self.slots@), (a, size), T::bot_v()),
    {
        let ghost s = slot_seq(self.slots@);
        let mut r = T::bot();
        let mut i: usize = 0;
        while i < self.slots.len()
            invariant
                self.wf(),
                s == slot_seq(self.slots@),
                i <= self.slots.len(),
                r.wf(),
                r@ == lookup(s.take(i as int), (a, size), T::bot_v()),
            decreases self.slots.len() - i,
        {
            assert(s.take(i + 1).drop_last() =~= s.take(i as int));
            if self.slots[i].offset == a && self.slots[i].size == size {
                r = self.slots[i].value.duplicate();
            }
            i = i + 1;
        }
        assert(s.take(i as int) =~= s);
        r
    }

    fn has_key(slots: &Vec<StackSlot<T>>, a: i64, size: u32) -> (r: bool)
        ensures
            r == key_in(slot_seq(slots@), (a, size)),
    {
        let ghost s = slot_seq(slots@);
        let mut i: usize = 0;
        while i < slots.len()
            invariant
                s == slot_seq(slots@),
                i <= slots.len(),
                forall|j: int| 0 <= j < i ==> !(s[j].0 == a && s[j].1 == size),
            decreases slots.len() - i,
        {
            if slots[i].offset == a && slots[i].size == size {
                assert(s[i as int].0 == a && s[i as int].1 == size);
                return true;
            }
            i = i + 1;
        }
        false
    }

    /// The value `size` bytes wide at `off` bytes from the current `%rsp`.
    pub fn get(&self, off: i64, size: u32) -> (r: T)
        requires
            self.wf(),
        ensures
            r.wf(),
            r@ == stack_read(self@, off, size, T::bot_v()),
    {
        let a: i128 = self.offset as i128 + off as i128;
        if a < i64::MIN as i128 || a > i64::MAX as i128 {
            T::bot()
        } else {
            self.lookup_abs(a as i64, size)
        }
    }

    /// Store `v` over `size` bytes at `off` bytes from the current `%rsp`.
    pub fn update(&mut self, off: i64, v: T, size: u32)
        requires
            old(self).wf(),
            v.wf(),
        ensures
            final(self).wf(),
            final(self)@ == stack_update(old(self)@, off, size, v@, T::bot_v()),
    {
        let a: i128 = self.offset as i128 + off as i128;
        if a < i64::MIN as i128 || a > i64::MAX as i128 {
            self.slots = Vec::new();
            assert(self@.1 =~= Map::total(|k: (i64, u32)| T::bot_v()));
            return;
        }
        let a = a as i64;
        let ghost s = slot_seq(self.slots@);
        let mut kept: Vec<StackSlot<T>> = Vec::new();
        let mut old_slots: Vec<StackSlot<T>> = Vec::new();
        std::mem::swap(&mut old_slots, &mut self.slots);
        assert(slot_seq(old_slots@) == s);
        let n = old_slots.len();
        let mut i: usize = 0;
        while i < n
            invariant
                n == old_slots.len(),
                i <= n,
                s == slot_seq(old_slots@),
                forall|j: int| 0 <= j < old_slots.len() ==> (#[trigger] old_slots[j]).value.wf(),
                forall|j: int| 0 <= j < kept.len() ==> (#[trigger] kept[j]).value.wf(),
                forall|k: (i64, u32)|
                    #[trigger] lookup(slot_seq(kept@), k, T::bot_v()) == if overlaps(
                        k,
                        a as int,
                        size as int,
                    ) {
                        T::bot_v()
                    } else {
                        lookup(s.take(i as int), k, T::bot_v())
                    },
            decreases n - i,
        {
            assert(s.take(i + 1).drop_last() =~= s.take(i as int));
            let slot_off = old_slots[i].offset;
            let slot_size = old_slots[i].size;
            let hit = (slot_off as i128) < (a as i128) + (size as i128) && (a as i128) < (
            slot_off as i128) + (slot_size as i128);
            let ghost prev = slot_seq(kept@);
            assert(s[i as int].0 == slot_off && s[i as int].1 == slot_size);
            assert(hit == overlaps((slot_off, slot_size), a as int, size as int));
            if !hit {
                kept.push(
                    StackSlot {
                        offset: slot_off,
                        size: slot_size,
                        value: old_slots[i].value.duplicate(),
                    },
                );
                assert(slot_seq(kept@) =~= prev.push(s[i as int]));
            }
            assert forall|k: (i64, u32)|
                #[trigger] lookup(slot_seq(kept@), k, T::bot_v()) == if overlaps(
                    k,
                    a as int,
                    size as int,
                ) {
                    T::bot_v()
                } else {
                    lookup(s.take(i + 1), k, T::bot_v())
                } by {
                assert(s.take(i + 1).last() == s[i as int]);
                assert(lookup(prev, k, T::bot_v()) == if overlaps(k, a as int, size as int) {
                    T::bot_v()
                } else {
                    lookup(s.take(i as int), k, T::bot_v())
                });
                if !hit {
                    assert(slot_seq(kept@).last() == s[i as int]);
                    assert(slot_seq(kept@).drop_last() =~= prev);
                }
            }
            i = i + 1;
        }
        assert(s.take(n as int) =~= s);
        let ghost prev = slot_seq(kept@);
        kept.push(StackSlot { offset: a, size, value: v });
        assert(slot_seq(kept@) =~= prev.push((a, size, v@)));
        self.slots = kept;
        assert forall|k: (i64, u32)|
            #[trigger] self@.1[k] == stack_write(old(self)@.1, a, size, v@, T::bot_v())[k] by {
            assert(lookup(slot_seq(self.slots@), k, T::bot_v()) == lookup(
                prev.push((a, size, v@)),
                k,
                T::bot_v(),
            ));
            assert(prev.push((a, size, v@)).drop_last() =~= prev);
            assert(lookup(prev, k, T::bot_v()) == if overlaps(k, a as int, size as int) {
                T::bot_v()
            } else {
                lookup(s, k, T::bot_v())
            });
        }
        assert(self@.1 =~= stack_write(old(self)@.1, a, size, v@, T::bot_v()));
    }

    /// Move `%rsp` by `adj` bytes; slots keep their absolute offsets.
    pub fn update_stack_offset(&mut self, adj: i64)
        requires
            old(self).wf(),
        ensures
            final(self).wf(),
            final(self)@ == stack_shift(old(self)@, adj as int, T::bot_v()),
    {
        let o: i128 = self.offset as i128 + adj as i128;
        if o < i64::MIN as i128 || o > i64::MAX as i128 {
            self.slots = Vec::new();
            assert(self@.1 =~= Map::total(|k: (i64, u32)| T::bot_v()));
        } else {
            self.offset = o as i64;
        }
    }

    /// Move `%rsp` down by `amount` bytes.
    pub fn lower_stack_offset(&mut self, amount: i64)
        requires
            old(self).wf(),
        ensures
            final(self).wf(),
            final(self)@ == stack_shift(old(self)@, -(amount as int), T::bot_v()),
    {
        let o: i128 = self.offset as i128 - amount as i128;
        if o < i64::MIN as i128 || o > i64::MAX as i128 {
            self.slots = Vec::new();
            assert(self@.1 =~= Map::total(|k: (i64, u32)| T::bot_v()));
        } else {
            self.offset = o as i64;
        }
    }

    /// Store `v` under the absolute key `(a, size)`, leaving every other key
    /// as it is.
    pub fn set_key(&mut self, a: i64, size: u32, v: T)
        requires
            old(self).wf(),
            v.wf(),
        ensures
            final(self).wf(),
            final(self)@ == (old(self)@.0, old(self)@.1.insert((a, size), v@)),
    {
        let ghost prev = slot_seq(self.slots@);
        let ghost vv = v@;
        self.slots.push(StackSlot { offset: a, size, value: v });
        assert(slot_seq(self.slots@) =~= prev.push((a, size, vv)));
        assert forall|k: (i64, u32)| #[trigger] self@.1[k] == old(self)@.1.insert((a, size), vv)[k] by {
            assert(prev.push((a, size, vv)).drop_last() =~= prev);
        }
        assert(self@.1 =~= old(self)@.1.insert((a, size), vv));
    }

    /// Forget every slot.
    pub fn clear(&mut self)
        ensures
            final(self).wf(),
            final(self)@ == (old(self)@.0, Map::total(|k: (i64, u32)| T::bot_v())),
    {
        self.slots = Vec::new();
        assert(self@.1 =~= Map::total(|k: (i64, u32)| T::bot_v()));
    }

    pub fn duplicate(&self) -> (r: Self)
        requires
            self.wf(),
        ensures
            r.wf(),
            r@ == self@,
    {
        let mut slots: Vec<StackSlot<T>> = Vec::new();
        let mut i: usize = 0;
        while i < self.slots.len()
            invariant
                self.wf(),
                i <= self.slots.len(),
                slots.len() == i,
                forall|j: int|
                    0 <= j < i ==> (#[trigger] slots[j]).value.wf() && slots[j].offset
                        == self.slots[j].offset && slots[j].size == self.slots[j].size
                        && slots[j].value@ == self.slots[j].value@,
            decreases self.slots.len() - i,
        {
            slots.push(
                StackSlot {
                    offset: self.slots[i].offset,
                    size: self.slots[i].size,
                    value: self.slots[i].value.duplicate(),
                },
            );
            i = i + 1;
        }
        let r = StackLattice { offset: self.offset, slots };
        assert(slot_seq(r.slots@) =~= slot_seq(self.slots@));
        assert(r@.1 =~= self@.1);
        r
    }

    /// Slot-wise meet: each key holds the meet of the two values stored
    /// under it (the default where a stack has none).
    pub fn meet(&self, other: &Self, loc: &LocIdx) -> (r: Self)
        requires
            self.wf(),
            other.wf(),
        ensures
            r.wf(),
            r@ == (
                self@.0,
                Map::total(|k: (i64, u32)| T::meet_v(self@.1[k], other@.1[k])),
            ),
    {
        let ghost sa = slot_seq(self.slots@);
        let ghost sb = slot_seq(other.slots@);
        let mut out: Vec<StackSlot<T>> = Vec::new();
        let mut i: usize = 0;
        while i < self.slots.len()
            invariant
                self.wf(),
                other.wf(),
                sa == slot_seq(self.slots@),
                sb == slot_seq(other.slots@),
                i <= self.slots.len(),
                forall|j: int| 0 <= j < out.len() ==> (#[trigger] out[j]).value.wf(),
                forall|k: (i64, u32)|
                    #[trigger] key_in(slot_seq(out@), k) == key_in(sa.take(i as int), k),
                forall|k: (i64, u32)|
                    #[trigger] lookup(slot_seq(out@), k, T::bot_v()) == if key_in(
                        sa.take(i as int),
                        k,
                    ) {
                        T::meet_v(lookup(sa, k, T::bot_v()), lookup(sb, k, T::bot_v()))
                    } else {
                        T::bot_v()
                    },
            decreases self.slots.len() - i,
        {
            let o = self.slots[i].offset;
            let sz = self.slots[i].size;
            let ghost prev = slot_seq(out@);
            let ghost x = (o, sz, T::meet_v(lookup(sa, (o, sz), T::bot_v()), lookup(sb, (o, sz), T::bot_v())));
            assert(prev.push(x).drop_last() =~= prev);
            assert(sa.take(i + 1) =~= sa.take(i as int).push(sa[i as int]));
            if !Self::has_key(&out, o, sz) {
                let va = self.lookup_abs(o, sz);
                let vb = other.lookup_abs(o, sz);
                out.push(StackSlot { offset: o, size: sz, value: va.meet(&vb, loc) });
                assert(slot_seq(out@) =~= prev.push(
                    (o, sz, T::meet_v(lookup(sa, (o, sz), T::bot_v()), lookup(sb, (o, sz), T::bot_v()))),
                ));
            }
            assert forall|k: (i64, u32)|
                #[trigger] key_in(slot_seq(out@), k) == key_in(sa.take(i + 1), k) by {
                lemma_key_in_push(sa.take(i as int), sa[i as int], k);
                lemma_key_in_push(
                    prev,
                    (o, sz, T::meet_v(lookup(sa, (o, sz), T::bot_v()), lookup(sb, (o, sz), T::bot_v()))),
                    k,
                );
            }
            assert forall|k: (i64, u32)|
                #[trigger] lookup(slot_seq(out@), k, T::bot_v()) == if key_in(sa.take(i + 1), k) {
                    T::meet_v(lookup(sa, k, T::bot_v()), lookup(sb, k, T::bot_v()))
                } else {
                    T::bot_v()
                } by {
                lemma_key_in_push(sa.take(i as int), sa[i as int], k);
                assert(lookup(prev, k, T::bot_v()) == if key_in(sa.take(i as int), k) {
                    T::meet_v(lookup(sa, k, T::bot_v()), lookup(sb, k, T::bot_v()))
                } else {
                    T::bot_v()
                });
                assert(key_in(prev, (o, sz)) == key_in(sa.take(i as int), (o, sz)));
                assert(slot_seq(out@) == prev || slot_seq(out@) == prev.push(x));
                if slot_seq(out@) == prev.push(x) {
                    assert(lookup(prev.push(x), k, T::bot_v()) == if k.0 == o && k.1 == sz {
                        x.2
                    } else {
                        lookup(prev, k, T::bot_v())
                    });
                }
            }
            i = i + 1;
        }
        assert(sa.take(i as int) =~= sa);
        let mut j: usize = 0;
        while j < other.slots.len()
            invariant
                self.wf(),
                other.wf(),
                sa == slot_seq(self.slots@),
                sb == slot_seq(other.slots@),
                j <= other.slots.len(),
                forall|q: int| 0 <= q < out.len() ==> (#[trigger] out[q]).value.wf(),
                forall|k: (i64, u32)|
                    #[trigger] key_in(slot_seq(out@), k) == (key_in(sa, k) || key_in(
                        sb.take(j as int),
                        k,
                    )),
                forall|k: (i64, u32)|
                    #[trigger] lookup(slot_seq(out@), k, T::bot_v()) == if key_in(sa, k) || key_in(
                        sb.take(j as int),
                        k,
                    ) {
                        T::meet_v(lookup(sa, k, T::bot_v()), lookup(sb, k, T::bot_v()))
                    } else {
                        T::bot_v()
                    },
            decreases other.slots.len() - j,
        {
            let o = other.slots[j].offset;
            let sz = other.slots[j].size;
            let ghost prev = slot_seq(out@);
            let ghost x = (o, sz, T::meet_v(lookup(sa, (o, sz), T::bot_v()), lookup(sb, (o, sz), T::bot_v())));
            assert(prev.push(x).drop_last() =~= prev);
            assert(sb.take(j + 1) =~= sb.take(j as int).push(sb[j as int]));
            if !Self::has_key(&out, o, sz) {
                let va = self.lookup_abs(o, sz);
                let vb = other.lookup_abs(o, sz);
                out.push(StackSlot { offset: o, size: sz, value: va.meet(&vb, loc) });
                assert(slot_seq(out@) =~= prev.push(
                    (o, sz, T::meet_v(lookup(sa, (o, sz), T::bot_v()), lookup(sb, (o, sz), T::bot_v()))),
                ));
            }
            assert forall|k: (i64, u32)|
                #[trigger] key_in(slot_seq(out@), k) == (key_in(sa, k) || key_in(sb.take(j + 1), k)) by {
                lemma_key_in_push(sb.take(j as int), sb[j as int], k);
                lemma_key_in_push(
                    prev,
                    (o, sz, T::meet_v(lookup(sa, (o, sz), T::bot_v()), lookup(sb, (o, sz), T::bot_v()))),
                    k,
                );
            }
            assert forall|k: (i64, u32)|
                #[trigger] lookup(slot_seq(out@), k, T::bot_v()) == if key_in(sa, k) || key_in(
                    sb.take(j + 1),
                    k,
                ) {
                    T::meet_v(lookup(sa, k, T::bot_v()), lookup(sb, k, T::bot_v()))
                } else {
                    T::bot_v()
                } by {
                lemma_key_in_push(sb.take(j as int), sb[j as int], k);
                assert(lookup(prev, k, T::bot_v()) == if key_in(sa, k) || key_in(sb.take(j as int), k) {
                    T::meet_v(lookup(sa, k, T::bot_v()), lookup(sb, k, T::bot_v()))
                } else {
                    T::bot_v()
                });
                assert(key_in(prev, (o, sz)) == (key_in(sa, (o, sz)) || key_in(sb.take(j as int), (o, sz))));
                assert(slot_seq(out@) == prev || slot_seq(out@) == prev.push(x));
                if slot_seq(out@) == prev.push(x) {
                    assert(lookup(prev.push(x), k, T::bot_v()) == if k.0 == o && k.1 == sz {
                        x.2
                    } else {
                        lookup(prev, k, T::bot_v())
                    });
                }
            }
            j = j + 1;
        }
        assert(sb.take(j as int) =~= sb);
        let r = StackLattice { offset: self.offset, slots: out };
        assert forall|k: (i64, u32)|
            #[trigger] r@.1[k] == T::meet_v(self@.1[k], other@.1[k]) by {
            if !key_in(sa, k) && !key_in(sb, k) {
                lemma_lookup_absent(sa, k, T::bot_v());
                lemma_lookup_absent(sb, k, T::bot_v());
                T::lemma_bot_valid();
                T::lemma_laws(T::bot_v(), T::bot_v(), T::bot_v());
            }
        }
        assert(r@.1 =~= Map::total(|k: (i64, u32)| T::meet_v(self@.1[k], other@.1[k])));
        r
    }

    pub fn same(&self, other: &Self) -> (r: bool)
        requires
            self.wf(),
            other.wf(),
        ensures
            r == (self@ == other@),
    {
        if self.offset != other.offset {
            return false;
        }
        let ghost sa = slot_seq(self.slots@);
        let ghost sb = slot_seq(other.slots@);
        let mut i: usize = 0;
        while i < self.slots.len()
            invariant
                self.wf(),
                other.wf(),
                sa == slot_seq(self.slots@),
                sb == slot_seq(other.slots@),
                i <= self.slots.len(),
                forall|k: (i64, u32)|
                    key_in(sa.take(i as int), k) ==> #[trigger] lookup(sa, k, T::bot_v()) == lookup(
                        sb,
                        k,
                        T::bot_v(),
                    ),
            decreases self.slots.len() - i,
        {
            let o = self.slots[i].offset;
            let sz = self.slots[i].size;
            let va = self.lookup_abs(o, sz);
            let vb = other.lookup_abs(o, sz);
            if !va.same(&vb) {
                assert(self@.1[(o, sz)] != other@.1[(o, sz)]);
                return false;
            }
            assert forall|k: (i64, u32)|
                key_in(sa.take(i + 1), k) implies #[trigger] lookup(sa, k, T::bot_v()) == lookup(
                    sb,
                    k,
                    T::bot_v(),
                ) by {
                assert(sa.take(i + 1) =~= sa.take(i as int).push(sa[i as int]));
                lemma_key_in_push(sa.take(i as int), sa[i as int], k);
            }
            i = i + 1;
        }
        assert(sa.take(i as int) =~= sa);
        let mut j: usize = 0;
        while j < other.slots.len()
            invariant
                self.wf(),
                other.wf(),
                sa == slot_seq(self.slots@),
                sb == slot_seq(other.slots@),
                j <= other.slots.len(),
                forall|k: (i64, u32)|
                    key_in(sa, k) || key_in(sb.take(j as int), k) ==> #[trigger] lookup(
                        sa,
                        k,
                        T::bot_v(),
                    ) == lookup(sb, k, T::bot_v()),
            decreases other.slots.len() - j,
        {
            let o = other.slots[j].offset;
            let sz = other.slots[j].size;
            let va = self.lookup_abs(o, sz);
            let vb = other.lookup_abs(o, sz);
            if !va.same(&vb) {
                assert(self@.1[(o, sz)] != other@.1[(o, sz)]);
                return false;
            }
            assert forall|k: (i64, u32)|
                key_in(sa, k) || key_in(sb.take(j + 1), k) implies #[trigger] lookup(
                    sa,
                    k,
                    T::bot_v(),
                ) == lookup(sb, k, T::bot_v()) by {
                assert(sb.take(j + 1) =~= sb.take(j as int).push(sb[j as int]));
                lemma_key_in_push(sb.take(j as int), sb[j as int], k);
            }
            j = j + 1;
        }
        assert(sb.take(j as int) =~= sb);
        assert forall|k: (i64, u32)| #[trigger] self@.1[k] == other@.1[k] by {
            if !key_in(sa, k) && !key_in(sb, k) {
                lemma_lookup_absent(sa, k, T::bot_v());
                lemma_lookup_absent(sb, k, T::bot_v());
            }
        }
        assert(self@.1 =~= other@.1);
        true
    }
}

} // verus!
