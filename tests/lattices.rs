use std::collections::HashMap;
use veriwasm::jump_resolver::{le_bytes, resolve_target};
use veriwasm::metadata::Compiler;
use veriwasm::heaplattice::{HeapValue, HeapValueLattice};
use veriwasm::lattice::{BooleanLattice, ConstLattice, Constu32Lattice, Lattice, LocIdx};
use veriwasm::reach::ReachLattice;
use veriwasm::stackgrowth::StackGrowthLattice;

#[test]
fn heap_lattice_test() {
    let x1 = HeapValueLattice { v: None };
    let x2 = HeapValueLattice {
        v: Some(HeapValue::HeapBase),
    };
    let x3 = HeapValueLattice {
        v: Some(HeapValue::HeapBase),
    };
    let x4 = HeapValueLattice {
        v: Some(HeapValue::Bounded4GB),
    };

    assert_eq!(x1 == x2, false);
    assert_eq!(x2 == x3, true);
    assert_eq!(x3 == x4, false);

    assert_eq!(x1 != x2, true);
    assert_eq!(x2 != x3, false);
    assert_eq!(x3 != x4, true);

    assert_eq!(x1 > x2, false);
    assert_eq!(x2 > x3, false);
    assert_eq!(x3 > x4, false);

    assert_eq!(x1 < x2, true);
    assert_eq!(x2 < x3, false);
    assert_eq!(x3 < x4, false);

    assert_eq!(
        x1.meet(&x2, &LocIdx { addr: 0, idx: 0 }) == HeapValueLattice { v: None },
        true
    );
    assert_eq!(
        x2.meet(&x3, &LocIdx { addr: 0, idx: 0 })
            == HeapValueLattice {
                v: Some(HeapValue::HeapBase)
            },
        true
    );
    assert_eq!(
        x3.meet(&x4, &LocIdx { addr: 0, idx: 0 }) == HeapValueLattice { v: None },
        true
    );
}

#[test]
fn boolean_lattice_test() {
    let x = BooleanLattice { v: false };
    let y = BooleanLattice { v: true };
    assert_eq!(x < y, true);
    assert_eq!(x > y, false);
    assert_eq!(x.lt(&y), true);
}

#[test]
fn u32_lattice_test() {
    let x1 = ConstLattice::<u32> { v: Some(1) };
    let x2 = ConstLattice::<u32> { v: Some(1) };
    let y1 = ConstLattice::<u32> { v: Some(2) };
    let y2 = ConstLattice::<u32> { v: Some(2) };

    let z1 = Constu32Lattice { v: Some(3) };
    let z2 = Constu32Lattice { v: Some(3) };

    assert_eq!(x1 < y1, false);
    assert_eq!(y1 < x1, false);
    assert_eq!(x1 == x2, true);
    assert_eq!(x1 != x2, false);
    assert_eq!(y2 != x1, true);
    assert_eq!(x1 >= y1, false);
    assert_eq!(x1 > x2, false);
    assert_eq!(x1 >= x2, true);
    assert_eq!(z1 == z2, true);
    assert_eq!(z1 == x1, false);
    assert_eq!(x1.lt(&y1), false);
}

#[test]
fn stack_growth_lattice_test() {
    let x1 = StackGrowthLattice { v: None };
    let x2 = StackGrowthLattice { v: Some((1, 4096, HashMap::new())) };
    let x3 = StackGrowthLattice { v: Some((1, 4096, HashMap::new())) };
    let x4 = StackGrowthLattice { v: Some((2, 4096, HashMap::new())) };

    assert_eq!(x1 == x2, false);
    assert_eq!(x2 == x3, true);
    assert_eq!(x3 == x4, false);

    assert_eq!(x1 != x2, true);
    assert_eq!(x2 != x3, false);
    assert_eq!(x3 != x4, true);

    assert_eq!(x1 > x2, false);
    assert_eq!(x2 > x3, false);
    assert_eq!(x3 > x4, false);

    assert_eq!(x1 < x2, true);
    assert_eq!(x2 < x3, false);
    assert_eq!(x3 < x4, false);

    assert_eq!(
        x1.meet(&x2, &LocIdx { addr: 0, idx: 0 }) == StackGrowthLattice { v: None },
        true
    );
    assert_eq!(
        x2.meet(&x3, &LocIdx { addr: 0, idx: 0 })
            == StackGrowthLattice { v: Some((1, 4096, HashMap::new())) },
        true
    );
    assert_eq!(
        x3.meet(&x4, &LocIdx { addr: 0, idx: 0 }) == StackGrowthLattice { v: None },
        true
    );
}

#[test]
fn meet_is_idempotent_in_every_domain() {
    let loc = LocIdx { addr: 0, idx: 0 };
    let h = HeapValueLattice { v: Some(HeapValue::GlobalsBase) };
    assert!(h.meet(&h, &loc) == h);
    let b = BooleanLattice { v: true };
    assert!(b.meet(&b, &loc) == b);
    let c = Constu32Lattice { v: Some(7) };
    assert!(c.meet(&c, &loc) == c);
    let mut saved = HashMap::new();
    saved.insert(3u8, -8i64);
    let s = StackGrowthLattice { v: Some((-8, 4096, saved)) };
    assert!(s.meet(&s, &loc) == s);
    let r = ReachLattice { defs: vec![LocIdx { addr: 1, idx: 0 }, LocIdx { addr: 2, idx: 1 }] };
    assert!(r.meet(&r, &loc).same(&r));
}

#[test]
fn reach_meet_is_union() {
    let loc = LocIdx { addr: 0, idx: 0 };
    let a = ReachLattice::singleton(LocIdx { addr: 1, idx: 0 });
    let b = ReachLattice::singleton(LocIdx { addr: 2, idx: 0 });
    let m = a.meet(&b, &loc);
    assert!(m.contains(&LocIdx { addr: 1, idx: 0 }));
    assert!(m.contains(&LocIdx { addr: 2, idx: 0 }));
    assert!(!m.contains(&LocIdx { addr: 3, idx: 0 }));
    assert!(ReachLattice::bot().is_empty());
    assert!(!m.is_empty());
}

#[test]
fn stack_growth_getters() {
    let x = StackGrowthLattice { v: Some((-16, 8192, HashMap::new())) };
    assert_eq!(x.get_stackgrowth(), Some(-16));
    assert_eq!(x.get_probestack(), Some(8192));
    let mut y = StackGrowthLattice { v: Some((-16, 8192, HashMap::new())) };
    y.clear();
    assert!(y == StackGrowthLattice { v: Some((0, 4096, HashMap::new())) });
    let mut z = StackGrowthLattice { v: None };
    z.clear();
    assert_eq!(z.get_stackgrowth(), None);
    assert_eq!(ConstLattice::new(5u32).v, Some(5));
}

#[test]
fn jump_table_entries() {
    assert_eq!(le_bytes(&vec![0x78, 0x56, 0x34, 0x12]), 0x1234_5678);
    assert_eq!(le_bytes(&vec![0xff; 8]), u64::MAX);
    assert_eq!(le_bytes(&vec![]), 0);
    // a Lucet entry is a signed 32-bit offset from the table
    assert_eq!(resolve_target(Compiler::Lucet, 0x1000, 0x20), 0x1020);
    assert_eq!(resolve_target(Compiler::Lucet, 0x1000, 0xffff_fff0), 0xff0);
    assert_eq!(resolve_target(Compiler::Lucet, 0x7fff_ffff, 1), -0x8000_0000);
    // a WAMR entry is an absolute address
    assert_eq!(resolve_target(Compiler::Wamr, 0x1000, 0x4242), 0x4242);
}
