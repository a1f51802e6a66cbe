//! Reading indirect-jump tables out of the loaded module: each table entry
//! becomes a concrete successor address.
use crate::analysis::{AbstractAnalyzer, AnalysisResult, IRMap};
use crate::ir::{IRBlock, IRInstr, MemArg, MemArgs, Stmt, ValSize, Value};
use crate::lattice::{Lattice, LocIdx};
use crate::metadata::Compiler;
use crate::switch_analyzer::{regw, SwitchAnalyzer, SwitchLattice, SwitchValue, SwitchView};
use crate::analysis::{run_block, run_stmts};
use crate::metadata::CompilerMetadata;
use std::collections::HashMap;
use yaxpeax_core::memory::repr::process::ModuleData;
use yaxpeax_core::memory::MemoryRepr;
use vstd::prelude::*;

verus! {

#[verifier::external_type_specification]
#[verifier::external_body]
pub struct ExModuleData(ModuleData);

/// Relies on yaxpeax-core's `MemoryRepr::read` for `ModuleData`: the byte
/// at `addr` of the module's segments, or `None` where no segment maps it.
/// What it returns depends on the file, so nothing is stated of it.
#[verifier::external_body]
fn read_byte(program: &ModuleData, addr: u64) -> (r: Option<u8>) {
    <ModuleData as MemoryRepr<yaxpeax_x86::x86_64>>::read(program, addr)
}

/// The unsigned little-endian value of `b`.
pub open spec fn le_value(b: Seq<u8>) -> int
    decreases b.len(),
{
    if b.len() == 0 {
        0
    } else {
        b[0] as int + 256 * le_value(b.drop_first())
    }
}

/// `x` read as a two's-complement number of 32 bits.
pub open spec fn signed32(x: int) -> int {
    let low = x % 0x1_0000_0000;
    if low >= 0x8000_0000 {
        low - 0x1_0000_0000
    } else {
        low
    }
}

/// `x` read as a two's-complement number of 64 bits.
pub open spec fn signed64(x: int) -> int {
    let low = x % 0x1_0000_0000_0000_0000;
    if low >= 0x8000_0000_0000_0000 {
        low - 0x1_0000_0000_0000_0000
    } else {
        low
    }
}

/// Where a table entry `entry` at table `base` sends control: Lucet tables
/// hold 32-bit offsets from the table, WAMR tables absolute addresses.
pub open spec fn spec_resolve(compiler: Compiler, base: u32, entry: i64) -> i64 {
    match compiler {
        Compiler::Lucet => signed32(signed32(base as int) + signed32(entry as int)) as i64,
        Compiler::Wamr => entry,
    }
}

/// The value of `n` little-endian bytes as a non-negative number.
pub fn le_bytes(b: &Vec<u8>) -> (r: u64)
    requires
        b.len() <= 8,
    ensures
        r as int == le_value(b@),
{
    let mut r: u64 = 0;
    let mut i: usize = b.len();
    proof {
        assert(b@.subrange(i as int, b.len() as int) =~= Seq::<u8>::empty());
    }
    while i > 0
        invariant
            b.len() <= 8,
            i <= b.len(),
            r as int == le_value(b@.subrange(i as int, b.len() as int)),
            (r as int) < pow256((b.len() - i) as nat),
        decreases i,
    {
        let ghost old_r = r as int;
        i = i - 1;
        proof {
            lemma_pow256_bound((b.len() - i - 1) as nat);
            assert(b@.subrange(i as int, b.len() as int).drop_first() =~= b@.subrange(
                i + 1,
                b.len() as int,
            ));
            assert(pow256((b.len() - i) as nat) == 256 * pow256((b.len() - i - 1) as nat));
            assert(old_r * 256 + 255 < 256 * pow256((b.len() - i - 1) as nat)) by (nonlinear_arith)
                requires
                    old_r < pow256((b.len() - i - 1) as nat),
            ;
        }
        r = r * 256 + b[i] as u64;
        proof {
            assert(b@.subrange(i as int, b.len() as int)[0] == b@[i as int]);
        }
    }
    assert(b@.subrange(0, b.len() as int) =~= b@);
    r
}

pub open spec fn pow256(n: nat) -> int
    decreases n,
{
    if n == 0 {
        1
    } else {
        256 * pow256((n - 1) as nat)
    }
}

proof fn lemma_pow256_bound(n: nat)
    requires
        n <= 7,
    ensures
        256 * pow256(n) <= 0x1_0000_0000_0000_0000,
        pow256(n) >= 1,
{
    reveal_with_fuel(pow256, 8);
    assert(pow256(4) == 0x1_0000_0000);
    assert(pow256(7) == 0x100_0000_0000_0000);
    if n < 7 {
        lemma_pow256_mono(n, 7);
    }
}

proof fn lemma_pow256_mono(m: nat, n: nat)
    requires
        m <= n,
    ensures
        1 <= pow256(m) <= pow256(n),
    decreases n,
{
    if m < n {
        lemma_pow256_mono(m, (n - 1) as nat);
    } else if n > 0 {
        lemma_pow256_mono((n - 1) as nat, (n - 1) as nat);
    }
}

/// Read `n` bytes at `addr` of the module.
fn read_bytes(program: &ModuleData, addr: u64, n: u64) -> (r: Option<Vec<u8>>)
    requires
        n <= 8,
    ensures
        r matches Some(b) ==> b.len() == n,
{
    let mut out: Vec<u8> = Vec::new();
    let mut i: u64 = 0;
    while i < n
        invariant
            i <= n,
            out.len() == i,
        decreases n - i,
    {
        let a = match addr.checked_add(i) {
            Some(a) => a,
            None => {
                return None;
            },
        };
        match read_byte(program, a) {
            Some(byte) => out.push(byte),
            None => {
                return None;
            },
        }
        i = i + 1;
    }
    Some(out)
}

/// The 32-bit little-endian entry at `addr`, zero-extended; `None` where
/// the module does not map it.
pub fn load_target(program: &ModuleData, addr: u64) -> (r: Option<i64>)
    ensures
        r matches Some(v) ==> 0 <= v < 0x1_0000_0000,
{
    match read_bytes(program, addr, 4) {
        Some(b) => {
            let v = le_bytes(&b);
            proof {
                lemma_le_value_bound(b@);
                reveal_with_fuel(pow256, 5);
            }
            Some(v as i64)
        },
        None => None,
    }
}

proof fn lemma_le_value_bound(b: Seq<u8>)
    ensures
        0 <= le_value(b) < pow256(b.len()),
    decreases b.len(),
{
    if b.len() > 0 {
        lemma_le_value_bound(b.drop_first());
    }
}

/// Where entry `entry` of the table at `base` sends control.
pub fn resolve_target(compiler: Compiler, base: u32, entry: i64) -> (r: i64)
    ensures
        r == spec_resolve(compiler, base, entry),
{
    match compiler {
        Compiler::Lucet => {
            let b: i64 = if base >= 0x8000_0000 {
                base as i64 - 0x1_0000_0000
            } else {
                base as i64
            };
            let low: i64 = ((entry as i128) % 0x1_0000_0000 + 0x1_0000_0000) as i64 % 0x1_0000_0000;
            let e: i64 = if low >= 0x8000_0000 {
                low - 0x1_0000_0000
            } else {
                low
            };
            let s: i64 = b + e;
            let w: i64 = if s >= 0x8000_0000 {
                s - 0x1_0000_0000
            } else if s < -0x8000_0000 {
                s + 0x1_0000_0000
            } else {
                s
            };
            proof {
                assert(signed32(base as int) == b);
                assert(signed32(entry as int) == e);
                assert(signed32(s as int) == w);
            }
            w
        },
        Compiler::Wamr => entry,
    }
}

/// Bytes per entry of a jump table: 4 (Lucet), 8 (WAMR).
pub open spec fn entry_width(compiler: Compiler) -> nat {
    match compiler {
        Compiler::Lucet => 4,
        Compiler::Wamr => 8,
    }
}

/// What an entry read from a table may hold: an unsigned 32-bit value
/// (Lucet) or any 64-bit value (WAMR).
pub open spec fn entry_in_range(compiler: Compiler, v: i64) -> bool {
    match compiler {
        Compiler::Lucet => 0 <= v < 0x1_0000_0000,
        Compiler::Wamr => true,
    }
}

/// `x` is where some entry that a table may hold sends control.
pub open spec fn target_of_entry(compiler: Compiler, base: u32, x: i64) -> bool {
    exists|v: i64| entry_in_range(compiler, v) && x == spec_resolve(compiler, base, v)
}

/// Address of entry `idx` of the table at `base`.
pub fn table_entry_addr(base: u32, idx: u32, compiler: Compiler) -> (r: u64)
    ensures
        r as int == base as int + idx as int * entry_width(compiler),
{
    let width: u64 = match compiler {
        Compiler::Lucet => 4,
        Compiler::Wamr => 8,
    };
    assert(idx as u64 * width <= 0xffff_ffff * 8) by (nonlinear_arith)
        requires
            width <= 8,
            idx <= 0xffff_ffff,
    ;
    base as u64 + idx as u64 * width
}

/// The successors of an indirect jump through the table at `base` with
/// `upper_bound` entries: 4-byte entries relative to the table (Lucet),
/// 8-byte absolute addresses (WAMR), entry `i` read at `table_entry_addr(base,
/// i)`. Each target is what `resolve_target` makes of an entry; `None`
/// where an entry is not mapped.
pub fn extract_jmp_targets(program: &ModuleData, base: u32, upper_bound: u32, compiler: Compiler) -> (r:
    Option<Vec<i64>>)
    ensures
        upper_bound == 0 ==> (r matches Some(t) && t.len() == 0),
        r matches Some(t) ==> t.len() == upper_bound,
        r matches Some(t) ==> forall|i: int|
            0 <= i < t.len() ==> #[trigger] target_of_entry(compiler, base, t@[i]),
{
    let width: u64 = match compiler {
        Compiler::Lucet => 4,
        Compiler::Wamr => 8,
    };
    let mut targets: Vec<i64> = Vec::new();
    let mut idx: u32 = 0;
    while idx < upper_bound
        invariant
            idx <= upper_bound,
            targets.len() == idx,
            width as int == entry_width(compiler),
            forall|i: int| 0 <= i < targets.len() ==> #[trigger] target_of_entry(compiler, base, targets@[i]),
        decreases upper_bound - idx,
    {
        let addr = table_entry_addr(base, idx, compiler);
        let entry: i64 = match read_bytes(program, addr, width) {
            Some(b) => {
                let v = le_bytes(&b);
                proof {
                    lemma_le_value_bound(b@);
                    reveal_with_fuel(pow256, 5);
                    if width == 4 {
                        assert(pow256(4) == 0x1_0000_0000);
                        assert((v as int) < 0x1_0000_0000);
                    }
                }
                #[verifier::truncate]
                (v as i64)
            },
            None => {
                return None;
            },
        };
        assert(entry_in_range(compiler, entry));
        let t = resolve_target(compiler, base, entry);
        let ghost prev = targets@;
        targets.push(t);
        assert forall|i: int| 0 <= i < targets.len() implies #[trigger] target_of_entry(compiler, base, targets@[i]) by {
            if i < prev.len() {
                assert(targets@[i] == prev[i]);
            } else {
                assert(targets@[i] == spec_resolve(compiler, base, entry));
            }
        }
        idx = idx + 1;
    }
    Some(targets)
}

broadcast use vstd::std_specs::hash::group_hash_axioms;

/// A jump through a register or memory.
pub open spec fn is_indirect_branch(s: Stmt) -> bool {
    match s {
        Stmt::Branch(_, v) => !(v is Imm),
        _ => false,
    }
}

pub open spec fn has_indirect_branch(stmts: Seq<Stmt>) -> bool {
    exists|k: int| 0 <= k < stmts.len() && #[trigger] is_indirect_branch(stmts[k])
}

/// Addresses of the instructions of `block` that jump indirectly.
pub open spec fn branch_addrs(block: Seq<IRInstr>) -> Set<u64> {
    Set::new(
        |a: u64| exists|j: int| 0 <= j < block.len() && block[j].addr == a && #[trigger] has_indirect_branch(block[j].stmts@),
    )
}

/// Addresses of the instructions among the first `n` of `block` that jump
/// indirectly.
pub open spec fn prefix_branch_addrs(block: Seq<IRInstr>, n: int) -> Set<u64> {
    Set::new(
        |a: u64|
            exists|j: int| 0 <= j < n && block[j].addr == a && #[trigger] has_indirect_branch(block[j].stmts@),
    )
}

/// Addresses of the indirect jumps in the blocks listed in `order`.
pub open spec fn reached_branch_addrs(irmap: Map<u64, IRBlock>, order: Seq<u64>) -> Set<u64> {
    Set::new(
        |a: u64|
            exists|i: int|
                0 <= i < order.len() && irmap.contains_key(order[i]) && #[trigger] branch_addrs(
                    irmap[order[i]]@,
                ).contains(a),
    )
}

/// `[imm + r*8]` with `r` bounded by the switch analysis.
pub open spec fn wamr_table_jump(s: SwitchView, m: MemArgs) -> bool {
    match m {
        MemArgs::MemScale(MemArg::Imm(_, _, _), MemArg::Reg(n, sz), MemArg::Imm(_, _, 8)) => regw(
            s,
            n,
            sz,
        ) matches Some(SwitchValue::UpperBound(_)),
        _ => false,
    }
}

/// An indirect jump whose table the switch analysis did not find: through
/// a register not holding `JmpTarget`, through memory under Lucet, or
/// through memory other than a bounded `[imm + r*8]` under WAMR.
pub open spec fn unresolvable(md: CompilerMetadata, s: SwitchView, target: Value) -> bool {
    match target {
        Value::Reg(n, sz) => !(regw(s, n, sz) matches Some(SwitchValue::JmpTarget(_, _))),
        Value::Mem(_, m) => md.compiler == Compiler::Lucet || !wamr_table_jump(s, m),
        Value::Imm(_, _, _) => false,
    }
}

pub open spec fn stmt_error(md: CompilerMetadata, s: SwitchView, stmt: Stmt) -> bool {
    match stmt {
        Stmt::Branch(_, t) => unresolvable(md, s, t),
        _ => false,
    }
}

/// No statement of the block entered in `s0` is an unresolvable jump.
pub open spec fn block_resolvable(md: CompilerMetadata, a: SwitchAnalyzer, s0: SwitchView, instrs: Seq<IRInstr>) -> bool {
    forall|j: int, k: int|
        0 <= j < instrs.len() && 0 <= k < instrs[j].stmts@.len() ==> !#[trigger] stmt_error(
            md,
            run_stmts(a, run_block(a, s0, instrs.take(j)), instrs[j].stmts@.take(k), instrs[j].addr),
            instrs[j].stmts@[k],
        )
}

/// The targets of a jump through the table `[base + r*8]` (WAMR), `r`
/// bounded by the switch analysis.
fn wamr_resolve_indirect_jump(program: &ModuleData, state: &SwitchLattice, memargs: &MemArgs) -> (r:
    Option<Vec<i64>>)
    requires
        state.wf(),
    ensures
        !wamr_table_jump(state@, *memargs) ==> r is None,
{
    match memargs {
        MemArgs::MemScale(MemArg::Imm(_, _, base), MemArg::Reg(n, sz), MemArg::Imm(_, _, 8)) => {
            match state.regs.get(n, sz).v {
                Some(SwitchValue::UpperBound(bound)) => extract_jmp_targets(
                    program,
                    #[verifier::truncate] (*base as u32),
                    bound,
                    Compiler::Wamr,
                ),
                _ => None,
            }
        },
        _ => None,
    }
}

/// The targets of the indirect jump `stmt`, in `state`.
fn jump_targets(
    program: &ModuleData,
    analyzer: &SwitchAnalyzer,
    state: &SwitchLattice,
    target: &Value,
) -> (r: Option<Vec<i64>>)
    requires
        state.wf(),
    ensures
        unresolvable(analyzer.metadata, state@, *target) ==> r is None,
{
    match target {
        Value::Reg(n, sz) => match state.regs.get(n, sz).v {
            Some(SwitchValue::JmpTarget(base, bound)) => extract_jmp_targets(
                program,
                base,
                bound,
                Compiler::Lucet,
            ),
            _ => None,
        },
        Value::Mem(_, memargs) => match analyzer.metadata.compiler {
            Compiler::Lucet => None,
            Compiler::Wamr => wamr_resolve_indirect_jump(program, state, memargs),
        },
        Value::Imm(_, _, _) => None,
    }
}

fn resolve_instr(
    program: &ModuleData,
    analyzer: &SwitchAnalyzer,
    state: &mut SwitchLattice,
    instr: &IRInstr,
    targets: &mut HashMap<u64, Vec<i64>>,
) -> (ok: bool)
    requires
        old(state).wf(),
    ensures
        final(state).wf(),
        !ok ==> has_indirect_branch(instr.stmts@),
        ok ==> final(state)@ == run_stmts(*analyzer, old(state)@, instr.stmts@, instr.addr),
        ok ==> forall|k: int|
            0 <= k < instr.stmts@.len() ==> !#[trigger] stmt_error(
                analyzer.metadata,
                run_stmts(*analyzer, old(state)@, instr.stmts@.take(k), instr.addr),
                instr.stmts@[k],
            ),
        ok ==> final(targets)@.dom() == old(targets)@.dom().union(
            if has_indirect_branch(instr.stmts@) {
                Set::empty().insert(instr.addr)
            } else {
                Set::empty()
            },
        ),
{
    let stmts = &instr.stmts;
    let mut k: usize = 0;
    while k < stmts.len()
        invariant
            k <= stmts.len(),
            stmts == &instr.stmts,
            state.wf(),
            state@ == run_stmts(*analyzer, old(state)@, stmts@.take(k as int), instr.addr),
            forall|kk: int|
                0 <= kk < k ==> !#[trigger] stmt_error(
                    analyzer.metadata,
                    run_stmts(*analyzer, old(state)@, stmts@.take(kk), instr.addr),
                    stmts@[kk],
                ),
            targets@.dom() == old(targets)@.dom().union(
                if exists|kk: int| 0 <= kk < k && #[trigger] is_indirect_branch(stmts@[kk]) {
                    Set::empty().insert(instr.addr)
                } else {
                    Set::empty()
                },
            ),
        decreases stmts.len() - k,
    {
        if let Stmt::Branch(_, target) = &stmts[k] {
            match target {
                Value::Imm(_, _, _) => {},
                _ => {
                    match jump_targets(program, analyzer, state, target) {
                        Some(t) => {
                            targets.insert(instr.addr, t);
                        },
                        None => {
                            assert(is_indirect_branch(stmts@[k as int]));
                            return false;
                        },
                    }
                },
            }
        }
        assert(stmts@.take(k + 1).drop_last() =~= stmts@.take(k as int));
        assert(!stmt_error(analyzer.metadata, state@, stmts@[k as int]));
        analyzer.aexec(state, &stmts[k], &LocIdx { addr: instr.addr, idx: #[verifier::truncate] (k as u32) });
        proof {
            let cur = exists|kk: int| 0 <= kk < k + 1 && #[trigger] is_indirect_branch(stmts@[kk]);
            if is_indirect_branch(stmts@[k as int]) {
                assert(cur);
            } else {
                assert(cur == exists|kk: int| 0 <= kk < k && #[trigger] is_indirect_branch(stmts@[kk])) by {
                    if cur {
                        let kk = choose|kk: int| 0 <= kk < k + 1 && #[trigger] is_indirect_branch(stmts@[kk]);
                        assert(kk < k);
                    }
                }
            }
            assert(targets@.dom() =~= old(targets)@.dom().union(
                if cur {
                    Set::empty().insert(instr.addr)
                } else {
                    Set::empty()
                },
            ));
        }
        k = k + 1;
    }
    proof {
        assert((exists|kk: int| 0 <= kk < k && #[trigger] is_indirect_branch(stmts@[kk]))
            == has_indirect_branch(instr.stmts@));
        assert(stmts@.take(k as int) =~= stmts@);
    }
    true
}

/// Resolve every indirect jump in the blocks the switch analysis reached:
/// a jump through a register holding `JmpTarget(base, n)` reads a table of
/// `n` relative entries at `base` (Lucet); a WAMR jump through `[base +
/// r*8]` with `r` below `n` reads `n` absolute entries. Returns, on
/// success, the targets keyed by the addresses of exactly those jumps;
/// `None` where a jump cannot be resolved or a block has no code.
pub fn resolve_jumps(
    program: &ModuleData,
    result: &AnalysisResult<SwitchLattice>,
    irmap: &IRMap,
    analyzer: &SwitchAnalyzer,
) -> (r: Option<HashMap<u64, Vec<i64>>>)
    requires
        result.wf(),
    ensures
        r matches Some(m) ==> m@.dom() == reached_branch_addrs(irmap@, result.order@),
        r is Some ==> forall|i: int|
            0 <= i < result.order@.len() ==> irmap@.contains_key(#[trigger] result.order@[i])
                && block_resolvable(
                analyzer.metadata,
                *analyzer,
                result.states@[result.order@[i]]@,
                irmap@[result.order@[i]]@,
            ),
        (forall|i: int| 0 <= i < result.order@.len() ==> irmap@.contains_key(#[trigger] result.order@[i]))
            && reached_branch_addrs(irmap@, result.order@) == Set::<u64>::empty() ==> r is Some,
{
    let mut targets: HashMap<u64, Vec<i64>> = HashMap::new();
    let order = &result.order;
    let mut i: usize = 0;
    while i < order.len()
        invariant
            result.wf(),
            order == &result.order,
            i <= order.len(),
            forall|q: int| 0 <= q < i ==> irmap@.contains_key(#[trigger] order@[q]),
            forall|q: int|
                0 <= q < i ==> block_resolvable(
                    analyzer.metadata,
                    *analyzer,
                    result.states@[#[trigger] order@[q]]@,
                    irmap@[order@[q]]@,
                ),
            targets@.dom() == reached_branch_addrs(irmap@, order@.take(i as int)),
        decreases order.len() - i,
    {
        let b = order[i];
        let ghost nothing_to_resolve = (forall|q: int| 0 <= q < order@.len() ==> irmap@.contains_key(#[trigger] order@[q]))
            && reached_branch_addrs(irmap@, order@) == Set::<u64>::empty();
        assert(result.order@.contains(b));
        let st = match result.states.get(&b) {
            Some(st) => st,
            None => {
                return None;
            },
        };
        let block = match irmap.get(&b) {
            Some(bl) => bl,
            None => {
                assert(!nothing_to_resolve);
                return None;
            },
        };
        let mut state = st.duplicate();
        let ghost start = targets@.dom();
        assert(prefix_branch_addrs(block@, 0) =~= Set::empty());
        let mut j: usize = 0;
        assert(block@.take(0) =~= Seq::<IRInstr>::empty());
        while j < block.len()
            invariant
                j <= block.len(),
                state.wf(),
                i < order.len(),
                order == &result.order,
                b == order@[i as int],
                block == &irmap@[b],
                irmap@.contains_key(b),
                state@ == run_block(*analyzer, st@, block@.take(j as int)),
                forall|jj: int, k: int|
                    0 <= jj < j && 0 <= k < block@[jj].stmts@.len() ==> !#[trigger] stmt_error(
                        analyzer.metadata,
                        run_stmts(
                            *analyzer,
                            run_block(*analyzer, st@, block@.take(jj)),
                            block@[jj].stmts@.take(k),
                            block@[jj].addr,
                        ),
                        block@[jj].stmts@[k],
                    ),
                nothing_to_resolve ==> reached_branch_addrs(irmap@, order@) == Set::<u64>::empty(),
                nothing_to_resolve == ((forall|q: int| 0 <= q < order@.len() ==> irmap@.contains_key(#[trigger] order@[q]))
                    && reached_branch_addrs(irmap@, order@) == Set::<u64>::empty()),
                targets@.dom() == start.union(
                    prefix_branch_addrs(block@, j as int),
                ),
            decreases block.len() - j,
        {
            let ghost s_before = state@;
            if !resolve_instr(program, analyzer, &mut state, &block[j], &mut targets) {
                proof {
                    assert(branch_addrs(block@).contains(block@[j as int].addr));
                    assert(reached_branch_addrs(irmap@, order@).contains(block@[j as int].addr));
                    assert(!Set::<u64>::empty().contains(block@[j as int].addr));
                    assert(reached_branch_addrs(irmap@, order@) != Set::<u64>::empty());
                }
                return None;
            }
            proof {
                assert(block@.take(j + 1).drop_last() =~= block@.take(j as int));
                assert(state@ == run_block(*analyzer, st@, block@.take(j + 1)));
                assert forall|jj: int, k: int|
                    0 <= jj < j + 1 && 0 <= k < block@[jj].stmts@.len() implies !#[trigger] stmt_error(
                        analyzer.metadata,
                        run_stmts(
                            *analyzer,
                            run_block(*analyzer, st@, block@.take(jj)),
                            block@[jj].stmts@.take(k),
                            block@[jj].addr,
                        ),
                        block@[jj].stmts@[k],
                    ) by {
                    if jj == j {
                        assert(s_before == run_block(*analyzer, st@, block@.take(jj)));
                    }
                }
            }
            proof {
                assert forall|a: u64|
                    #[trigger] prefix_branch_addrs(block@, j + 1).contains(a) == (prefix_branch_addrs(
                        block@,
                        j as int,
                    ).contains(a) || (block@[j as int].addr == a && has_indirect_branch(
                        block@[j as int].stmts@,
                    ))) by {
                    if prefix_branch_addrs(block@, j + 1).contains(a) {
                        let jj = choose|jj: int|
                            0 <= jj < j + 1 && block@[jj].addr == a && #[trigger] has_indirect_branch(
                                block@[jj].stmts@,
                            );
                        if jj < j {
                            assert(prefix_branch_addrs(block@, j as int).contains(a));
                        }
                    }
                    if block@[j as int].addr == a && has_indirect_branch(block@[j as int].stmts@) {
                        assert(prefix_branch_addrs(block@, j + 1).contains(a));
                    }
                }
                assert(targets@.dom() =~= start.union(prefix_branch_addrs(block@, j + 1)));
            }
            j = j + 1;
        }
        proof {
            assert(block@.take(j as int) =~= block@);
            assert(st@ == result.states@[b]@);
            assert(block_resolvable(analyzer.metadata, *analyzer, st@, block@));
            assert(prefix_branch_addrs(block@, j as int) =~= branch_addrs(block@));
            assert(order@.take(i + 1) =~= order@.take(i as int).push(b));
            assert(targets@.dom() =~= reached_branch_addrs(irmap@, order@.take(i + 1))) by {
                assert forall|a: u64|
                    reached_branch_addrs(irmap@, order@.take(i + 1)).contains(a) == (
                    reached_branch_addrs(irmap@, order@.take(i as int)).contains(a) || branch_addrs(
                        irmap@[b]@,
                    ).contains(a)) by {
                    let t1 = order@.take(i + 1);
                    let t0 = order@.take(i as int);
                    if reached_branch_addrs(irmap@, t1).contains(a) {
                        let q = choose|q: int|
                            0 <= q < t1.len() && irmap@.contains_key(t1[q]) && #[trigger] branch_addrs(
                                irmap@[t1[q]]@,
                            ).contains(a);
                        if q < i {
                            assert(t0[q] == t1[q]);
                        }
                    }
                    if reached_branch_addrs(irmap@, t0).contains(a) {
                        let q = choose|q: int|
                            0 <= q < t0.len() && irmap@.contains_key(t0[q]) && #[trigger] branch_addrs(
                                irmap@[t0[q]]@,
                            ).contains(a);
                        assert(t1[q] == t0[q]);
                    }
                    if branch_addrs(irmap@[b]@).contains(a) {
                        assert(t1[i as int] == b);
                    }
                }
            }
        }
        i = i + 1;
    }
    assert(order@.take(i as int) =~= order@);
    Some(targets)
}

} // verus!
