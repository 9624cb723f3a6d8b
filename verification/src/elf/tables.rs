//! The page tables of a new user address space: the memory writes that
//! build them, and what the four-level translation then gives.

use vstd::prelude::*;
use crate::intmap::IntMap;
use crate::elf::{ElfFramePool, pool_wf};

verus! {

/// A change of physical memory asked for while building an address space.
#[derive(Debug, Clone, Copy, PartialEq, Eq, Structural)]
pub enum MemOp {
    /// A new top-level table at this frame: zero it, then copy into it the
    /// kernel half (entries 256 to 511) of the running top-level table.
    NewTopLevel(u64),
    /// Zero the 4 KiB frame at this address.
    Zero(u64),
    /// Copy `len` bytes of the executable, from `file_offset`, to the frame
    /// at `frame`, `start` bytes in.
    Copy { frame: u64, start: u64, file_offset: u64, len: u64 },
    /// Set entry `index` of the table at `table` to `value`.
    Entry { table: u64, index: u64, value: u64 },
}

/// The table entries `ops` set, by (table, index), the last write winning.
pub open spec fn entries_of(ops: Seq<MemOp>) -> Map<(int, int), u64>
    decreases ops.len(),
{
    if ops.len() == 0 {
        Map::empty()
    } else {
        let m = entries_of(ops.drop_last());
        match ops.last() {
            MemOp::Entry { table, index, value } => m.insert((table as int, index as int), value),
            _ => m,
        }
    }
}

/// The bits of address `va` above those that the tables of `level` (0:
/// top, 3: last) and below translate; `level` 4 gives the page number.
pub open spec fn prefix(va: int, level: int) -> int {
    if level <= 0 {
        0
    } else if level == 1 {
        va / 0x80_0000_0000
    } else if level == 2 {
        va / 0x4000_0000
    } else if level == 3 {
        va / 0x20_0000
    } else {
        va / 0x1000
    }
}

/// The 9-bit index address `va` takes in its table of `level`.
pub open spec fn index(va: int, level: int) -> int {
    prefix(va, level + 1) % 512
}

/// Entry `i` of the table at `table` in `m` (0 when never set).
pub open spec fn entry_at(m: Map<(int, int), u64>, table: u64, i: int) -> u64 {
    if m.contains_key((table as int, i)) {
        m[(table as int, i)]
    } else {
        0
    }
}

/// The entry points to a next-level table (its present bit is set).
pub open spec fn present(e: u64) -> bool {
    e % 2 == 1
}

/// The table an entry points to (its address bits).
pub open spec fn table_of(e: u64) -> u64 {
    (e - e % 4096) as u64
}

/// The last-level entry that translates `va` from top-level table `root`,
/// following entries `m` down the levels; `None` when an upper-level entry
/// is not present.
pub open spec fn walk(m: Map<(int, int), u64>, root: u64, va: int) -> Option<u64> {
    let e0 = entry_at(m, root, index(va, 0));
    if !present(e0) {
        None
    } else {
        let e1 = entry_at(m, table_of(e0), index(va, 1));
        if !present(e1) {
            None
        } else {
            let e2 = entry_at(m, table_of(e1), index(va, 2));
            if !present(e2) {
                None
            } else {
                Some(entry_at(m, table_of(e2), index(va, 3)))
            }
        }
    }
}

/// The prefixes of a user address nest: each level's is the next one's
/// without its last 9 bits.
pub proof fn lemma_prefix_nest(va: int, level: int)
    requires
        0 <= va < 0x8000_0000_0000,
        1 <= level <= 4,
    ensures
        prefix(va, level - 1) == prefix(va, level) / 512,
        0 <= prefix(va, level),
{
    vstd::arithmetic::div_mod::lemma_div_denominator(va, 0x1000, 512);
    vstd::arithmetic::div_mod::lemma_div_denominator(va, 0x20_0000, 512);
    vstd::arithmetic::div_mod::lemma_div_denominator(va, 0x4000_0000, 512);
    vstd::arithmetic::div_mod::lemma_div_denominator(va, 0x80_0000_0000, 512);
    assert(va / 0x80_0000_0000 < 256) by (nonlinear_arith)
        requires
            0 <= va < 0x8000_0000_0000,
    ;
}

/// The key under which the table of `level` for prefix `p` is kept.
pub open spec fn node(level: int, p: int) -> u64 {
    (level * 0x10_0000_0000 + p) as u64
}

/// `n` holds a table of `level` for prefix `p`.
pub open spec fn has_table(n: Map<u64, u64>, level: int, p: int) -> bool {
    0 <= level <= 3 && 0 <= p < 0x10_0000_0000 && n.contains_key(node(level, p))
}

/// The frame of the table of `level` for prefix `p` in `n`.
pub open spec fn frame(n: Map<u64, u64>, level: int, p: int) -> u64 {
    n[node(level, p)]
}

/// The tables `n` (with top-level table `root`), the mapped pages `leaves`
/// (page number to last-level entry) and the entries `m` agree: every
/// table below the top is pointed to by its parent, every page by its
/// last-level table, nothing else is set, and distinct tables lie in
/// distinct, aligned frames.
#[verifier::opaque]
pub open spec fn tables_wf(n: Map<u64, u64>, root: u64, leaves: Map<int, u64>, m: Map<(int, int), u64>) -> bool {
    &&& has_table(n, 0, 0) && frame(n, 0, 0) == root
    &&& forall|k: u64| #[trigger] n.contains_key(k) ==> k < 4 * 0x10_0000_0000
    &&& forall|l: int, p: int| #[trigger] has_table(n, l, p) ==> frame(n, l, p) % 4096 == 0 && frame(n, l, p) < 0xFFFF_FFFF_FFFF_F000
    &&& forall|l: int, p: int| #[trigger] has_table(n, l, p) && l == 0 ==> p == 0
    &&& forall|l1: int, p1: int, l2: int, p2: int|
        #[trigger] has_table(n, l1, p1) && #[trigger] has_table(n, l2, p2) && frame(n, l1, p1) == frame(n, l2, p2) ==> l1 == l2 && p1 == p2
    &&& forall|l: int, p: int| #[trigger] has_table(n, l, p) && l >= 1 ==> has_table(n, l - 1, p / 512)
        && m.contains_key((frame(n, l - 1, p / 512) as int, p % 512))
        && m[(frame(n, l - 1, p / 512) as int, p % 512)] == frame(n, l, p) + 7
    &&& forall|g: int| #[trigger] leaves.contains_key(g) ==> 0 <= g < 0x8_0000_0000 && has_table(n, 3, g / 512)
        && m.contains_key((frame(n, 3, g / 512) as int, g % 512)) && m[(frame(n, 3, g / 512) as int, g % 512)] == leaves[g]
    &&& forall|t: int, i: int| #[trigger] m.contains_key((t, i)) ==> exists|l: int, p: int|
        #![trigger has_table(n, l, p)]
        has_table(n, l, p) && frame(n, l, p) == t && 0 <= i < 512
            && (l < 3 ==> has_table(n, l + 1, p * 512 + i)) && (l == 3 ==> leaves.contains_key(p * 512 + i))
}

/// An entry pointing to a table at an aligned frame is present and points
/// back to that frame.
proof fn lemma_pointer(f: u64)
    requires
        f % 4096 == 0,
        f < 0xFFFF_FFFF_FFFF_F000,
    ensures
        present((f + 7) as u64),
        table_of((f + 7) as u64) == f,
{
    assert((f + 7) % 4096 == 7);
    assert((f + 7) % 2 == 1);
}

/// Translation: every mapped page reaches its last-level entry, whatever
/// the offset of the address within the page.
pub proof fn lemma_walk(n: Map<u64, u64>, root: u64, leaves: Map<int, u64>, m: Map<(int, int), u64>, va: int)
    requires
        tables_wf(n, root, leaves, m),
        0 <= va < 0x8000_0000_0000,
        leaves.contains_key(va / 0x1000),
    ensures
        walk(m, root, va) == Some(leaves[va / 0x1000]),
{
    reveal(tables_wf);
    lemma_prefix_nest(va, 1);
    lemma_prefix_nest(va, 2);
    lemma_prefix_nest(va, 3);
    lemma_prefix_nest(va, 4);
    let g = va / 0x1000;
    let p3 = prefix(va, 3);
    let p2 = prefix(va, 2);
    let p1 = prefix(va, 1);
    assert(g == prefix(va, 4));
    assert(has_table(n, 3, p3));
    assert(has_table(n, 2, p2));
    assert(has_table(n, 1, p1));
    assert(has_table(n, 0, 0));
    lemma_pointer(frame(n, 1, p1));
    lemma_pointer(frame(n, 2, p2));
    lemma_pointer(frame(n, 3, p3));
    assert(entry_at(m, root, index(va, 0)) == frame(n, 1, p1) + 7);
    assert(entry_at(m, frame(n, 1, p1), index(va, 1)) == frame(n, 2, p2) + 7);
    assert(entry_at(m, frame(n, 2, p2), index(va, 2)) == frame(n, 3, p3) + 7);
    assert(entry_at(m, frame(n, 3, p3), index(va, 3)) == leaves[g]);
}

/// One step down: a present entry for `va` in the table of `level - 1`
/// for its prefix points to the table of `level` for its prefix.
proof fn lemma_step_down(n: Map<u64, u64>, root: u64, leaves: Map<int, u64>, m: Map<(int, int), u64>, va: int, level: int)
    requires
        tables_wf(n, root, leaves, m),
        0 <= va < 0x8000_0000_0000,
        1 <= level <= 3,
        has_table(n, level - 1, prefix(va, level - 1)),
        present(entry_at(m, frame(n, level - 1, prefix(va, level - 1)), index(va, level - 1))),
    ensures
        has_table(n, level, prefix(va, level)),
        table_of(entry_at(m, frame(n, level - 1, prefix(va, level - 1)), index(va, level - 1))) == frame(n, level, prefix(va, level)),
{
    reveal(tables_wf);
    lemma_prefix_nest(va, level);
    if level >= 2 {
        lemma_prefix_nest(va, level - 1);
    }
    let q = prefix(va, level - 1);
    let t = frame(n, level - 1, q);
    let i = index(va, level - 1);
    assert(prefix(va, level) / 512 == q);
    assert(i == prefix(va, level) % 512);
    assert(m.contains_key((t as int, i)));
    let (l, p) = choose|l: int, p: int|
        #![trigger has_table(n, l, p)]
        has_table(n, l, p) && frame(n, l, p) == t && 0 <= i < 512 && (l < 3 ==> has_table(n, l + 1, p * 512 + i)) && (l == 3
            ==> leaves.contains_key(p * 512 + i));
    assert(l == level - 1 && p == q);
    assert(q * 512 + i == prefix(va, level));
    lemma_pointer(frame(n, level, prefix(va, level)));
}

/// Only mapped pages translate: a user address whose last-level entry is
/// set lies in a mapped page.
pub proof fn lemma_walk_only(n: Map<u64, u64>, root: u64, leaves: Map<int, u64>, m: Map<(int, int), u64>, va: int)
    requires
        tables_wf(n, root, leaves, m),
        0 <= va < 0x8000_0000_0000,
        walk(m, root, va) matches Some(e) && e != 0,
    ensures
        leaves.contains_key(va / 0x1000),
{
    lemma_root(n, root, leaves, m);
    assert(prefix(va, 0) == 0);
    lemma_step_down(n, root, leaves, m, va, 1);
    lemma_step_down(n, root, leaves, m, va, 2);
    lemma_step_down(n, root, leaves, m, va, 3);
    reveal(tables_wf);
    lemma_prefix_nest(va, 4);
    let p3 = prefix(va, 3);
    let t = frame(n, 3, p3);
    let i = index(va, 3);
    assert(m.contains_key((t as int, i)));
    let (l, p) = choose|l: int, p: int|
        #![trigger has_table(n, l, p)]
        has_table(n, l, p) && frame(n, l, p) == t && 0 <= i < 512 && (l < 3 ==> has_table(n, l + 1, p * 512 + i)) && (l == 3
            ==> leaves.contains_key(p * 512 + i));
    assert(l == 3 && p == p3);
    assert(p3 * 512 + i == prefix(va, 4));
}

/// The top-level table is the table of level 0.
proof fn lemma_root(n: Map<u64, u64>, root: u64, leaves: Map<int, u64>, m: Map<(int, int), u64>)
    requires
        tables_wf(n, root, leaves, m),
    ensures
        has_table(n, 0, 0) && frame(n, 0, 0) == root,
{
    reveal(tables_wf);
}

/// Adding the table of `level` for prefix `p` in the fresh aligned frame
/// `f`, pointed to from its parent, keeps the tables consistent.
proof fn lemma_add_table(n: Map<u64, u64>, root: u64, leaves: Map<int, u64>, m: Map<(int, int), u64>, l: int, p: int, f: u64)
    requires
        tables_wf(n, root, leaves, m),
        1 <= l <= 3,
        0 <= p < 0x10_0000_0000,
        !has_table(n, l, p),
        has_table(n, l - 1, p / 512),
        f % 4096 == 0,
        f < 0xFFFF_FFFF_FFFF_F000,
        forall|l2: int, p2: int| #[trigger] has_table(n, l2, p2) ==> frame(n, l2, p2) != f,
    ensures
        tables_wf(
            n.insert(node(l, p), f),
            root,
            leaves,
            m.insert((frame(n, l - 1, p / 512) as int, p % 512), (f + 7) as u64),
        ),
{
    reveal(tables_wf);
    let n2 = n.insert(node(l, p), f);
    let key = (frame(n, l - 1, p / 512) as int, p % 512);
    let m2 = m.insert(key, (f + 7) as u64);
    assert forall|l2: int, p2: int| #[trigger] has_table(n2, l2, p2) implies (has_table(n, l2, p2) && frame(n2, l2, p2) == frame(n, l2, p2))
        || (l2 == l && p2 == p && frame(n2, l2, p2) == f) by {
        if l2 != l || p2 != p {
            assert(node(l2, p2) != node(l, p));
        }
    }
    assert(has_table(n2, 0, 0) && frame(n2, 0, 0) == root) by {
        assert(node(0, 0) != node(l, p));
        assert(has_table(n, 0, 0));
    }
    assert forall|l1: int, p1: int| #[trigger] has_table(n, l1, p1) implies has_table(n2, l1, p1) && frame(n2, l1, p1) == frame(n, l1, p1) by {
        assert(node(l1, p1) != node(l, p));
    }
    assert(has_table(n2, l, p) && frame(n2, l, p) == f);
    assert forall|k: u64| #[trigger] n2.contains_key(k) implies k < 4 * 0x10_0000_0000 by {
        if k != node(l, p) {
            assert(n.contains_key(k));
        }
    }
    assert forall|l1: int, p1: int, l2: int, p2: int|
        #[trigger] has_table(n2, l1, p1) && #[trigger] has_table(n2, l2, p2) && frame(n2, l1, p1) == frame(n2, l2, p2) implies l1 == l2 && p1 == p2 by {
        if (l1 != l || p1 != p) && (l2 != l || p2 != p) {
            assert(has_table(n, l1, p1) && has_table(n, l2, p2));
        }
    }
    assert forall|l2: int, p2: int| #[trigger] has_table(n2, l2, p2) && l2 >= 1 implies has_table(n2, l2 - 1, p2 / 512)
        && m2.contains_key((frame(n2, l2 - 1, p2 / 512) as int, p2 % 512))
        && m2[(frame(n2, l2 - 1, p2 / 512) as int, p2 % 512)] == frame(n2, l2, p2) + 7 by {
        if l2 != l || p2 != p {
            assert(has_table(n, l2, p2));
            assert(has_table(n, l2 - 1, p2 / 512));
            let k2 = (frame(n, l2 - 1, p2 / 512) as int, p2 % 512);
            if k2 == key {
                assert(l2 - 1 == l - 1 && p2 / 512 == p / 512);
                assert(p2 == p);
            }
        }
    }
    assert forall|g: int| #[trigger] leaves.contains_key(g) implies 0 <= g < 0x8_0000_0000 && has_table(n2, 3, g / 512)
        && m2.contains_key((frame(n2, 3, g / 512) as int, g % 512)) && m2[(frame(n2, 3, g / 512) as int, g % 512)] == leaves[g] by {
        assert(has_table(n, 3, g / 512));
        let k2 = (frame(n, 3, g / 512) as int, g % 512);
        if k2 == key {
            assert(3 == l - 1);
        }
    }
    assert forall|t: int, i: int| #[trigger] m2.contains_key((t, i)) implies exists|l3: int, p3: int|
        #![trigger has_table(n2, l3, p3)]
        has_table(n2, l3, p3) && frame(n2, l3, p3) == t && 0 <= i < 512
            && (l3 < 3 ==> has_table(n2, l3 + 1, p3 * 512 + i)) && (l3 == 3 ==> leaves.contains_key(p3 * 512 + i)) by {
        if (t, i) == key {
            assert(has_table(n2, l - 1, p / 512));
            assert((p / 512) * 512 + p % 512 == p);
            assert(has_table(n2, l, (p / 512) * 512 + i));
        } else {
            assert(m.contains_key((t, i)));
            let (l3, p3) = choose|l3: int, p3: int|
                #![trigger has_table(n, l3, p3)]
                has_table(n, l3, p3) && frame(n, l3, p3) == t && 0 <= i < 512
                    && (l3 < 3 ==> has_table(n, l3 + 1, p3 * 512 + i)) && (l3 == 3 ==> leaves.contains_key(p3 * 512 + i));
            assert(has_table(n2, l3, p3));
            if l3 < 3 {
                assert(has_table(n2, l3 + 1, p3 * 512 + i));
            }
        }
    }
}

/// Setting the last-level entry of page `g` (whose last-level table
/// exists) keeps the tables consistent.
proof fn lemma_set_leaf(n: Map<u64, u64>, root: u64, leaves: Map<int, u64>, m: Map<(int, int), u64>, g: int, v: u64)
    requires
        tables_wf(n, root, leaves, m),
        0 <= g < 0x8_0000_0000,
        has_table(n, 3, g / 512),
    ensures
        tables_wf(n, root, leaves.insert(g, v), m.insert((frame(n, 3, g / 512) as int, g % 512), v)),
{
    reveal(tables_wf);
    let key = (frame(n, 3, g / 512) as int, g % 512);
    let m2 = m.insert(key, v);
    let leaves2 = leaves.insert(g, v);
    assert forall|l2: int, p2: int| #[trigger] has_table(n, l2, p2) && l2 >= 1 implies has_table(n, l2 - 1, p2 / 512)
        && m2.contains_key((frame(n, l2 - 1, p2 / 512) as int, p2 % 512))
        && m2[(frame(n, l2 - 1, p2 / 512) as int, p2 % 512)] == frame(n, l2, p2) + 7 by {
        assert(has_table(n, l2 - 1, p2 / 512));
        if (frame(n, l2 - 1, p2 / 512) as int, p2 % 512) == key {
            assert(l2 - 1 == 3);
        }
    }
    assert forall|g2: int| #[trigger] leaves2.contains_key(g2) implies 0 <= g2 < 0x8_0000_0000 && has_table(n, 3, g2 / 512)
        && m2.contains_key((frame(n, 3, g2 / 512) as int, g2 % 512)) && m2[(frame(n, 3, g2 / 512) as int, g2 % 512)] == leaves2[g2] by {
        if g2 != g {
            assert(leaves.contains_key(g2));
            if (frame(n, 3, g2 / 512) as int, g2 % 512) == key {
                assert(g2 / 512 == g / 512);
                assert(g2 == (g2 / 512) * 512 + g2 % 512);
                assert(g == (g / 512) * 512 + g % 512);
            }
        }
    }
    assert forall|t: int, i: int| #[trigger] m2.contains_key((t, i)) implies exists|l3: int, p3: int|
        #![trigger has_table(n, l3, p3)]
        has_table(n, l3, p3) && frame(n, l3, p3) == t && 0 <= i < 512
            && (l3 < 3 ==> has_table(n, l3 + 1, p3 * 512 + i)) && (l3 == 3 ==> leaves2.contains_key(p3 * 512 + i)) by {
        if (t, i) == key {
            assert((g / 512) * 512 + g % 512 == g);
            assert(has_table(n, 3, g / 512));
        } else {
            assert(m.contains_key((t, i)));
            let (l3, p3) = choose|l3: int, p3: int|
                #![trigger has_table(n, l3, p3)]
                has_table(n, l3, p3) && frame(n, l3, p3) == t && 0 <= i < 512
                    && (l3 < 3 ==> has_table(n, l3 + 1, p3 * 512 + i)) && (l3 == 3 ==> leaves.contains_key(p3 * 512 + i));
            assert(has_table(n, l3, p3));
        }
    }
}

/// What one more memory write does to the entries.
proof fn lemma_entries_push(ops: Seq<MemOp>, op: MemOp)
    ensures
        entries_of(ops.push(op)) == (match op {
            MemOp::Entry { table, index, value } => entries_of(ops).insert((table as int, index as int), value),
            _ => entries_of(ops),
        }),
{
    assert(ops.push(op).drop_last() =~= ops);
}

/// The tables needed to map the addresses `s` (by `node` key): the
/// top-level table, and for each address the tables of its prefixes at
/// levels 1 to 3.
pub open spec fn tableset(s: Seq<int>) -> Set<u64>
    decreases s.len(),
{
    if s.len() == 0 {
        set![node(0, 0)]
    } else {
        let va = s.last();
        tableset(s.drop_last()).insert(node(1, prefix(va, 1))).insert(node(2, prefix(va, 2))).insert(node(3, prefix(va, 3)))
    }
}

/// Frames needed to map the addresses `s`, one by one: a frame per
/// address and one per table.
pub open spec fn frames_needed(s: Seq<int>) -> int {
    (tableset(s).len() + s.len()) as int
}

/// The last-level entries after mapping the addresses `s` to the entries
/// `v`, one by one (a later mapping of a page replaces an earlier one).
pub open spec fn leaf_map(s: Seq<int>, v: Seq<u64>) -> Map<int, u64>
    decreases s.len(),
{
    if s.len() == 0 || v.len() == 0 {
        Map::empty()
    } else {
        leaf_map(s.drop_last(), v.drop_last()).insert(s.last() / 0x1000, v.last())
    }
}

proof fn lemma_tableset_finite(s: Seq<int>)
    ensures
        tableset(s).finite(),
        tableset(s).contains(node(0, 0)),
    decreases s.len(),
{
    if s.len() > 0 {
        lemma_tableset_finite(s.drop_last());
    }
}

/// Mapping more addresses never needs fewer frames.
pub proof fn lemma_needed_grows(s: Seq<int>, t: Seq<int>)
    ensures
        frames_needed(s) <= frames_needed(s + t),
    decreases t.len(),
{
    if t.len() > 0 {
        let u = s + t.drop_last();
        lemma_needed_grows(s, t.drop_last());
        assert((s + t).drop_last() =~= u);
        lemma_tableset_finite(u);
        let a = tableset(u);
        let va = (s + t).last();
        let b = a.insert(node(1, prefix(va, 1))).insert(node(2, prefix(va, 2))).insert(node(3, prefix(va, 3)));
        assert(a.subset_of(b));
        vstd::set_lib::lemma_len_subset(a, b);
    }
}

/// What memory write `op` goes to: a frame, or the table it sets an entry of.
pub open spec fn target(op: MemOp) -> u64 {
    match op {
        MemOp::NewTopLevel(f) => f,
        MemOp::Zero(f) => f,
        MemOp::Copy { frame, .. } => frame,
        MemOp::Entry { table, .. } => table,
    }
}

/// Takes the next frame of `pool`: `None` when all are used.
pub fn take_frame(pool: &mut ElfFramePool) -> (r: Option<u64>)
    requires
        pool_wf(*old(pool)),
    ensures
        pool_wf(*final(pool)),
        final(pool).base_frame == old(pool).base_frame && final(pool).max_frames == old(pool).max_frames,
        final(pool).initialized == old(pool).initialized,
        (!old(pool).initialized || old(pool).frames_used >= old(pool).max_frames) ==> r is None && *final(pool) == *old(pool),
        (old(pool).initialized && old(pool).frames_used < old(pool).max_frames) ==> r == Some(
            (old(pool).base_frame + old(pool).frames_used * 4096) as u64,
        ) && final(pool).frames_used == old(pool).frames_used + 1,
{
    if !pool.initialized || pool.frames_used >= pool.max_frames {
        return None;
    }
    let used = pool.frames_used;
    assert(pool.base_frame + used * 4096 <= pool.base_frame + pool.max_frames * 4096) by (nonlinear_arith)
        requires
            used <= pool.max_frames,
    ;
    let f = pool.base_frame + (used as u64) * 4096;
    pool.frames_used = used + 1;
    Some(f)
}

/// An address space being built: the pool its frames come from, its
/// top-level table, its tables (frames by `node` key) and the memory
/// writes so far; in ghost state, the frames the pool had handed out
/// before, the addresses mapped with their entries, and the entries of
/// the mapped pages.
pub struct SpaceBuilder {
    pub pool: ElfFramePool,
    pub root: u64,
    pub nodes: IntMap<u64>,
    pub ops: Vec<MemOp>,
    pub first_used: Ghost<int>,
    pub mapped: Ghost<Seq<int>>,
    pub values: Ghost<Seq<u64>>,
    pub leaves: Ghost<Map<int, u64>>,
}

/// The frames of the pool lie in aligned memory below the last page.
pub open spec fn pool_fits(p: ElfFramePool) -> bool {
    &&& pool_wf(p) && p.initialized
    &&& p.base_frame % 4096 == 0
    &&& p.base_frame + p.max_frames * 4096 <= 0xFFFF_FFFF_FFFF_F000
}

/// The tables are consistent, their frames and every write so far lie in
/// the frames handed out.
pub open spec fn builder_core(b: &SpaceBuilder) -> bool {
    let n = b.nodes@;
    &&& pool_fits(b.pool)
    &&& tables_wf(n, b.root, b.leaves@, entries_of(b.ops@))
    &&& forall|l: int, p: int| #[trigger] has_table(n, l, p) ==> b.pool.base_frame <= frame(n, l, p) < b.pool.base_frame
        + b.pool.frames_used * 4096
    &&& forall|k: int| 0 <= k < b.ops@.len() ==> #[trigger] target(b.ops@[k]) < b.pool.base_frame + b.pool.frames_used * 4096
}

/// The builder is consistent: its core, and the tables, frames used and
/// page entries are those of mapping `mapped` to `values`.
pub open spec fn builder_wf(b: &SpaceBuilder) -> bool {
    &&& builder_core(b)
    &&& b.nodes@.dom() == tableset(b.mapped@)
    &&& b.pool.frames_used == b.first_used@ + frames_needed(b.mapped@)
    &&& b.values@.len() == b.mapped@.len()
    &&& forall|j: int| 0 <= j < b.mapped@.len() ==> 0 <= #[trigger] b.mapped@[j] < 0x8000_0000_0000
    &&& b.leaves@ == leaf_map(b.mapped@, b.values@)
}

/// Starts an address space: takes its top-level table from `pool`
/// (`None` when the pool is used up).
pub fn start_space(pool: ElfFramePool) -> (r: Option<SpaceBuilder>)
    requires
        pool_fits(pool),
    ensures
        pool.frames_used >= pool.max_frames ==> r is None,
        pool.frames_used < pool.max_frames ==> (r matches Some(b) && builder_wf(&b)
            && b.root == pool.base_frame + pool.frames_used * 4096
            && b.pool == (ElfFramePool { frames_used: (pool.frames_used + 1) as usize, ..pool })
            && b.ops@ == seq![MemOp::NewTopLevel(b.root)] && b.mapped@.len() == 0 && b.first_used@ == pool.frames_used),
{
    let mut p = pool;
    let root = match take_frame(&mut p) {
        Some(f) => f,
        None => return None,
    };
    let mut nodes: IntMap<u64> = IntMap::new();
    nodes.insert(0, root);
    let mut ops: Vec<MemOp> = Vec::new();
    ops.push(MemOp::NewTopLevel(root));
    let b = SpaceBuilder {
        pool: p,
        root,
        nodes,
        ops,
        first_used: Ghost(pool.frames_used as int),
        mapped: Ghost(Seq::empty()),
        values: Ghost(Seq::empty()),
        leaves: Ghost(Map::empty()),
    };
    proof {
        reveal(tables_wf);
        lemma_entries_push(Seq::empty(), MemOp::NewTopLevel(root));
        assert(seq![MemOp::NewTopLevel(root)] =~= Seq::<MemOp>::empty().push(MemOp::NewTopLevel(root)));
        assert(entries_of(b.ops@) =~= Map::<(int, int), u64>::empty());
        assert(node(0, 0) == 0u64);
        assert((pool.frames_used * 4096) % 4096 == 0) by (nonlinear_arith);
        assert forall|l: int, p: int| #[trigger] has_table(b.nodes@, l, p) implies l == 0 && p == 0 by {
            assert(node(l, p) == 0u64);
        }
        assert(b.nodes@.dom() =~= set![0u64]);
        assert(tableset(b.mapped@) == set![node(0, 0)]);
        assert(set![0u64].len() == 1) by {
            assert(set![0u64] =~= Set::<u64>::empty().insert(0u64));
        }
        assert(leaf_map(b.mapped@, b.values@) =~= Map::<int, u64>::empty());
    }
    Some(b)
}

/// The table of `level` for prefix `p` under the table `parent` of the
/// level above: the existing one, or a new zeroed one from the pool, which
/// its parent then points to (`None` when the pool is used up).
fn ensure_table(b: &mut SpaceBuilder, level: u64, p: u64, parent: u64) -> (r: Option<u64>)
    requires
        builder_core(old(b)),
        1 <= level <= 3,
        p < 0x10_0000_0000,
        has_table(old(b).nodes@, level - 1, p as int / 512),
        parent == frame(old(b).nodes@, level - 1, p as int / 512),
    ensures
        final(b).root == old(b).root,
        final(b).first_used == old(b).first_used && final(b).mapped == old(b).mapped && final(b).values == old(b).values,
        final(b).leaves == old(b).leaves,
        final(b).pool.base_frame == old(b).pool.base_frame && final(b).pool.max_frames == old(b).pool.max_frames,
        final(b).pool.initialized == old(b).pool.initialized,
        has_table(old(b).nodes@, level as int, p as int) ==> r == Some(frame(old(b).nodes@, level as int, p as int))
            && final(b).nodes@ == old(b).nodes@ && final(b).ops@ == old(b).ops@ && final(b).pool == old(b).pool,
        !has_table(old(b).nodes@, level as int, p as int) && old(b).pool.frames_used >= old(b).pool.max_frames ==> r is None
            && final(b).nodes@ == old(b).nodes@ && final(b).ops@ == old(b).ops@ && final(b).pool == old(b).pool,
        !has_table(old(b).nodes@, level as int, p as int) && old(b).pool.frames_used < old(b).pool.max_frames ==> ({
            let f = (old(b).pool.base_frame + old(b).pool.frames_used * 4096) as u64;
            &&& r == Some(f)
            &&& final(b).pool.frames_used == old(b).pool.frames_used + 1
            &&& final(b).nodes@ == old(b).nodes@.insert(node(level as int, p as int), f)
            &&& final(b).ops@ == old(b).ops@.push(MemOp::Zero(f)).push(MemOp::Entry { table: parent, index: (p % 512) as u64, value: (f + 7) as u64 })
        }),
        r is Some ==> builder_core(final(b)) && has_table(final(b).nodes@, level as int, p as int) && r == Some(frame(final(b).nodes@, level as int, p as int)),
        forall|l: int, q: int| #[trigger] has_table(old(b).nodes@, l, q) ==> has_table(final(b).nodes@, l, q) && frame(final(b).nodes@, l, q) == frame(old(b).nodes@, l, q),
{
    let key = level * 0x10_0000_0000 + p;
    assert(key == node(level as int, p as int));
    match b.nodes.get(key) {
        Some(f) => {
            return Some(*f);
        },
        None => {},
    }
    let ghost n0 = b.nodes@;
    let ghost ops0 = b.ops@;
    let ghost used0 = b.pool.frames_used;
    let f = match take_frame(&mut b.pool) {
        Some(f) => f,
        None => return None,
    };
    assert((used0 * 4096) % 4096 == 0) by (nonlinear_arith);
    assert(used0 < b.pool.max_frames);
    assert(f % 4096 == 0 && f < 0xFFFF_FFFF_FFFF_F000);
    let value = f | 7;
    assert(value == f + 7) by (bit_vector)
        requires
            f % 4096 == 0,
            f < 0xFFFF_FFFF_FFFF_F000,
            value == f | 7,
    ;
    let index = p & 0x1FF;
    assert(index == p % 512) by (bit_vector)
        requires
            index == p & 0x1FF,
    ;
    b.ops.push(MemOp::Zero(f));
    b.ops.push(MemOp::Entry { table: parent, index, value });
    b.nodes.insert(key, f);
    proof {
        lemma_entries_push(ops0, MemOp::Zero(f));
        lemma_entries_push(ops0.push(MemOp::Zero(f)), MemOp::Entry { table: parent, index, value });
        assert forall|l2: int, p2: int| #[trigger] has_table(n0, l2, p2) implies frame(n0, l2, p2) != f by {
        }
        lemma_add_table(n0, b.root, b.leaves@, entries_of(ops0), level as int, p as int, f);
        assert(b.nodes@ == n0.insert(node(level as int, p as int), f));
        assert(entries_of(b.ops@) == entries_of(ops0).insert((frame(n0, level - 1, p as int / 512) as int, p as int % 512), (f + 7) as u64));
        assert forall|l: int, q: int| #[trigger] has_table(b.nodes@, l, q) implies b.pool.base_frame <= frame(b.nodes@, l, q)
            < b.pool.base_frame + b.pool.frames_used * 4096 by {
            if node(l, q) != key {
                assert(has_table(n0, l, q));
            }
        }
        assert forall|k: int| 0 <= k < b.ops@.len() implies #[trigger] target(b.ops@[k]) < b.pool.base_frame + b.pool.frames_used * 4096 by {
            if k < ops0.len() {
                assert(b.ops@[k] == ops0[k]);
            }
        }
        assert forall|l: int, q: int| #[trigger] has_table(n0, l, q) implies has_table(b.nodes@, l, q) && frame(b.nodes@, l, q) == frame(n0, l, q) by {
            assert(node(l, q) != key);
        }
    }
    Some(f)
}

/// Takes the frame of a new page from the pool, zeroes it and copies the
/// executable's bytes `copy` (start in the page, offset in the file,
/// length) into it; `None` when the pool is used up.
fn new_data_frame(b: &mut SpaceBuilder, copy: Option<(u64, u64, u64)>) -> (r: Option<u64>)
    requires
        builder_core(old(b)),
    ensures
        final(b).root == old(b).root && final(b).first_used == old(b).first_used && final(b).mapped == old(b).mapped,
        final(b).values == old(b).values && final(b).leaves == old(b).leaves && final(b).nodes@ == old(b).nodes@,
        final(b).pool.base_frame == old(b).pool.base_frame && final(b).pool.max_frames == old(b).pool.max_frames,
        final(b).pool.initialized == old(b).pool.initialized,
        r is None ==> old(b).pool.frames_used >= old(b).pool.max_frames && *final(b) == *old(b),
        r matches Some(data) ==> ({
            let n = old(b).ops@.len() as int;
            &&& builder_core(final(b))
            &&& data == old(b).pool.base_frame + old(b).pool.frames_used * 4096
            &&& final(b).pool.frames_used == old(b).pool.frames_used + 1
            &&& final(b).ops@ == (match copy {
                Some((st, off, ln)) => old(b).ops@.push(MemOp::Zero(data)).push(MemOp::Copy { frame: data, start: st, file_offset: off, len: ln }),
                None => old(b).ops@.push(MemOp::Zero(data)),
            })
        }),
{
    let ghost b0 = *b;
    let data = match take_frame(&mut b.pool) {
        Some(f) => f,
        None => return None,
    };
    b.ops.push(MemOp::Zero(data));
    match copy {
        Some((start, file_offset, len)) => {
            b.ops.push(MemOp::Copy { frame: data, start, file_offset, len });
        },
        None => {},
    }
    proof {
        lemma_entries_push(b0.ops@, MemOp::Zero(data));
        if copy is Some {
            lemma_entries_push(b0.ops@.push(MemOp::Zero(data)), b.ops@.last());
            assert(b.ops@ =~= b0.ops@.push(MemOp::Zero(data)).push(b.ops@.last()));
        } else {
            assert(b.ops@ =~= b0.ops@.push(MemOp::Zero(data)));
        }
        assert(entries_of(b.ops@) == entries_of(b0.ops@));
        assert forall|k: int| 0 <= k < b.ops@.len() implies #[trigger] target(b.ops@[k]) < b.pool.base_frame + b.pool.frames_used * 4096 by {
            if k < b0.ops@.len() {
                assert(b.ops@[k] == b0.ops@[k]);
            }
        }
    }
    Some(data)
}

/// After `ensure_table` went from `o` to `n`: the tables keep avoiding
/// frame `avoid`, and so do the writes it added.
proof fn lemma_fresh_ops(o: SpaceBuilder, n: SpaceBuilder, avoid: Set<u64>)
    requires
        forall|x: u64| #[trigger] avoid.contains(x) ==> x < o.pool.base_frame + o.pool.frames_used * 4096,
        forall|l: int, q: int| #[trigger] has_table(o.nodes@, l, q) ==> !avoid.contains(frame(o.nodes@, l, q)),
        n.pool.base_frame == o.pool.base_frame,
        n.pool.frames_used >= o.pool.frames_used,
        forall|l: int, q: int| #[trigger] has_table(o.nodes@, l, q) ==> has_table(n.nodes@, l, q)
            && frame(n.nodes@, l, q) == frame(o.nodes@, l, q),
        n.nodes@ == o.nodes@ && n.ops@ == o.ops@ || exists|f: u64, key: u64, parent: u64, i: u64, v: u64|
            f == o.pool.base_frame + o.pool.frames_used * 4096 && n.nodes@ == o.nodes@.insert(key, f)
            && n.ops@ == o.ops@.push(MemOp::Zero(f)).push(MemOp::Entry { table: parent, index: i, value: v })
            && (exists|l: int, q: int| #[trigger] has_table(o.nodes@, l, q) && frame(o.nodes@, l, q) == parent),
    ensures
        forall|l: int, q: int| #[trigger] has_table(n.nodes@, l, q) ==> !avoid.contains(frame(n.nodes@, l, q)),
        forall|x: u64| #[trigger] avoid.contains(x) ==> x < n.pool.base_frame + n.pool.frames_used * 4096,
        n.ops@.len() >= o.ops@.len(),
        n.ops@.subrange(0, o.ops@.len() as int) == o.ops@,
        forall|k: int| o.ops@.len() <= k < n.ops@.len() ==> !avoid.contains(#[trigger] target(n.ops@[k])),
{
    if !(n.nodes@ == o.nodes@ && n.ops@ == o.ops@) {
        let (f, key, parent, i, v) = choose|f: u64, key: u64, parent: u64, i: u64, v: u64|
            f == o.pool.base_frame + o.pool.frames_used * 4096 && n.nodes@ == o.nodes@.insert(key, f)
            && n.ops@ == o.ops@.push(MemOp::Zero(f)).push(MemOp::Entry { table: parent, index: i, value: v })
            && (exists|l: int, q: int| #[trigger] has_table(o.nodes@, l, q) && frame(o.nodes@, l, q) == parent);
        assert forall|l: int, q: int| #[trigger] has_table(n.nodes@, l, q) implies !avoid.contains(frame(n.nodes@, l, q)) by {
            if node(l, q) != key {
                assert(has_table(o.nodes@, l, q));
            }
        }
        assert(n.ops@.subrange(0, o.ops@.len() as int) =~= o.ops@);
    } else {
        assert(n.ops@.subrange(0, o.ops@.len() as int) =~= o.ops@);
    }
}

/// Two steps of adding writes that avoid `avoid` make one.
proof fn lemma_ops_chain(a: SpaceBuilder, m: SpaceBuilder, c: SpaceBuilder, avoid: Set<u64>)
    requires
        m.ops@.len() >= a.ops@.len(),
        m.ops@.subrange(0, a.ops@.len() as int) == a.ops@,
        forall|k: int| a.ops@.len() <= k < m.ops@.len() ==> !avoid.contains(#[trigger] target(m.ops@[k])),
        c.ops@.len() >= m.ops@.len(),
        c.ops@.subrange(0, m.ops@.len() as int) == m.ops@,
        forall|k: int| m.ops@.len() <= k < c.ops@.len() ==> !avoid.contains(#[trigger] target(c.ops@[k])),
    ensures
        c.ops@.len() >= a.ops@.len(),
        c.ops@.subrange(0, a.ops@.len() as int) == a.ops@,
        forall|k: int| a.ops@.len() <= k < c.ops@.len() ==> !avoid.contains(#[trigger] target(c.ops@[k])),
{
    assert(c.ops@.subrange(0, a.ops@.len() as int) =~= a.ops@) by {
        assert forall|k: int| 0 <= k < a.ops@.len() implies c.ops@[k] == a.ops@[k] by {
            assert(c.ops@.subrange(0, m.ops@.len() as int)[k] == c.ops@[k]);
            assert(m.ops@.subrange(0, a.ops@.len() as int)[k] == m.ops@[k]);
        }
    }
    assert forall|k: int| a.ops@.len() <= k < c.ops@.len() implies !avoid.contains(#[trigger] target(c.ops@[k])) by {
        if k < m.ops@.len() {
            assert(c.ops@.subrange(0, m.ops@.len() as int)[k] == c.ops@[k]);
        }
    }
}

/// The tables `va` needs, by `node` key.
pub open spec fn keys_of(va: int) -> Set<u64> {
    set![node(1, prefix(va, 1)), node(2, prefix(va, 2)), node(3, prefix(va, 3))]
}

/// Creates the missing tables down to the last level for address `va` and
/// sets its entry to `value`; `None` when the pool runs out on the way.
fn map_frame(b: &mut SpaceBuilder, va: u64, value: u64, Ghost(avoid): Ghost<Set<u64>>) -> (r: bool)
    requires
        builder_core(old(b)),
        va < 0x8000_0000_0000,
        old(b).nodes@.dom().finite(),
        forall|x: u64| #[trigger] avoid.contains(x) ==> x < old(b).pool.base_frame + old(b).pool.frames_used * 4096,
        forall|l: int, q: int| #[trigger] has_table(old(b).nodes@, l, q) ==> !avoid.contains(frame(old(b).nodes@, l, q)),
    ensures
        final(b).root == old(b).root && final(b).first_used == old(b).first_used && final(b).mapped == old(b).mapped,
        final(b).values == old(b).values,
        final(b).pool.base_frame == old(b).pool.base_frame && final(b).pool.max_frames == old(b).pool.max_frames,
        final(b).pool.initialized == old(b).pool.initialized,
        final(b).nodes@.dom().finite(),
        final(b).nodes@.dom().subset_of(old(b).nodes@.dom() + keys_of(va as int)),
        old(b).nodes@.dom().subset_of(final(b).nodes@.dom()),
        final(b).pool.frames_used - final(b).nodes@.dom().len() == old(b).pool.frames_used - old(b).nodes@.dom().len(),
        forall|l: int, q: int| #[trigger] has_table(old(b).nodes@, l, q) ==> has_table(final(b).nodes@, l, q)
            && frame(final(b).nodes@, l, q) == frame(old(b).nodes@, l, q),
        final(b).ops@.len() >= old(b).ops@.len(),
        final(b).ops@.subrange(0, old(b).ops@.len() as int) == old(b).ops@,
        forall|k: int| old(b).ops@.len() <= k < final(b).ops@.len() ==> !avoid.contains(#[trigger] target(final(b).ops@[k])),
        forall|l: int, q: int| #[trigger] has_table(final(b).nodes@, l, q) ==> !avoid.contains(frame(final(b).nodes@, l, q)),
        !r ==> final(b).pool.frames_used == final(b).pool.max_frames && !(old(b).nodes@.dom() + keys_of(va as int)).subset_of(
            final(b).nodes@.dom()),
        r ==> builder_core(final(b)) && final(b).nodes@.dom() == old(b).nodes@.dom() + keys_of(va as int)
            && final(b).leaves@ == old(b).leaves@.insert(va as int / 0x1000, value),
{
    let ghost b0 = *b;
    proof {
        lemma_prefix_nest(va as int, 1);
        lemma_prefix_nest(va as int, 2);
        lemma_prefix_nest(va as int, 3);
        lemma_prefix_nest(va as int, 4);
        lemma_root(b.nodes@, b.root, b.leaves@, entries_of(b.ops@));
    }
    let p1 = va >> 39u64;
    let p2 = va >> 30u64;
    let p3 = va >> 21u64;
    let g = va >> 12u64;
    assert(p1 == va / 0x80_0000_0000 && p2 == va / 0x4000_0000 && p3 == va / 0x20_0000 && g == va / 0x1000) by (bit_vector)
        requires
            p1 == va >> 39u64,
            p2 == va >> 30u64,
            p3 == va >> 21u64,
            g == va >> 12u64,
    ;
    let root = b.root;
    let t1 = match ensure_table(b, 1, p1, root) {
        Some(t) => t,
        None => {
            proof {
                assert(b.ops@.subrange(0, b0.ops@.len() as int) =~= b0.ops@);
            }
            return false;
        },
    };
    proof {
        lemma_fresh_ops(b0, *b, avoid);
    }
    let ghost bb1 = *b;
    let t2 = match ensure_table(b, 2, p2, t1) {
        Some(t) => t,
        None => {
            proof {
                assert(b.ops@.subrange(0, bb1.ops@.len() as int) =~= bb1.ops@);
                lemma_ops_chain(b0, bb1, *b, avoid);
            }
            return false;
        },
    };
    proof {
        lemma_fresh_ops(bb1, *b, avoid);
        lemma_ops_chain(b0, bb1, *b, avoid);
    }
    let ghost bb2 = *b;
    let t3 = match ensure_table(b, 3, p3, t2) {
        Some(t) => t,
        None => {
            proof {
                assert(b.ops@.subrange(0, bb2.ops@.len() as int) =~= bb2.ops@);
                lemma_ops_chain(b0, bb2, *b, avoid);
            }
            return false;
        },
    };
    proof {
        lemma_fresh_ops(bb2, *b, avoid);
        lemma_ops_chain(b0, bb2, *b, avoid);
    }
    let ghost ops3 = b.ops@;
    let index = g & 0x1FF;
    assert(index == g % 512) by (bit_vector)
        requires
            index == g & 0x1FF,
    ;
    b.ops.push(MemOp::Entry { table: t3, index, value });
    proof {
        let gg = va as int / 0x1000;
        lemma_entries_push(ops3, MemOp::Entry { table: t3, index, value });
        assert(gg / 512 == p3 as int);
        assert(t3 == frame(b.nodes@, 3, gg / 512));
        lemma_set_leaf(b.nodes@, b.root, b.leaves@, entries_of(ops3), gg, value);
        b.leaves@ = b.leaves@.insert(gg, value);
        assert forall|k: int| 0 <= k < b.ops@.len() implies #[trigger] target(b.ops@[k]) < b.pool.base_frame + b.pool.frames_used * 4096 by {
            if k < ops3.len() {
                assert(b.ops@[k] == ops3[k]);
            }
        }
        assert(b.ops@.subrange(0, b0.ops@.len() as int) =~= ops3.subrange(0, b0.ops@.len() as int));
        assert forall|k: int| b0.ops@.len() <= k < b.ops@.len() implies !avoid.contains(#[trigger] target(b.ops@[k])) by {
            if k < ops3.len() {
                assert(b.ops@[k] == ops3[k]);
            }
        }
    }
    true
}

/// Maps a new page at address `va`: takes a frame from the pool, zeroes
/// it, copies the executable's bytes `copy` (start in the page, offset in
/// the file, length) into it, creates the missing tables down to the last
/// level, and sets the page's entry to the frame with `flags`. Returns the
/// frame, or `None` when the pool runs out on the way.
pub fn map_new_page(b: &mut SpaceBuilder, va: u64, flags: u64, copy: Option<(u64, u64, u64)>, Ghost(avoid): Ghost<Set<u64>>) -> (r: Option<u64>)
    requires
        builder_wf(old(b)),
        va < 0x8000_0000_0000,
        forall|x: u64| #[trigger] avoid.contains(x) ==> x < old(b).pool.base_frame + old(b).pool.frames_used * 4096,
        forall|l: int, q: int| #[trigger] has_table(old(b).nodes@, l, q) ==> !avoid.contains(frame(old(b).nodes@, l, q)),
    ensures
        final(b).root == old(b).root && final(b).first_used == old(b).first_used,
        final(b).pool.base_frame == old(b).pool.base_frame && final(b).pool.max_frames == old(b).pool.max_frames,
        final(b).pool.initialized == old(b).pool.initialized,
        r is None ==> final(b).pool.frames_used == final(b).pool.max_frames
            && frames_needed(old(b).mapped@.push(va as int)) > old(b).pool.max_frames - old(b).first_used@,
        r matches Some(data) ==> ({
            let n = old(b).ops@.len() as int;
            let after = n + (if copy is Some { 2int } else { 1int });
            &&& builder_wf(final(b))
            &&& data == old(b).pool.base_frame + old(b).pool.frames_used * 4096
            &&& final(b).mapped@ == old(b).mapped@.push(va as int)
            &&& final(b).values@ == old(b).values@.push(data | flags)
            &&& final(b).ops@.len() >= after
            &&& final(b).ops@.subrange(0, n) == old(b).ops@
            &&& final(b).ops@[n] == MemOp::Zero(data)
            &&& copy matches Some((st, off, ln)) ==> final(b).ops@[n + 1] == (MemOp::Copy { frame: data, start: st, file_offset: off, len: ln })
            &&& !avoid.contains(data)
            &&& forall|k: int| after <= k < final(b).ops@.len() ==> !avoid.insert(data).contains(#[trigger] target(final(b).ops@[k]))
            &&& forall|l: int, q: int| #[trigger] has_table(final(b).nodes@, l, q) ==> !avoid.insert(data).contains(frame(final(b).nodes@, l, q))
        }),
{
    let ghost b0 = *b;
    proof {
        lemma_tableset_finite(b.mapped@);
        lemma_tableset_finite(b.mapped@.push(va as int));
        assert(b.mapped@.push(va as int).drop_last() =~= b.mapped@);
        assert(tableset(b.mapped@.push(va as int)) =~= tableset(b.mapped@) + keys_of(va as int));
        vstd::set_lib::lemma_len_subset(tableset(b.mapped@), tableset(b.mapped@.push(va as int)));
    }
    let data = match new_data_frame(b, copy) {
        Some(f) => f,
        None => return None,
    };
    let ghost b1 = *b;
    let value = data | flags;
    proof {
        assert forall|l: int, q: int| #[trigger] has_table(b.nodes@, l, q) implies !avoid.insert(data).contains(frame(b.nodes@, l, q)) by {
            assert(has_table(b0.nodes@, l, q));
        }
        assert forall|x: u64| #[trigger] avoid.insert(data).contains(x) implies x < b.pool.base_frame + b.pool.frames_used * 4096 by {
        }
    }
    if !map_frame(b, va, value, Ghost(avoid.insert(data))) {
        proof {
            let tp = tableset(b0.mapped@.push(va as int));
            let d = b.nodes@.dom();
            assert(d.subset_of(tp));
            assert(!tp.subset_of(d));
            let k = choose|k: u64| tp.contains(k) && !d.contains(k);
            assert(d.insert(k).subset_of(tp));
            vstd::set_lib::lemma_len_subset(d.insert(k), tp);
        }
        return None;
    }
    proof {
        b.mapped@ = b.mapped@.push(va as int);
        b.values@ = b.values@.push(value);
        assert(b.mapped@.drop_last() =~= b0.mapped@);
        assert(b.values@.drop_last() =~= b0.values@);
        assert(b.nodes@.dom() =~= tableset(b.mapped@));
        assert forall|j: int| 0 <= j < b.mapped@.len() implies 0 <= #[trigger] b.mapped@[j] < 0x8000_0000_0000 by {
            if j < b0.mapped@.len() {
                assert(b.mapped@[j] == b0.mapped@[j]);
            }
        }
        let n = b0.ops@.len() as int;
        let after = n + (if copy is Some { 2int } else { 1int });
        assert(b1.ops@.len() == after);
        assert(b.ops@.subrange(0, after) == b1.ops@);
        assert(b.ops@.subrange(0, after)[n] == b.ops@[n]);
        assert(b.ops@[n] == b1.ops@[n]);
        if copy is Some {
            assert(b.ops@.subrange(0, after)[n + 1] == b.ops@[n + 1]);
            assert(b.ops@[n + 1] == b1.ops@[n + 1]);
        }
        assert(b.ops@.subrange(0, n) =~= b0.ops@) by {
            assert forall|k: int| 0 <= k < n implies b.ops@[k] == b0.ops@[k] by {
                assert(b.ops@.subrange(0, after)[k] == b.ops@[k]);
            }
        }
    }
    Some(data)
}

} // verus!
