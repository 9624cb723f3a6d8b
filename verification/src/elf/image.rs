//! Loading an executable into a new user address space: the pages of its
//! loadable segments and of the user stack, each in a zeroed frame holding
//! its part of the file, mapped with the segment's permissions.

use vstd::prelude::*;
use crate::elf::{
    Elf64Phdr, ElfError, ElfFramePool, PT_LOAD, USER_ADDR_LIMIT, USER_STACK_PAGES, USER_STACK_TOP, check_segment, copy_window, page_copy,
    page_flags_for, elf_flags_to_page_flags, segment_error, segment_pages,
};
use crate::elf::tables::{
    MemOp, SpaceBuilder, builder_wf, entries_of, frame, frames_needed, has_table, leaf_map, lemma_needed_grows,
    lemma_walk, lemma_walk_only, map_new_page, node, pool_fits, start_space, tableset, target, walk,
};
use crate::elf::{ElfLoadResult, ElfLoader, PHDR_SIZE, header_error, le16, le32, le64, parse_header, parse_program_headers, phdr_of, pool_wf};

verus! {

/// The pages of a loadable segment: from the page holding its first byte
/// up to the page boundary after its last.
pub open spec fn segment_page_list(p: Elf64Phdr) -> Seq<int> {
    let start = p.p_vaddr - p.p_vaddr % 4096;
    let top = p.p_vaddr + p.p_memsz + 4095;
    let end = top - top % 4096;
    Seq::new(((end - start) / 4096) as nat, |k: int| start + k * 4096)
}

/// The page-table flags of each page of a segment.
pub open spec fn segment_flag_list(p: Elf64Phdr) -> Seq<u64> {
    Seq::new(segment_page_list(p).len(), |k: int| page_flags_for(p.p_flags))
}

/// What of a file of `file_len` bytes goes into each page of a segment
/// (`copy_window`: offset in the file, start in the page, length).
pub open spec fn segment_copy_list(p: Elf64Phdr, file_len: int) -> Seq<Option<(int, int, int)>> {
    Seq::new(
        segment_page_list(p).len(),
        |k: int| copy_window(p.p_vaddr, p.p_filesz, p.p_offset, segment_page_list(p)[k] as u64, file_len),
    )
}

/// The pages of the loadable segments among the first `i` program
/// headers, in order.
pub open spec fn load_pages(ph: Seq<Elf64Phdr>, i: int) -> Seq<int>
    decreases i,
{
    if i <= 0 {
        Seq::empty()
    } else if ph[i - 1].p_type == PT_LOAD {
        load_pages(ph, i - 1) + segment_page_list(ph[i - 1])
    } else {
        load_pages(ph, i - 1)
    }
}

/// Their page-table flags.
pub open spec fn load_flags(ph: Seq<Elf64Phdr>, i: int) -> Seq<u64>
    decreases i,
{
    if i <= 0 {
        Seq::empty()
    } else if ph[i - 1].p_type == PT_LOAD {
        load_flags(ph, i - 1) + segment_flag_list(ph[i - 1])
    } else {
        load_flags(ph, i - 1)
    }
}

/// What of the file goes into each of them.
pub open spec fn load_copies(ph: Seq<Elf64Phdr>, i: int, file_len: int) -> Seq<Option<(int, int, int)>>
    decreases i,
{
    if i <= 0 {
        Seq::empty()
    } else if ph[i - 1].p_type == PT_LOAD {
        load_copies(ph, i - 1, file_len) + segment_copy_list(ph[i - 1], file_len)
    } else {
        load_copies(ph, i - 1, file_len)
    }
}

/// Number of loadable segments among the first `i` program headers.
pub open spec fn load_count(ph: Seq<Elf64Phdr>, i: int) -> int
    decreases i,
{
    if i <= 0 {
        0
    } else if ph[i - 1].p_type == PT_LOAD {
        load_count(ph, i - 1) + 1
    } else {
        load_count(ph, i - 1)
    }
}

/// The first loadable segment from index `i` on that a file of
/// `file_len` bytes cannot give (`segment_error`), or `ph.len()`.
pub open spec fn first_bad(ph: Seq<Elf64Phdr>, i: int, file_len: int) -> int
    decreases ph.len() - i,
{
    if i >= ph.len() {
        ph.len() as int
    } else if i < 0 {
        first_bad(ph, 0, file_len)
    } else if ph[i].p_type == PT_LOAD && segment_error(ph[i], file_len) is Some {
        i
    } else {
        first_bad(ph, i + 1, file_len)
    }
}

/// Page-table flags of the user stack: present, writable, user-accessible,
/// not executable.
pub const STACK_PAGE_FLAGS: u64 = 0x8000_0000_0000_0007;

/// The pages of the user stack, below `USER_STACK_TOP`.
pub open spec fn stack_pages() -> Seq<int> {
    Seq::new(USER_STACK_PAGES as nat, |k: int| (USER_STACK_TOP - USER_STACK_PAGES * 4096) + k * 4096)
}

/// Frames, copies and writes agree: the `j`-th page's frame is zeroed by
/// write `zs[j]`, then filled by the next write when `copies[j]` gives
/// something to copy, and no other write touches it.
pub open spec fn pages_placed(ops: Seq<MemOp>, frames: Seq<u64>, copies: Seq<Option<(int, int, int)>>, zs: Seq<int>) -> bool {
    &&& frames.len() == copies.len() && zs.len() == frames.len()
    &&& forall|j: int| 0 <= j < frames.len() ==> {
        &&& 0 < #[trigger] zs[j] < ops.len()
        &&& ops[zs[j]] == MemOp::Zero(frames[j])
        &&& copies[j] matches Some(w) ==> zs[j] + 1 < ops.len() && ops[zs[j] + 1] == (MemOp::Copy {
            frame: frames[j],
            start: w.1 as u64,
            file_offset: w.0 as u64,
            len: w.2 as u64,
        })
        &&& forall|k: int| 0 <= k < ops.len() && k != zs[j] && !(copies[j] is Some && k == zs[j] + 1) ==> #[trigger] target(ops[k]) != frames[j]
    }
}

/// The page number of `va` is mapped by `leaf_map(s, v)` when `va` is
/// among `s`, to the entry of its last mapping.
pub proof fn lemma_leaf_map(s: Seq<int>, v: Seq<u64>, j: int)
    requires
        s.len() == v.len(),
        0 <= j < s.len(),
    ensures
        leaf_map(s, v).contains_key(s[j] / 0x1000),
        (forall|k: int| j < k < s.len() ==> #[trigger] s[k] / 0x1000 != s[j] / 0x1000) ==> leaf_map(s, v)[s[j] / 0x1000] == v[j],
    decreases s.len(),
{
    if j < s.len() - 1 {
        lemma_leaf_map(s.drop_last(), v.drop_last(), j);
        assert(s.drop_last()[j] == s[j]);
        if forall|k: int| j < k < s.len() ==> #[trigger] s[k] / 0x1000 != s[j] / 0x1000 {
            assert(s[s.len() - 1] / 0x1000 != s[j] / 0x1000);
            assert forall|k: int| j < k < s.drop_last().len() implies #[trigger] s.drop_last()[k] / 0x1000 != s.drop_last()[j] / 0x1000 by {
                assert(s.drop_last()[k] == s[k]);
            }
        }
    }
}

/// Every page number `leaf_map(s, v)` maps is that of an address of `s`.
pub proof fn lemma_leaf_keys(s: Seq<int>, v: Seq<u64>, g: int)
    requires
        s.len() == v.len(),
        leaf_map(s, v).contains_key(g),
    ensures
        exists|j: int| 0 <= j < s.len() && #[trigger] s[j] / 0x1000 == g,
    decreases s.len(),
{
    if s.last() / 0x1000 != g {
        lemma_leaf_keys(s.drop_last(), v.drop_last(), g);
        let j = choose|j: int| 0 <= j < s.drop_last().len() && #[trigger] s.drop_last()[j] / 0x1000 == g;
        assert(s[j] == s.drop_last()[j]);
    } else {
        assert(s[s.len() - 1] / 0x1000 == g);
    }
}

/// The pages mapped so far by builder `b` sit in the distinct aligned
/// pool frames `frames`, with entries of those frames and `flags`, filled
/// as `copies` says (`pages_placed`), and no table lies in one of them.
pub open spec fn frames_ok(b: &SpaceBuilder, frames: Seq<u64>, flags: Seq<u64>, copies: Seq<Option<(int, int, int)>>, zs: Seq<int>) -> bool {
    &&& builder_wf(b)
    &&& b.ops@.len() > 0 && b.ops@[0] == MemOp::NewTopLevel(b.root)
    &&& frames.len() == b.mapped@.len() && flags.len() == frames.len()
    &&& b.values@ == Seq::new(frames.len(), |j: int| frames[j] | flags[j])
    &&& pages_placed(b.ops@, frames, copies, zs)
    &&& forall|j: int| 0 <= j < frames.len() ==> b.pool.base_frame <= #[trigger] frames[j] < b.pool.base_frame + b.pool.frames_used * 4096
        && frames[j] % 4096 == 0
    &&& forall|j: int, k: int| 0 <= j < frames.len() && 0 <= k < frames.len() && j != k ==> #[trigger] frames[j] != #[trigger] frames[k]
    &&& forall|l: int, q: int| #[trigger] has_table(b.nodes@, l, q) ==> !frames.contains(frame(b.nodes@, l, q))
}

/// One more page mapped by `map_new_page` keeps `frames_ok`.
proof fn lemma_page_step(
    b0: SpaceBuilder,
    b1: SpaceBuilder,
    frames: Seq<u64>,
    flags: Seq<u64>,
    copies: Seq<Option<(int, int, int)>>,
    zs: Seq<int>,
    va: int,
    fl: u64,
    copy: Option<(u64, u64, u64)>,
    cw: Option<(int, int, int)>,
    data: u64,
)
    requires
        frames_ok(&b0, frames, flags, copies, zs),
        copy is Some <==> cw is Some,
        cw matches Some(w) ==> copy == Some((w.1 as u64, w.0 as u64, w.2 as u64)),
        ({
            let n = b0.ops@.len() as int;
            let after = n + (if copy is Some { 2int } else { 1int });
            let avoid = frames.to_set();
            &&& builder_wf(&b1)
            &&& b1.pool.base_frame == b0.pool.base_frame && b1.root == b0.root
            &&& data == b0.pool.base_frame + b0.pool.frames_used * 4096
            &&& b1.mapped@ == b0.mapped@.push(va)
            &&& b1.values@ == b0.values@.push(data | fl)
            &&& b1.ops@.len() >= after
            &&& b1.ops@.subrange(0, n) == b0.ops@
            &&& b1.ops@[n] == MemOp::Zero(data)
            &&& copy matches Some((st, off, ln)) ==> b1.ops@[n + 1] == (MemOp::Copy { frame: data, start: st, file_offset: off, len: ln })
            &&& !avoid.contains(data)
            &&& forall|k: int| after <= k < b1.ops@.len() ==> !avoid.insert(data).contains(#[trigger] target(b1.ops@[k]))
            &&& forall|l: int, q: int| #[trigger] has_table(b1.nodes@, l, q) ==> !avoid.insert(data).contains(frame(b1.nodes@, l, q))
        }),
    ensures
        frames_ok(&b1, frames.push(data), flags.push(fl), copies.push(cw), zs.push(b0.ops@.len() as int)),
{
    let n = b0.ops@.len() as int;
    let after = n + (if copy is Some { 2int } else { 1int });
    let avoid = frames.to_set();
    let f2 = frames.push(data);
    let c2 = copies.push(cw);
    let z2 = zs.push(n);
    let o1 = b1.ops@;
    assert forall|k: int| 0 <= k < n implies o1[k] == b0.ops@[k] by {
        assert(o1.subrange(0, n)[k] == o1[k]);
    }
    assert(o1[0] == b0.ops@[0]);
    assert(target(o1[n]) == data);
    assert forall|j: int| 0 <= j < f2.len() implies {
        &&& 0 < #[trigger] z2[j] < o1.len()
        &&& o1[z2[j]] == MemOp::Zero(f2[j])
        &&& c2[j] matches Some(w) ==> z2[j] + 1 < o1.len() && o1[z2[j] + 1] == (MemOp::Copy {
            frame: f2[j],
            start: w.1 as u64,
            file_offset: w.0 as u64,
            len: w.2 as u64,
        })
        &&& forall|k: int| 0 <= k < o1.len() && k != z2[j] && !(c2[j] is Some && k == z2[j] + 1) ==> #[trigger] target(o1[k]) != f2[j]
    } by {
        if j < frames.len() {
            assert(z2[j] == zs[j] && f2[j] == frames[j] && c2[j] == copies[j]);
            assert(0 < zs[j] < n);
            assert(avoid.contains(frames[j]));
            assert forall|k: int| 0 <= k < o1.len() && k != z2[j] && !(c2[j] is Some && k == z2[j] + 1) implies #[trigger] target(o1[k]) != f2[j] by {
                if k < n {
                    assert(o1[k] == b0.ops@[k]);
                } else if k >= after {
                    assert(!avoid.insert(data).contains(target(o1[k])));
                } else {
                    assert(target(o1[k]) == data);
                }
            }
            if c2[j] is Some {
                assert(o1[zs[j] + 1] == b0.ops@[zs[j] + 1]);
            }
        } else {
            assert(j == frames.len());
            assert(z2[j] == n && f2[j] == data && c2[j] == cw);
            assert forall|k: int| 0 <= k < o1.len() && k != z2[j] && !(c2[j] is Some && k == z2[j] + 1) implies #[trigger] target(o1[k]) != f2[j] by {
                if k < n {
                    assert(o1[k] == b0.ops@[k]);
                    assert(target(b0.ops@[k]) < b0.pool.base_frame + b0.pool.frames_used * 4096);
                } else {
                    assert(!avoid.insert(data).contains(target(o1[k])));
                }
            }
        }
    }
    assert(b1.values@ =~= Seq::new(f2.len(), |j: int| f2[j] | flags.push(fl)[j]));
    assert forall|j: int| 0 <= j < f2.len() implies b1.pool.base_frame <= #[trigger] f2[j] < b1.pool.base_frame + b1.pool.frames_used * 4096
        && f2[j] % 4096 == 0 by {
        if j < frames.len() {
            assert(f2[j] == frames[j]);
        } else {
            assert((b0.pool.frames_used * 4096) % 4096 == 0) by (nonlinear_arith);
        }
    }
    assert forall|j: int, k: int| 0 <= j < f2.len() && 0 <= k < f2.len() && j != k implies #[trigger] f2[j] != #[trigger] f2[k] by {
        if j < frames.len() && k < frames.len() {
        } else if j < frames.len() {
            assert(avoid.contains(frames[j]));
        } else {
            assert(avoid.contains(frames[k]));
        }
    }
    assert forall|l: int, q: int| #[trigger] has_table(b1.nodes@, l, q) implies !f2.contains(frame(b1.nodes@, l, q)) by {
        if f2.contains(frame(b1.nodes@, l, q)) {
            let j = choose|j: int| 0 <= j < f2.len() && f2[j] == frame(b1.nodes@, l, q);
            if j < frames.len() {
                assert(avoid.contains(f2[j]));
            }
        }
    }
}


/// Maps the pages of the checked loadable segment `p` of a file of
/// `file_len` bytes, in order, each in a new frame holding its part of the
/// file (`segment_copy_list`), with the segment's flags; the frames are
/// appended to `frames`. Returns `false` when the pool runs out, and the
/// positions of the writes that zero the new frames.
fn map_segment(
    b: &mut SpaceBuilder,
    frames: &mut Vec<u64>,
    p: &Elf64Phdr,
    file_len: usize,
    Ghost(flags): Ghost<Seq<u64>>,
    Ghost(copies): Ghost<Seq<Option<(int, int, int)>>>,
    Ghost(zs): Ghost<Seq<int>>,
) -> (r: (bool, Ghost<Seq<int>>))
    requires
        frames_ok(old(b), old(frames)@, flags, copies, zs),
        segment_error(*p, file_len as int) is None,
    ensures
        final(b).root == old(b).root && final(b).first_used == old(b).first_used,
        final(b).pool.base_frame == old(b).pool.base_frame && final(b).pool.max_frames == old(b).pool.max_frames,
        final(b).pool.initialized == old(b).pool.initialized,
        r.0 ==> frames_ok(final(b), final(frames)@, flags + segment_flag_list(*p), copies + segment_copy_list(*p, file_len as int), r.1@)
            && final(b).mapped@ == old(b).mapped@ + segment_page_list(*p),
        !r.0 ==> final(b).pool.frames_used == final(b).pool.max_frames
            && frames_needed(old(b).mapped@ + segment_page_list(*p)) > old(b).pool.max_frames - old(b).first_used@,
{
    let ghost b0 = *b;
    let ghost pages = segment_page_list(*p);
    let ghost fls = segment_flag_list(*p);
    let ghost cps = segment_copy_list(*p, file_len as int);
    let (start, npages) = segment_pages(p);
    let fl = elf_flags_to_page_flags(p.p_flags);
    proof {
        let top = p.p_vaddr + p.p_memsz + 4095;
        let end = top - top % 4096;
        assert((npages * 4096) / 4096 == npages) by (nonlinear_arith);
        assert(pages.len() == npages);
    }
    let ghost mut z = zs;
    let mut k: u64 = 0;
    while k < npages
        invariant
            k <= npages,
            b0 == *old(b),
            pages.len() == npages,
            pages == segment_page_list(*p),
            fls == segment_flag_list(*p),
            cps == segment_copy_list(*p, file_len as int),
            start == p.p_vaddr - p.p_vaddr % 4096,
            start + npages * 4096 <= USER_ADDR_LIMIT + 4095,
            fl == page_flags_for(p.p_flags),
            segment_error(*p, file_len as int) is None,
            frames_ok(b, frames@, flags + fls.take(k as int), copies + cps.take(k as int), z),
            b.mapped@ == b0.mapped@ + pages.take(k as int),
            b.root == b0.root && b.first_used == b0.first_used,
            b.pool.base_frame == b0.pool.base_frame && b.pool.max_frames == b0.pool.max_frames,
            b.pool.initialized == b0.pool.initialized,
        decreases npages - k,
    {
        assert(k * 4096 < npages * 4096) by (nonlinear_arith)
            requires
                k < npages,
        ;
        let va = start + k * 4096;
        assert(pages[k as int] == va);
        let copy: Option<(u64, u64, u64)> = match page_copy(p.p_vaddr, p.p_filesz, p.p_offset, va, file_len) {
            Some((fo, st, ln)) => Some((st as u64, fo as u64, ln as u64)),
            None => None,
        };
        let ghost bk = *b;
        let ghost fk = frames@;
        let ghost cw = cps[k as int];
        proof {
            assert(va < 0x8000_0000_0000) by {
                assert(va + 4096 <= start + npages * 4096) by (nonlinear_arith)
                    requires
                        va == start + k * 4096,
                        k < npages,
                ;
            }
            assert forall|x: u64| #[trigger] fk.to_set().contains(x) implies x < bk.pool.base_frame + bk.pool.frames_used * 4096 by {
                let j = choose|j: int| 0 <= j < fk.len() && fk[j] == x;
                assert(fk[j] == x);
            }
        }
        let placed = map_new_page(b, va, fl, copy, Ghost(frames@.to_set()));
        match placed {
            Some(data) => {
                frames.push(data);
                proof {
                    lemma_page_step(
                        bk,
                        *b,
                        fk,
                        flags + fls.take(k as int),
                        copies + cps.take(k as int),
                        z,
                        va as int,
                        fl,
                        copy,
                        cw,
                        data,
                    );
                    assert((flags + fls.take(k as int)).push(fl) =~= flags + fls.take(k + 1));
                    assert((copies + cps.take(k as int)).push(cw) =~= copies + cps.take(k + 1));
                    assert(frames@ =~= fk.push(data));
                    assert(b.mapped@ =~= b0.mapped@ + pages.take(k + 1));
                    z = z.push(bk.ops@.len() as int);
                }
            },
            None => {
                proof {
                    let s1 = b0.mapped@ + pages.take(k + 1);
                    assert(bk.mapped@.push(va as int) =~= s1);
                    lemma_needed_grows(s1, pages.skip(k + 1));
                    assert(s1 + pages.skip(k + 1) =~= b0.mapped@ + pages);
                }
                return (false, Ghost(z));
            },
        }
        k += 1;
    }
    proof {
        assert(fls.take(npages as int) =~= fls);
        assert(cps.take(npages as int) =~= cps);
        assert(pages.take(npages as int) =~= pages);
    }
    (true, Ghost(z))
}


/// The page-table flags of the stack pages.
pub open spec fn stack_flag_list() -> Seq<u64> {
    Seq::new(USER_STACK_PAGES as nat, |k: int| STACK_PAGE_FLAGS)
}

/// Nothing of the file goes into the stack pages.
pub open spec fn stack_copy_list() -> Seq<Option<(int, int, int)>> {
    Seq::new(USER_STACK_PAGES as nat, |k: int| None)
}

/// Maps the user stack pages, each in a new zeroed frame, appended to
/// `frames`. Returns `false` when the pool runs out, and the positions of
/// the writes that zero the new frames.
fn map_stack(
    b: &mut SpaceBuilder,
    frames: &mut Vec<u64>,
    Ghost(flags): Ghost<Seq<u64>>,
    Ghost(copies): Ghost<Seq<Option<(int, int, int)>>>,
    Ghost(zs): Ghost<Seq<int>>,
) -> (r: (bool, Ghost<Seq<int>>))
    requires
        frames_ok(old(b), old(frames)@, flags, copies, zs),
    ensures
        final(b).root == old(b).root && final(b).first_used == old(b).first_used,
        final(b).pool.base_frame == old(b).pool.base_frame && final(b).pool.max_frames == old(b).pool.max_frames,
        final(b).pool.initialized == old(b).pool.initialized,
        r.0 ==> frames_ok(final(b), final(frames)@, flags + stack_flag_list(), copies + stack_copy_list(), r.1@)
            && final(b).mapped@ == old(b).mapped@ + stack_pages(),
        !r.0 ==> final(b).pool.frames_used == final(b).pool.max_frames
            && frames_needed(old(b).mapped@ + stack_pages()) > old(b).pool.max_frames - old(b).first_used@,
{
    let ghost b0 = *b;
    let ghost pages = stack_pages();
    let ghost fls = stack_flag_list();
    let ghost cps = stack_copy_list();
    let bottom: u64 = USER_STACK_TOP - USER_STACK_PAGES * 4096;
    let ghost mut z = zs;
    let mut k: u64 = 0;
    while k < USER_STACK_PAGES
        invariant
            k <= USER_STACK_PAGES,
            b0 == *old(b),
            pages == stack_pages(),
            fls == stack_flag_list(),
            cps == stack_copy_list(),
            bottom == USER_STACK_TOP - USER_STACK_PAGES * 4096,
            frames_ok(b, frames@, flags + fls.take(k as int), copies + cps.take(k as int), z),
            b.mapped@ == b0.mapped@ + pages.take(k as int),
            b.root == b0.root && b.first_used == b0.first_used,
            b.pool.base_frame == b0.pool.base_frame && b.pool.max_frames == b0.pool.max_frames,
            b.pool.initialized == b0.pool.initialized,
        decreases USER_STACK_PAGES - k,
    {
        let va = bottom + k * 4096;
        assert(pages[k as int] == va);
        let ghost bk = *b;
        let ghost fk = frames@;
        proof {
            assert forall|x: u64| #[trigger] fk.to_set().contains(x) implies x < bk.pool.base_frame + bk.pool.frames_used * 4096 by {
                let j = choose|j: int| 0 <= j < fk.len() && fk[j] == x;
                assert(fk[j] == x);
            }
        }
        let placed = map_new_page(b, va, STACK_PAGE_FLAGS, None, Ghost(frames@.to_set()));
        match placed {
            Some(data) => {
                frames.push(data);
                proof {
                    lemma_page_step(
                        bk,
                        *b,
                        fk,
                        flags + fls.take(k as int),
                        copies + cps.take(k as int),
                        z,
                        va as int,
                        STACK_PAGE_FLAGS,
                        None,
                        None,
                        data,
                    );
                    assert((flags + fls.take(k as int)).push(STACK_PAGE_FLAGS) =~= flags + fls.take(k + 1));
                    assert((copies + cps.take(k as int)).push(None) =~= copies + cps.take(k + 1));
                    assert(frames@ =~= fk.push(data));
                    assert(b.mapped@ =~= b0.mapped@ + pages.take(k + 1));
                    z = z.push(bk.ops@.len() as int);
                }
            },
            None => {
                proof {
                    let s1 = b0.mapped@ + pages.take(k + 1);
                    assert(bk.mapped@.push(va as int) =~= s1);
                    lemma_needed_grows(s1, pages.skip(k + 1));
                    assert(s1 + pages.skip(k + 1) =~= b0.mapped@ + pages);
                }
                return (false, Ghost(z));
            },
        }
        k += 1;
    }
    proof {
        assert(fls.take(16) =~= fls);
        assert(cps.take(16) =~= cps);
        assert(pages.take(16) =~= pages);
    }
    (true, Ghost(z))
}


/// Before the first bad segment from `i` on, every loadable segment
/// checks out.
proof fn lemma_first_bad(ph: Seq<Elf64Phdr>, i: int, file_len: int)
    requires
        0 <= i <= ph.len(),
        forall|k: int| 0 <= k < i ==> !(#[trigger] ph[k].p_type == PT_LOAD && segment_error(ph[k], file_len) is Some),
    ensures
        first_bad(ph, 0, file_len) == first_bad(ph, i, file_len),
    decreases i,
{
    if i > 0 {
        lemma_first_bad(ph, i - 1, file_len);
        assert(!(ph[i - 1].p_type == PT_LOAD && segment_error(ph[i - 1], file_len) is Some));
    }
}

/// The first bad segment from `i` on is at `i` or later.
proof fn lemma_first_bad_ge(ph: Seq<Elf64Phdr>, i: int, file_len: int)
    requires
        0 <= i <= ph.len(),
    ensures
        i <= first_bad(ph, i, file_len) <= ph.len(),
    decreases ph.len() - i,
{
    if i < ph.len() {
        lemma_first_bad_ge(ph, i + 1, file_len);
    }
}

/// Mapping the pages of more segments never needs fewer frames.
proof fn lemma_pages_grow(ph: Seq<Elf64Phdr>, a: int, b: int)
    requires
        0 <= a <= b,
    ensures
        frames_needed(load_pages(ph, a)) <= frames_needed(load_pages(ph, b)),
    decreases b,
{
    if b > a {
        lemma_pages_grow(ph, a, b - 1);
        if ph[b - 1].p_type == PT_LOAD {
            lemma_needed_grows(load_pages(ph, b - 1), segment_page_list(ph[b - 1]));
        }
    }
}

/// Without loadable segments there are no pages to map.
proof fn lemma_no_pages(ph: Seq<Elf64Phdr>, i: int)
    ensures
        load_count(ph, i) >= 0,
        load_count(ph, i) == 0 ==> load_pages(ph, i).len() == 0,
    decreases i,
{
    if i > 0 {
        lemma_no_pages(ph, i - 1);
    }
}

/// Any mapping needs at least the top-level table.
proof fn lemma_needed_one(s: Seq<int>)
    ensures
        frames_needed(s) >= 1,
{
    lemma_needed_grows(Seq::empty(), s);
    assert(Seq::<int>::empty() + s =~= s);
    assert(tableset(Seq::empty()) == set![node(0, 0)]);
    assert(set![node(0, 0)] =~= Set::<u64>::empty().insert(node(0, 0)));
}

/// Each page mapped by the builder, at its last mapping, translates to
/// its frame with its flags.
proof fn lemma_walk_all(b: &SpaceBuilder, frames: Seq<u64>, flags: Seq<u64>, copies: Seq<Option<(int, int, int)>>, zs: Seq<int>)
    requires
        frames_ok(b, frames, flags, copies, zs),
    ensures
        forall|j: int|
            0 <= j < b.mapped@.len() && (forall|k: int| j < k < b.mapped@.len() ==> b.mapped@[k] / 0x1000 != b.mapped@[j] / 0x1000)
                ==> walk(entries_of(b.ops@), b.root, #[trigger] b.mapped@[j]) == Some(frames[j] | flags[j]),
        forall|va: int|
            0 <= va < 0x8000_0000_0000 && (#[trigger] walk(entries_of(b.ops@), b.root, va) matches Some(e) && e != 0) ==> exists|
                j: int,
            | 0 <= j < b.mapped@.len() && #[trigger] b.mapped@[j] / 0x1000 == va / 0x1000,
{
    assert forall|va: int|
        0 <= va < 0x8000_0000_0000 && (#[trigger] walk(entries_of(b.ops@), b.root, va) matches Some(e) && e != 0) implies exists|
            j: int,
        | 0 <= j < b.mapped@.len() && #[trigger] b.mapped@[j] / 0x1000 == va / 0x1000 by {
        lemma_walk_only(b.nodes@, b.root, b.leaves@, entries_of(b.ops@), va);
        lemma_leaf_keys(b.mapped@, b.values@, va / 0x1000);
    }
    assert forall|j: int|
        0 <= j < b.mapped@.len() && (forall|k: int| j < k < b.mapped@.len() ==> b.mapped@[k] / 0x1000 != b.mapped@[j] / 0x1000)
            implies walk(entries_of(b.ops@), b.root, #[trigger] b.mapped@[j]) == Some(frames[j] | flags[j]) by {
        lemma_leaf_map(b.mapped@, b.values@, j);
        lemma_walk(b.nodes@, b.root, b.leaves@, entries_of(b.ops@), b.mapped@[j]);
        assert(b.values@[j] == frames[j] | flags[j]);
    }
}


/// An executable loaded into a new address space: where it starts, the
/// memory writes that build the space (to be carried out in order), and
/// the frames of its pages, one per mapped page in mapping order.
#[derive(Debug)]
pub struct ElfImage {
    pub load: ElfLoadResult,
    pub ops: Vec<MemOp>,
    pub frames: Vec<u64>,
}

/// The pages mapped for program headers `ph`: those of the loadable
/// segments, then the stack.
pub open spec fn all_pages(ph: Seq<Elf64Phdr>) -> Seq<int> {
    load_pages(ph, ph.len() as int) + stack_pages()
}

/// Their page-table flags.
pub open spec fn all_flags(ph: Seq<Elf64Phdr>) -> Seq<u64> {
    load_flags(ph, ph.len() as int) + stack_flag_list()
}

/// What of a file of `file_len` bytes goes into each of them.
pub open spec fn all_copies(ph: Seq<Elf64Phdr>, file_len: int) -> Seq<Option<(int, int, int)>> {
    load_copies(ph, ph.len() as int, file_len) + stack_copy_list()
}

/// `img` loads the program headers `ph` of a file of `file_len` bytes
/// with entry point `entry`, from pool `p0`: its top-level table is the
/// pool's next frame; every page has a distinct aligned frame of the pool,
/// zeroed and filled with its part of the file, that nothing else writes;
/// each page, at its last mapping, translates to its frame with its flags;
/// and no other user address translates to a set entry.
pub open spec fn image_of(img: ElfImage, p0: ElfFramePool, entry: u64, ph: Seq<Elf64Phdr>, file_len: int) -> bool {
    let pages = all_pages(ph);
    let flags = all_flags(ph);
    let root = (p0.base_frame + p0.frames_used * 4096) as u64;
    let frames = img.frames@;
    &&& img.load == (ElfLoadResult {
        entry_point: entry,
        stack_pointer: USER_STACK_TOP,
        pml4_phys: root,
        segments_loaded: load_count(ph, ph.len() as int) as usize,
        frames_used: frames_needed(pages) as usize,
    })
    &&& img.ops@.len() > 0 && img.ops@[0] == MemOp::NewTopLevel(root)
    &&& frames.len() == pages.len()
    &&& exists|zs: Seq<int>| #[trigger] pages_placed(img.ops@, frames, all_copies(ph, file_len), zs)
    &&& forall|j: int| 0 <= j < frames.len() ==> p0.base_frame <= #[trigger] frames[j] < p0.base_frame + (p0.frames_used
        + frames_needed(pages)) * 4096 && frames[j] % 4096 == 0
    &&& forall|j: int, k: int| 0 <= j < frames.len() && 0 <= k < frames.len() && j != k ==> #[trigger] frames[j] != #[trigger] frames[k]
    &&& forall|j: int|
        0 <= j < pages.len() && (forall|k: int| j < k < pages.len() ==> pages[k] / 0x1000 != pages[j] / 0x1000) ==> walk(
            entries_of(img.ops@),
            root,
            #[trigger] pages[j],
        ) == Some(frames[j] | flags[j])
    &&& forall|va: int|
        0 <= va < 0x8000_0000_0000 && (#[trigger] walk(entries_of(img.ops@), root, va) matches Some(e) && e != 0) ==> exists|
            j: int,
        | 0 <= j < pages.len() && #[trigger] pages[j] / 0x1000 == va / 0x1000
}

/// What loading program headers `ph` of a file of `file_len` bytes with
/// entry point `entry` does to pool `p0`, leaving `p1`, and gives (`r`):
/// segments are taken in order, a loadable segment that the file cannot
/// give failing with its `segment_error` and the pool running out with
/// `OutOfMemory`, whichever comes first; no loadable segment at all fails
/// with `NoLoadSegments`; then the stack is mapped. Frames taken stay
/// taken, also on failure.
pub open spec fn loaded(
    p0: ElfFramePool,
    p1: ElfFramePool,
    entry: u64,
    ph: Seq<Elf64Phdr>,
    file_len: int,
    r: Result<ElfImage, ElfError>,
) -> bool {
    let fb = first_bad(ph, 0, file_len);
    let before = load_pages(ph, fb);
    let avail = p0.max_frames - p0.frames_used;
    let pages = all_pages(ph);
    let loads = load_count(ph, ph.len() as int);
    &&& p1.base_frame == p0.base_frame && p1.max_frames == p0.max_frames
    &&& p1.initialized == p0.initialized && pool_wf(p1)
    &&& !p0.initialized ==> r == Err::<ElfImage, ElfError>(ElfError::OutOfMemory) && p1 == p0
    &&& p0.initialized && frames_needed(before) > avail ==> r == Err::<ElfImage, ElfError>(ElfError::OutOfMemory)
        && p1.frames_used == p0.max_frames
    &&& p0.initialized && frames_needed(before) <= avail && fb < ph.len() ==> r == Err::<ElfImage, ElfError>(
        segment_error(ph[fb], file_len)->0,
    ) && p1.frames_used == p0.frames_used + frames_needed(before)
    &&& p0.initialized && frames_needed(before) <= avail && fb == ph.len() && loads == 0 ==> r == Err::<ElfImage, ElfError>(
        ElfError::NoLoadSegments,
    ) && p1.frames_used == p0.frames_used + 1
    &&& p0.initialized && frames_needed(before) <= avail && fb == ph.len() && loads > 0 && frames_needed(pages) > avail
        ==> r == Err::<ElfImage, ElfError>(ElfError::OutOfMemory) && p1.frames_used == p0.max_frames
    &&& p0.initialized && fb == ph.len() && loads > 0 && frames_needed(pages) <= avail ==> (r matches Ok(img) && image_of(
        img,
        p0,
        entry,
        ph,
        file_len,
    ) && p1.frames_used == p0.frames_used + frames_needed(pages))
}

/// Loads program headers `ph` of a file of `file_len` bytes, with entry
/// point `entry`, into a new address space built from frames of `pool`
/// (`loaded`).
pub fn load_image(pool: &mut ElfFramePool, entry: u64, ph: &Vec<Elf64Phdr>, file_len: usize) -> (r: Result<ElfImage, ElfError>)
    requires
        pool_wf(*old(pool)),
        old(pool).initialized ==> pool_fits(*old(pool)),
    ensures
        loaded(*old(pool), *final(pool), entry, ph@, file_len as int, r),
{
    let ghost p0 = *pool;
    let ghost fl = file_len as int;
    proof {
        lemma_first_bad_ge(ph@, 0, fl);
    }
    if !pool.initialized {
        return Err(ElfError::OutOfMemory);
    }
    let used0 = pool.frames_used;
    let mut b = match start_space(*pool) {
        Some(b) => b,
        None => {
            proof {
                lemma_needed_one(load_pages(ph@, first_bad(ph@, 0, fl)));
            }
            return Err(ElfError::OutOfMemory);
        },
    };
    let mut frames: Vec<u64> = Vec::new();
    let ghost mut zs: Seq<int> = Seq::empty();
    proof {
        assert(load_flags(ph@, 0) =~= Seq::<u64>::empty());
        assert(b.values@ =~= Seq::new(0, |j: int| frames@[j] | load_flags(ph@, 0)[j]));
        assert(b.mapped@ =~= load_pages(ph@, 0));
    }
    let mut count: usize = 0;
    let mut i: usize = 0;
    while i < ph.len()
        invariant
            i <= ph@.len(),
            p0 == *old(pool),
            used0 == p0.frames_used,
            fl == file_len as int,
            p0.initialized && pool_fits(p0),
            count == load_count(ph@, i as int),
            count <= i,
            frames_ok(&b, frames@, load_flags(ph@, i as int), load_copies(ph@, i as int, fl), zs),
            b.mapped@ == load_pages(ph@, i as int),
            b.root == p0.base_frame + p0.frames_used * 4096,
            b.first_used@ == p0.frames_used,
            b.pool.base_frame == p0.base_frame && b.pool.max_frames == p0.max_frames && b.pool.initialized,
            forall|k: int| 0 <= k < i ==> !(#[trigger] ph@[k].p_type == PT_LOAD && segment_error(ph@[k], fl) is Some),
        decreases ph@.len() - i,
    {
        let p = &ph[i];
        if p.p_type == PT_LOAD {
            match check_segment(p, file_len) {
                Ok(()) => {},
                Err(e) => {
                    *pool = b.pool;
                    proof {
                        lemma_first_bad(ph@, i as int, fl);
                    }
                    return Err(e);
                },
            }
            let ghost fk = frames@;
            let (ok, Ghost(z2)) = map_segment(
                &mut b,
                &mut frames,
                p,
                file_len,
                Ghost(load_flags(ph@, i as int)),
                Ghost(load_copies(ph@, i as int, fl)),
                Ghost(zs),
            );
            if !ok {
                *pool = b.pool;
                proof {
                    assert forall|k: int| 0 <= k < i + 1 implies !(#[trigger] ph@[k].p_type == PT_LOAD && segment_error(ph@[k], fl) is Some) by {
                    }
                    lemma_first_bad(ph@, i + 1, fl);
                    lemma_first_bad_ge(ph@, i + 1, fl);
                    lemma_pages_grow(ph@, i + 1, first_bad(ph@, 0, fl));
                    lemma_needed_grows(load_pages(ph@, ph@.len() as int), stack_pages());
                }
                return Err(ElfError::OutOfMemory);
            }
            proof {
                zs = z2;
            }
            count += 1;
        }
        i += 1;
    }
    proof {
        lemma_first_bad(ph@, ph@.len() as int, fl);
        lemma_no_pages(ph@, ph@.len() as int);
    }
    if count == 0 {
        *pool = b.pool;
        proof {
            assert(b.mapped@ =~= Seq::<int>::empty());
            lemma_needed_one(b.mapped@);
            assert(tableset(Seq::<int>::empty()) =~= Set::<u64>::empty().insert(node(0, 0)));
        }
        return Err(ElfError::NoLoadSegments);
    }
    let (ok, Ghost(z2)) = map_stack(
        &mut b,
        &mut frames,
        Ghost(load_flags(ph@, ph@.len() as int)),
        Ghost(load_copies(ph@, ph@.len() as int, fl)),
        Ghost(zs),
    );
    *pool = b.pool;
    if !ok {
        return Err(ElfError::OutOfMemory);
    }
    proof {
        lemma_walk_all(&b, frames@, all_flags(ph@), all_copies(ph@, fl), z2);
        assert(pages_placed(b.ops@, frames@, all_copies(ph@, fl), z2));
    }
    let used = b.pool.frames_used - used0;
    let load = ElfLoadResult {
        entry_point: entry,
        stack_pointer: USER_STACK_TOP,
        pml4_phys: b.root,
        segments_loaded: count,
        frames_used: used,
    };
    let img = ElfImage { load, ops: b.ops, frames };
    proof {
        let pages = all_pages(ph@);
        assert(b.mapped@ == pages);
        assert(img.frames@.len() == pages.len());
        assert(img.load.frames_used == frames_needed(pages));
        assert(img.load.pml4_phys == (p0.base_frame + p0.frames_used * 4096) as u64);
        assert(pages_placed(img.ops@, img.frames@, all_copies(ph@, fl), z2));
        assert(image_of(img, p0, entry, ph@, fl));
    }
    Ok(img)
}


/// The program header stored at offset `o` of `s`.
pub open spec fn phdr_at(s: Seq<u8>, o: int) -> Elf64Phdr {
    Elf64Phdr {
        p_type: le32(s, o),
        p_flags: le32(s, o + 4),
        p_offset: le64(s, o + 8),
        p_vaddr: le64(s, o + 16),
        p_paddr: le64(s, o + 24),
        p_filesz: le64(s, o + 32),
        p_memsz: le64(s, o + 40),
        p_align: le64(s, o + 48),
    }
}

/// The program headers the file header of `s` points to.
pub open spec fn file_phdrs(s: Seq<u8>) -> Seq<Elf64Phdr> {
    Seq::new(le16(s, 56) as nat, |i: int| phdr_at(s, le64(s, 32) + i * le16(s, 54)))
}

/// The program header table of `s` cannot be read: its entries are smaller
/// than a program header, or it runs past the end of `s`.
pub open spec fn phdr_table_bad(s: Seq<u8>) -> bool {
    le16(s, 54) < PHDR_SIZE || le64(s, 32) + le16(s, 56) * le16(s, 54) > s.len()
}

/// What loading the executable `s` from pool `p0` gives (`r`) and leaves
/// of the pool (`p1`): the file header's error (`header_error`), else
/// `InvalidPhdr` when the program header table cannot be read
/// (`phdr_table_bad`), else the segments and the stack loaded (`loaded`).
pub open spec fn binary_result(p0: ElfFramePool, p1: ElfFramePool, s: Seq<u8>, r: Result<ElfImage, ElfError>) -> bool {
    &&& header_error(s) is Some ==> r == Err::<ElfImage, ElfError>(header_error(s)->0) && p1 == p0
    &&& header_error(s) is None && phdr_table_bad(s) ==> r == Err::<ElfImage, ElfError>(ElfError::InvalidPhdr) && p1 == p0
    &&& header_error(s) is None && !phdr_table_bad(s) ==> loaded(p0, p1, le64(s, 24), file_phdrs(s), s.len() as int, r)
}

/// Whether loading succeeds is decided by the file and the pool, and so
/// is the error on failure.
pub proof fn lemma_binary_result_decided(p0: ElfFramePool, p1: ElfFramePool, p2: ElfFramePool, s: Seq<u8>, r1: Result<ElfImage, ElfError>, r2: Result<ElfImage, ElfError>)
    requires
        binary_result(p0, p1, s, r1),
        binary_result(p0, p2, s, r2),
    ensures
        r1 is Ok <==> r2 is Ok,
        r1 is Err ==> r1 == r2,
{
    if header_error(s) is None && !phdr_table_bad(s) {
        let ph = file_phdrs(s);
        let fl = s.len() as int;
        let entry = le64(s, 24);
        assert(loaded(p0, p1, entry, ph, fl, r1));
        assert(loaded(p0, p2, entry, ph, fl, r2));
        lemma_first_bad_ge(ph, 0, fl);
        lemma_needed_grows(load_pages(ph, ph.len() as int), stack_pages());
        lemma_no_pages(ph, ph.len() as int);
        let fb = first_bad(ph, 0, fl);
        let before = load_pages(ph, fb);
        let avail = p0.max_frames - p0.frames_used;
        let pages = all_pages(ph);
        let loads = load_count(ph, ph.len() as int);
        if fb == ph.len() {
            assert(before == load_pages(ph, ph.len() as int));
            assert(frames_needed(before) <= frames_needed(pages));
        }
        if !p0.initialized {
            assert(r1 == r2);
        } else if frames_needed(before) > avail {
            assert(r1 == r2);
        } else if fb < ph.len() {
            assert(r1 == r2);
        } else if loads == 0 {
            assert(r1 == r2);
        } else if frames_needed(pages) > avail {
            assert(r1 == r2);
        } else {
            assert(r1 is Ok && r2 is Ok);
        }
    } else if header_error(s) is Some {
        assert(r1 == r2);
    } else {
        assert(r1 == r2);
    }
}

/// Loads the executable `elf_data` into a new user address space built
/// from the frames of the loader's pool: checks the file header
/// (`header_error`), reads the program header table (`InvalidPhdr` when
/// `phdr_table_bad`), then loads its segments and the stack (`loaded`).
pub fn load_elf_binary(loader: &mut ElfLoader, elf_data: &[u8]) -> (r: Result<ElfImage, ElfError>)
    requires
        pool_wf(old(loader).pool),
        old(loader).pool.initialized ==> pool_fits(old(loader).pool),
    ensures
        final(loader).phys_offset == old(loader).phys_offset,
        binary_result(old(loader).pool, final(loader).pool, elf_data@, r),
{
    let hdr = match parse_header(elf_data) {
        Ok(h) => h,
        Err(e) => return Err(e),
    };
    let phdrs = match parse_program_headers(elf_data, &hdr) {
        Ok(v) => v,
        Err(e) => return Err(e),
    };
    proof {
        assert(phdrs@ =~= file_phdrs(elf_data@)) by {
            assert forall|i: int| 0 <= i < phdrs@.len() implies phdrs@[i] == file_phdrs(elf_data@)[i] by {
                assert(phdr_of(phdrs@[i], elf_data@, hdr.e_phoff + i * hdr.e_phentsize));
            }
        }
    }
    load_image(&mut loader.pool, hdr.e_entry, &phdrs, elf_data.len())
}

} // verus!
