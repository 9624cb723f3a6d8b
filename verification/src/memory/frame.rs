//! The physical frame allocator: usable frames from the boot memory map,
//! handed out in order.

use vstd::prelude::*;

verus! {

pub const FRAME_SIZE: usize = 4096;
/// Most frames the allocator keeps track of.
pub const MAX_USABLE_FRAMES: usize = 8192;
/// First address past the 52-bit physical address space.
pub const PHYS_ADDR_LIMIT: u64 = 0x0010_0000_0000_0000;

fn copy_frames(v: &Vec<u64>) -> (c: Vec<u64>)
    ensures
        c@ == v@,
{
    let mut c: Vec<u64> = Vec::new();
    let mut i: usize = 0;
    while i < v.len()
        invariant
            i <= v@.len(),
            c@ == v@.subrange(0, i as int),
        decreases v@.len() - i,
    {
        c.push(v[i]);
        assert(c@ =~= v@.subrange(0, i + 1));
        i += 1;
    }
    assert(c@ =~= v@);
    c
}

/// Usable frame numbers (in the order found) and how many were handed out.
pub struct FrameAllocator {
    usable_frames: Vec<u64>,
    next_alloc: usize,
}

/// The frames of the region `[start, end)` not yet taken: whole frames inside
/// it, frame 0 excepted, in increasing order.
pub open spec fn region_frames(start: u64, end: u64) -> Seq<u64> {
    let first = if (start + 4095) / 4096 == 0 { 1int } else { (start + 4095) / 4096 };
    let last = end / 4096;
    if end <= start || first >= last {
        Seq::empty()
    } else {
        Seq::new((last - first) as nat, |i: int| (first + i) as u64)
    }
}

/// The frames kept after adding regions `regions` to `frames`, up to `MAX_USABLE_FRAMES`.
pub open spec fn with_regions(frames: Seq<u64>, regions: Seq<(u64, u64)>) -> Seq<u64>
    decreases regions.len(),
{
    if regions.len() == 0 {
        frames
    } else {
        let before = with_regions(frames, regions.drop_last());
        let added = before + region_frames(regions.last().0, regions.last().1);
        if added.len() > MAX_USABLE_FRAMES {
            added.take(MAX_USABLE_FRAMES as int)
        } else {
            added
        }
    }
}

/// Frame `f` lies wholly inside the region `[r.0, r.1)`.
pub open spec fn frame_in(f: u64, r: (u64, u64)) -> bool {
    r.0 <= f * 4096 && f * 4096 + 4096 <= r.1
}

/// No two regions share an address.
pub open spec fn regions_disjoint(regions: Seq<(u64, u64)>) -> bool {
    forall|i: int, j: int|
        0 <= i < j < regions.len() ==> (#[trigger] regions[i]).1 <= (#[trigger] regions[j]).0 || regions[j].1 <= regions[i].0
}

/// The frames of a region lie inside it, are not frame 0, and increase.
proof fn lemma_region_frames(start: u64, end: u64)
    ensures
        forall|i: int| 0 <= i < region_frames(start, end).len() ==> #[trigger] region_frames(start, end)[i] > 0
            && frame_in(region_frames(start, end)[i], (start, end)),
        forall|i: int, j: int| 0 <= i < j < region_frames(start, end).len() ==> #[trigger] region_frames(start, end)[i]
            < #[trigger] region_frames(start, end)[j],
{
    let first = if (start + 4095) / 4096 == 0 { 1int } else { (start + 4095) / 4096 };
    let last = end / 4096;
    if !(end <= start || first >= last) {
        assert forall|i: int| 0 <= i < region_frames(start, end).len() implies #[trigger] region_frames(start, end)[i] > 0
            && frame_in(region_frames(start, end)[i], (start, end)) by {
            let f = first + i;
            assert(region_frames(start, end)[i] == f);
            assert(start <= f * 4096 && f * 4096 + 4096 <= end) by (nonlinear_arith)
                requires
                    first <= f < last,
                    first >= (start + 4095) / 4096,
                    last == end / 4096,
                    start >= 0,
                    end >= 0,
            ;
        }
    }
}

/// Regions with no address in common give distinct frames, none of them
/// frame 0: the allocator never hands out frame 0 nor a frame twice.
pub proof fn lemma_frames_distinct(regions: Seq<(u64, u64)>)
    requires
        regions_disjoint(regions),
    ensures
        with_regions(Seq::empty(), regions).no_duplicates(),
        forall|i: int| 0 <= i < with_regions(Seq::empty(), regions).len() ==> #[trigger] with_regions(Seq::empty(), regions)[i]
            > 0,
        forall|i: int| 0 <= i < with_regions(Seq::empty(), regions).len() ==> exists|k: int| 0 <= k < regions.len()
            && frame_in(#[trigger] with_regions(Seq::empty(), regions)[i], regions[k]),
    decreases regions.len(),
{
    if regions.len() > 0 {
        let rest = regions.drop_last();
        assert(regions_disjoint(rest)) by {
            assert forall|i: int, j: int| 0 <= i < j < rest.len() implies (#[trigger] rest[i]).1 <= (#[trigger] rest[j]).0 || rest[j].1
                <= rest[i].0 by {
                assert(rest[i] == regions[i] && rest[j] == regions[j]);
            }
        }
        lemma_frames_distinct(rest);
        let before = with_regions(Seq::empty(), rest);
        let (s, e) = regions.last();
        let rf = region_frames(s, e);
        lemma_region_frames(s, e);
        let added = before + rf;
        assert forall|i: int| 0 <= i < added.len() implies exists|k: int| 0 <= k < regions.len() && frame_in(#[trigger] added[i], regions[k]) by {
            if i < before.len() {
                let k = choose|k: int| 0 <= k < rest.len() && frame_in(before[i], rest[k]);
                assert(regions[k] == rest[k]);
            } else {
                assert(added[i] == rf[i - before.len()]);
                assert(frame_in(added[i], regions[regions.len() - 1]));
            }
        }
        assert forall|i: int, j: int| 0 <= i < j < added.len() implies added[i] != added[j] by {
            if j < before.len() {
            } else if i >= before.len() {
                assert(rf[i - before.len()] < rf[j - before.len()]);
            } else {
                let k = choose|k: int| 0 <= k < rest.len() && frame_in(before[i], rest[k]);
                let f = before[i];
                assert(frame_in(rf[j - before.len()], (s, e)));
                assert(regions[k] == rest[k]);
                assert(regions[k].1 <= regions[regions.len() - 1].0 || regions[regions.len() - 1].1 <= regions[k].0);
            }
        }
        assert forall|i: int| 0 <= i < added.len() implies #[trigger] added[i] > 0 by {
            if i >= before.len() {
                assert(added[i] == rf[i - before.len()]);
            }
        }
        if added.len() > MAX_USABLE_FRAMES {
            let t = added.take(MAX_USABLE_FRAMES as int);
            assert forall|i: int| 0 <= i < t.len() implies exists|k: int| 0 <= k < regions.len() && frame_in(#[trigger] t[i], regions[k]) by {
                assert(t[i] == added[i]);
            }
            assert forall|i: int| 0 <= i < t.len() implies #[trigger] t[i] > 0 by {
                assert(t[i] == added[i]);
            }
        }
    }
}

impl FrameAllocator {
    #[verifier::type_invariant]
    spec fn inv(self) -> bool {
        &&& self.usable_frames@.len() <= MAX_USABLE_FRAMES
        &&& self.next_alloc <= self.usable_frames@.len()
        &&& forall|i: int| 0 <= i < self.usable_frames@.len() ==> 0 < #[trigger] self.usable_frames@[i] < PHYS_ADDR_LIMIT / 4096
    }

    /// The usable frames, in the order they are handed out.
    pub closed spec fn frames(&self) -> Seq<u64> {
        self.usable_frames@
    }

    /// How many frames were handed out.
    pub closed spec fn handed_out(&self) -> usize {
        self.next_alloc
    }

    /// An allocator over the usable regions `[start, end)` of `regions`,
    /// which lie in the 52-bit physical address space.
    pub fn new(regions: &[(u64, u64)]) -> (a: Self)
        requires
            forall|i: int| 0 <= i < regions@.len() ==> (#[trigger] regions@[i]).1 <= PHYS_ADDR_LIMIT,
        ensures
            a.frames() == with_regions(Seq::empty(), regions@),
            a.handed_out() == 0,
    {
        let mut a = FrameAllocator { usable_frames: Vec::new(), next_alloc: 0 };
        let mut i: usize = 0;
        while i < regions.len()
            invariant
                i <= regions@.len(),
                a.frames() == with_regions(Seq::empty(), regions@.subrange(0, i as int)),
                a.handed_out() == 0,
                forall|j: int| 0 <= j < regions@.len() ==> (#[trigger] regions@[j]).1 <= PHYS_ADDR_LIMIT,
            decreases regions@.len() - i,
        {
            let (start, end) = regions[i];
            proof {
                assert(regions@.subrange(0, i + 1).drop_last() =~= regions@.subrange(0, i as int));
            }
            a.add_region(start, end);
            i += 1;
        }
        assert(regions@.subrange(0, regions@.len() as int) =~= regions@);
        a
    }

    /// Appends the frames of `[start, end)` (frame 0 excepted) while fewer
    /// than `MAX_USABLE_FRAMES` are kept.
    pub fn add_region(&mut self, start: u64, end: u64)
        requires
            end <= PHYS_ADDR_LIMIT,
        ensures
            ({
                let added = old(self).frames() + region_frames(start, end);
                final(self).frames() == if added.len() > MAX_USABLE_FRAMES { added.take(MAX_USABLE_FRAMES as int) } else { added }
            }),
            final(self).handed_out() == old(self).handed_out(),
    {
        proof {
            use_type_invariant(&*self);
        }
        if end <= start {
            assert(region_frames(start, end) =~= Seq::<u64>::empty());
            assert(old(self).frames() + region_frames(start, end) =~= old(self).frames());
            return;
        }
        let start_frame = start / 4096 + if start % 4096 == 0 { 0 } else { 1 };
        assert(start_frame == (start + 4095) / 4096);
        let end_frame = end / 4096;
        let mut frames = copy_frames(&self.usable_frames);
        let ghost before = frames@;
        let ghost all = region_frames(start, end);
        let first: u64 = if start_frame == 0 { 1 } else { start_frame };
        let mut frame = first;
        while frame < end_frame && frames.len() < MAX_USABLE_FRAMES
            invariant
                first <= frame,
                first >= 1,
                end_frame == end / 4096,
                end_frame <= PHYS_ADDR_LIMIT / 4096,
                first == (if (start + 4095) / 4096 == 0 { 1int } else { (start + 4095) / 4096 }),
                all == region_frames(start, end),
                end > start,
                frame <= end_frame || frame == first,
                before.len() <= MAX_USABLE_FRAMES,
                frames@ == before + Seq::new((frame - first) as nat, |i: int| (first + i) as u64),
                frames@.len() <= MAX_USABLE_FRAMES,
            decreases end_frame - frame,
        {
            frames.push(frame);
            frame = frame + 1;
            assert(frames@ =~= before + Seq::new((frame - first) as nat, |i: int| (first + i) as u64));
        }
        proof {
            let added = before + all;
            if first >= end_frame {
                assert(all =~= Seq::<u64>::empty());
                assert(frames@ =~= added);
            } else if frames@.len() >= MAX_USABLE_FRAMES {
                assert(frames@ =~= added.take(MAX_USABLE_FRAMES as int));
            } else {
                assert(frames@ =~= added);
            }
        }
        *self = FrameAllocator { usable_frames: frames, next_alloc: self.next_alloc };
    }

    /// The start address of the next usable frame; `None` when all were
    /// handed out.
    pub fn alloc_frame_kernel(&mut self) -> (r: Option<u64>)
        ensures
            old(self).handed_out() >= old(self).frames().len() ==> r is None && final(self).handed_out() == old(self).handed_out(),
            old(self).handed_out() < old(self).frames().len() ==> r == Some((old(self).frames()[old(self).handed_out() as int] * 4096) as u64)
                && final(self).handed_out() == old(self).handed_out() + 1,
            final(self).frames() == old(self).frames(),
            r matches Some(f) ==> 0 < f < PHYS_ADDR_LIMIT && f % 4096 == 0,
            old(self).frames().no_duplicates() ==> (r matches Some(f) ==> forall|i: int|
                0 <= i < old(self).handed_out() ==> f != #[trigger] old(self).frames()[i] * 4096),
    {
        proof {
            use_type_invariant(&*self);
        }
        if self.next_alloc >= self.usable_frames.len() {
            return None;
        }
        let frame_num = self.usable_frames[self.next_alloc];
        proof {
            let fs = self.usable_frames@;
            let h = self.next_alloc as int;
            assert forall|i: int| 0 <= i < h && fs.no_duplicates() implies frame_num * 4096 != #[trigger] fs[i] * 4096 by {
                assert(fs[i] != fs[h]);
                let a = fs[i] as int;
                let b = frame_num as int;
                assert(a != b ==> a * 4096 != b * 4096) by (nonlinear_arith);
            }
        }
        self.next_alloc = self.next_alloc + 1;
        assert(0 < frame_num * 4096 < PHYS_ADDR_LIMIT && (frame_num * 4096) % 4096 == 0) by (nonlinear_arith)
            requires
                0 < frame_num < PHYS_ADDR_LIMIT / 4096,
        ;
        Some(frame_num * 4096)
    }

    /// Number of usable frames.
    pub fn total_frames(&self) -> (n: usize)
        ensures
            n == self.frames().len(),
    {
        self.usable_frames.len()
    }

    /// Number of frames handed out.
    pub fn used_frames(&self) -> (n: usize)
        ensures
            n == self.handed_out(),
    {
        self.next_alloc
    }

    /// Number of frames left.
    pub fn free_frames(&self) -> (n: usize)
        ensures
            n == self.frames().len() - self.handed_out(),
    {
        proof {
            use_type_invariant(self);
        }
        self.usable_frames.len() - self.next_alloc
    }
}

} // verus!
