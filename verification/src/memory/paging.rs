//! Address arithmetic of the offset-mapped page tables.

use vstd::prelude::*;

verus! {

/// Size of a page and of a frame.
pub const PAGE_SIZE: u64 = 4096;

/// `addr` is canonical: bits 47 to 63 all equal.
pub open spec fn canonical(addr: int) -> bool {
    0 <= addr < 0x8000_0000_0000 || 0xFFFF_8000_0000_0000 <= addr <= u64::MAX
}

/// The virtual address at which physical address `phys` is seen, physical
/// memory being mapped from `physical_memory_offset`.
pub fn phys_to_virt(physical_memory_offset: u64, phys: u64) -> (v: u64)
    requires
        canonical(physical_memory_offset + phys),
    ensures
        v == physical_memory_offset + phys,
{
    physical_memory_offset + phys
}

/// The start addresses of the frames identity-mapped for the region
/// `[start, end)`: from the frame holding `start` to the frame holding
/// `end - 1` (0 when `end` is 0), in increasing order.
pub open spec fn region_frame_addrs(start: u64, end: u64) -> Seq<u64> {
    let first = start - start % 4096;
    let last_byte: int = if end == 0 { 0 } else { end - 1 };
    let last = last_byte - last_byte % 4096;
    if first > last {
        Seq::empty()
    } else {
        Seq::new(((last - first) / 4096 + 1) as nat, |i: int| (first + i * 4096) as u64)
    }
}

/// The frames to identity-map for the physical region `[start, end)`, both
/// within the 52-bit physical address space.
pub fn identity_region_frames(start: u64, end: u64) -> (frames: Vec<u64>)
    requires
        start < 0x0010_0000_0000_0000,
        end < 0x0010_0000_0000_0000,
    ensures
        frames@ == region_frame_addrs(start, end),
{
    let first = start - start % PAGE_SIZE;
    let last_byte = if end == 0 { 0 } else { end - 1 };
    let last = last_byte - last_byte % PAGE_SIZE;
    let mut frames: Vec<u64> = Vec::new();
    let mut current = first;
    if first > last {
        assert(frames@ =~= region_frame_addrs(start, end));
        return frames;
    }
    assert((last - first) % 4096 == 0) by (nonlinear_arith)
        requires
            first == start - start % 4096,
            last == last_byte - last_byte % 4096,
            first <= last,
    ;
    while current <= last
        invariant
            first <= current <= last + 4096,
            (current - first) % 4096 == 0,
            (last - first) % 4096 == 0,
            first == start - start % 4096,
            last == last_byte - last_byte % 4096,
            last_byte == (if end == 0 { 0 } else { end - 1 }),
            first <= last,
            last < 0x0010_0000_0000_0000,
            frames@.len() == (current - first) / 4096,
            forall|i: int| 0 <= i < frames@.len() ==> #[trigger] frames@[i] == first + i * 4096,
        decreases last + 4096 - current,
    {
        proof {
            assert((current - first) / 4096 * 4096 == current - first) by (nonlinear_arith)
                requires
                    (current - first) % 4096 == 0,
                    current >= first,
            ;
        }
        frames.push(current);
        current = current + PAGE_SIZE;
        proof {
            assert((current - first) / 4096 == (current - 4096 - first) / 4096 + 1) by (nonlinear_arith)
                requires
                    current >= first + 4096,
            ;
            assert((current - first) % 4096 == 0) by (nonlinear_arith)
                requires
                    (current - 4096 - first) % 4096 == 0,
                    current >= first + 4096,
            ;
        }
    }
    proof {
        assert(current == last + 4096) by (nonlinear_arith)
            requires
                current > last,
                current <= last + 4096,
                (current - first) % 4096 == 0,
                (last - first) % 4096 == 0,
                first <= last,
        ;
        assert((current - first) / 4096 == (last - first) / 4096 + 1) by (nonlinear_arith)
            requires
                current == last + 4096,
                first <= last,
        ;
    }
    assert(frames@ =~= region_frame_addrs(start, end));
    frames
}

} // verus!
