//! Physical memory: the frame allocator and allocation tags.

pub mod frame;
pub mod resource_tag;
pub mod paging;

use vstd::prelude::*;

verus! {

/// Errors of memory management.
#[derive(Debug, Clone, Copy, PartialEq, Eq, Structural)]
pub enum MemoryError {
    OutOfMemory,
    FrameAlreadyAllocated(u64),
    FrameNotAllocated(u64),
    PageAlreadyMapped(u64),
    PageNotMapped(u64),
    HeapInitFailed,
}

/// Most usable regions taken from the boot memory map.
pub const MAX_BOOT_REGIONS: usize = 32;

/// The usable regions `[start, end)` of a boot memory map, in map order.
pub open spec fn usable_of(map: Seq<(u64, u64, bool)>) -> Seq<(u64, u64)>
    decreases map.len(),
{
    if map.len() == 0 {
        Seq::empty()
    } else {
        let before = usable_of(map.drop_last());
        if map.last().2 {
            before.push((map.last().0, map.last().1))
        } else {
            before
        }
    }
}

/// At most the first `n` elements of `s`.
pub open spec fn first_n<T>(s: Seq<T>, n: int) -> Seq<T> {
    if s.len() <= n {
        s
    } else {
        s.take(n)
    }
}

/// The regions the frame allocator is built from at boot: the first
/// `MAX_BOOT_REGIONS` usable regions of the memory map (entries `(start,
/// end, usable)`). Fails with `OutOfMemory` when the bootloader did not map
/// physical memory (offset 0).
pub fn usable_regions(physical_memory_offset: u64, map: &[(u64, u64, bool)]) -> (r: Result<Vec<(u64, u64)>, MemoryError>)
    ensures
        physical_memory_offset == 0 ==> r == Err::<Vec<(u64, u64)>, MemoryError>(MemoryError::OutOfMemory),
        physical_memory_offset != 0 ==> (r matches Ok(v) && v@ == first_n(usable_of(map@), MAX_BOOT_REGIONS as int)),
{
    if physical_memory_offset == 0 {
        return Err(MemoryError::OutOfMemory);
    }
    let mut out: Vec<(u64, u64)> = Vec::new();
    let mut i: usize = 0;
    while i < map.len()
        invariant
            i <= map@.len(),
            out@ == first_n(usable_of(map@.take(i as int)), MAX_BOOT_REGIONS as int),
        decreases map@.len() - i,
    {
        let (start, end, usable) = map[i];
        proof {
            assert(map@.take(i + 1).drop_last() =~= map@.take(i as int));
            assert(map@.take(i + 1).last() == map@[i as int]);
            let u = usable_of(map@.take(i as int));
            if u.len() >= MAX_BOOT_REGIONS {
                assert(u.push((start, end)).take(MAX_BOOT_REGIONS as int) =~= u.take(MAX_BOOT_REGIONS as int));
            }
        }
        if usable && out.len() < MAX_BOOT_REGIONS {
            out.push((start, end));
        }
        i += 1;
    }
    assert(map@.take(map@.len() as int) =~= map@);
    Ok(out)
}

} // verus!
