//! A bump allocator: hands out consecutive aligned ranges of a heap and
//! frees them all at once.

use vstd::prelude::*;

verus! {

/// `addr` rounded up to a multiple of `align`.
pub open spec fn aligned_up(addr: int, align: int) -> int {
    (addr + align - 1) - (addr + align - 1) % align
}

/// Rounds `addr` up to a multiple of `align` (a power of two, as allocation
/// layouts guarantee).
pub fn align_up(addr: usize, align: usize) -> (r: usize)
    requires
        align > 0,
        addr + align - 1 <= usize::MAX,
    ensures
        r == aligned_up(addr as int, align as int),
        r % align == 0,
        addr <= r < addr + align,
{
    let top = addr + (align - 1);
    let r = top - top % align;
    assert(r % align == 0) by (nonlinear_arith)
        requires
            align > 0,
            r == top - top % align,
    ;
    r
}

/// Two allocations in a row give aligned blocks that do not overlap: the
/// second starts at or after the end of the first.
pub proof fn lemma_blocks_disjoint(cursor: int, size1: int, align1: int, align2: int)
    requires
        cursor >= 0,
        size1 >= 0,
        align1 > 0,
        align2 > 0,
    ensures
        ({
            let p1 = aligned_up(cursor, align1);
            let p2 = aligned_up(p1 + size1, align2);
            &&& cursor <= p1 && p1 % align1 == 0
            &&& p1 + size1 <= p2 && p2 % align2 == 0
        }),
{
    let p1 = aligned_up(cursor, align1);
    let t1 = cursor + align1 - 1;
    assert(p1 % align1 == 0 && cursor <= p1) by (nonlinear_arith)
        requires
            p1 == t1 - t1 % align1,
            t1 == cursor + align1 - 1,
            align1 > 0,
            cursor >= 0,
    ;
    let c2 = p1 + size1;
    let p2 = aligned_up(c2, align2);
    let t2 = c2 + align2 - 1;
    assert(p2 % align2 == 0 && c2 <= p2) by (nonlinear_arith)
        requires
            p2 == t2 - t2 % align2,
            t2 == c2 + align2 - 1,
            align2 > 0,
            c2 >= 0,
    ;
}

/// Layout of the heap for reporting.
#[derive(Debug, Clone, Copy)]
pub struct HeapStats {
    pub heap_start: usize,
    pub heap_size: usize,
    pub used: usize,
    pub free: usize,
}

/// The bump allocator: allocations come from `next` upward, inside
/// `[heap_start, heap_end)`.
pub struct BumpAllocator {
    heap_start: usize,
    heap_end: usize,
    next: usize,
    allocations: usize,
}

impl BumpAllocator {
    #[verifier::type_invariant]
    spec fn inv(self) -> bool {
        self.heap_start <= self.next <= self.heap_end
    }

    /// Start of the heap.
    pub closed spec fn start(&self) -> usize {
        self.heap_start
    }

    /// End of the heap.
    pub closed spec fn end(&self) -> usize {
        self.heap_end
    }

    /// Where the next allocation starts looking.
    pub closed spec fn cursor(&self) -> usize {
        self.next
    }

    /// Number of allocations since the last init or reset.
    pub closed spec fn count(&self) -> usize {
        self.allocations
    }

    /// An empty allocator (no heap).
    pub fn new() -> (a: Self)
        ensures
            a.start() == 0 && a.end() == 0 && a.cursor() == 0 && a.count() == 0,
    {
        BumpAllocator { heap_start: 0, heap_end: 0, next: 0, allocations: 0 }
    }

    /// Gives the allocator the heap `[heap_start, heap_start + heap_size)`.
    pub fn init(&mut self, heap_start: usize, heap_size: usize)
        requires
            heap_start + heap_size <= usize::MAX,
        ensures
            final(self).start() == heap_start,
            final(self).end() == heap_start + heap_size,
            final(self).cursor() == heap_start,
            final(self).count() == 0,
    {
        *self = BumpAllocator { heap_start, heap_end: heap_start + heap_size, next: heap_start, allocations: 0 };
    }

    /// Allocates `size` bytes aligned to `align` (a power of two): the range
    /// starts at the cursor rounded up; 0 (null) when it would pass the end
    /// of the heap.
    pub fn allocate(&mut self, size: usize, align: usize) -> (p: usize)
        requires
            align > 0,
            old(self).cursor() + align - 1 <= usize::MAX,
            old(self).count() < usize::MAX,
        ensures
            ({
                let start = aligned_up(old(self).cursor() as int, align as int);
                let fits = start + size <= old(self).end();
                &&& fits ==> p == start && final(self).cursor() == start + size && final(self).count() == old(self).count() + 1
                &&& !fits ==> p == 0 && final(self).cursor() == old(self).cursor() && final(self).count() == old(self).count()
                &&& final(self).start() == old(self).start() && final(self).end() == old(self).end()
            }),
    {
        proof {
            use_type_invariant(&*self);
        }
        let alloc_start = align_up(self.next, align);
        let alloc_end = match alloc_start.checked_add(size) {
            Some(end) => end,
            None => return 0,
        };
        if alloc_end > self.heap_end {
            0
        } else {
            *self = BumpAllocator {
                heap_start: self.heap_start,
                heap_end: self.heap_end,
                next: alloc_end,
                allocations: self.allocations + 1,
            };
            alloc_start
        }
    }

    /// Freeing single allocations does nothing.
    pub fn dealloc(&mut self, ptr: usize, size: usize, align: usize)
        ensures
            final(self).start() == old(self).start() && final(self).end() == old(self).end(),
            final(self).cursor() == old(self).cursor() && final(self).count() == old(self).count(),
    {
    }

    /// Start, size, bytes used and bytes free.
    pub fn stats(&self) -> (s: HeapStats)
        ensures
            s.heap_start == self.start(),
            s.heap_size == self.end() - self.start(),
            s.used == self.cursor() - self.start(),
            s.free == self.end() - self.cursor(),
    {
        proof {
            use_type_invariant(self);
        }
        HeapStats {
            heap_start: self.heap_start,
            heap_size: self.heap_end - self.heap_start,
            used: self.next - self.heap_start,
            free: self.heap_end - self.next,
        }
    }

    /// Frees everything: the cursor goes back to the heap's start.
    pub fn reset(&mut self)
        ensures
            final(self).cursor() == old(self).start(),
            final(self).count() == 0,
            final(self).start() == old(self).start() && final(self).end() == old(self).end(),
    {
        proof {
            use_type_invariant(&*self);
        }
        *self = BumpAllocator { heap_start: self.heap_start, heap_end: self.heap_end, next: self.heap_start, allocations: 0 };
    }

    /// Allocations since the last init or reset.
    pub fn allocation_count(&self) -> (n: usize)
        ensures
            n == self.count(),
    {
        self.allocations
    }
}

} // verus!
