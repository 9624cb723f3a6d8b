//! Video memory allocation: page-rounded ranges handed out in order.

use vstd::prelude::*;

verus! {

/// A bump allocator over `capacity` bytes of video memory at `base`.
#[derive(Debug, Clone, Copy)]
pub struct VramAllocator {
    base: u64,
    capacity: usize,
    offset: usize,
    alloc_count: u32,
}

/// `size` rounded up to a whole number of 4 KiB pages.
pub open spec fn page_rounded(size: int) -> int {
    (size + 0xFFF) - (size + 0xFFF) % 4096
}

impl VramAllocator {
    #[verifier::type_invariant]
    spec fn inv(self) -> bool {
        &&& self.offset <= self.capacity
        &&& self.base + self.capacity <= u64::MAX
    }

    pub closed spec fn spec_base(&self) -> u64 {
        self.base
    }

    pub closed spec fn spec_capacity(&self) -> usize {
        self.capacity
    }

    /// Bytes handed out.
    pub closed spec fn spec_used(&self) -> usize {
        self.offset
    }

    pub closed spec fn spec_count(&self) -> u32 {
        self.alloc_count
    }

    /// An empty allocator over `[base, base + capacity)`.
    pub fn new(base: u64, capacity: usize) -> (v: Self)
        requires
            base + capacity <= u64::MAX,
        ensures
            v.spec_base() == base && v.spec_capacity() == capacity && v.spec_used() == 0 && v.spec_count() == 0,
    {
        VramAllocator { base, capacity, offset: 0, alloc_count: 0 }
    }

    /// Hands out `size` bytes rounded up to whole pages, from the end of the
    /// previous range; `None` (nothing changed) when they do not fit.
    pub fn allocate(&mut self, size: usize) -> (r: Option<u64>)
        requires
            size + 0xFFF <= usize::MAX,
            old(self).spec_count() < u32::MAX,
        ensures
            ({
                let need = page_rounded(size as int);
                let o = *old(self);
                &&& o.spec_used() + need > o.spec_capacity() ==> r is None && *final(self) == o
                &&& o.spec_used() + need <= o.spec_capacity() ==> r == Some((o.spec_base() + o.spec_used()) as u64)
                    && final(self).spec_used() == o.spec_used() + need && final(self).spec_count() == o.spec_count() + 1
                    && final(self).spec_base() == o.spec_base() && final(self).spec_capacity() == o.spec_capacity()
            }),
    {
        proof {
            use_type_invariant(&*self);
        }
        let top = size + 0xFFF;
        let aligned_size = top & !0xFFFusize;
        assert(aligned_size == top - top % 4096) by (bit_vector)
            requires
                aligned_size == top & !0xFFFusize,
        ;
        if aligned_size > self.capacity - self.offset {
            return None;
        }
        let addr = self.base + self.offset as u64;
        *self = VramAllocator {
            base: self.base,
            capacity: self.capacity,
            offset: self.offset + aligned_size,
            alloc_count: self.alloc_count + 1,
        };
        Some(addr)
    }

    /// Frees everything.
    pub fn reset(&mut self)
        ensures
            final(self).spec_used() == 0 && final(self).spec_count() == 0,
            final(self).spec_base() == old(self).spec_base() && final(self).spec_capacity() == old(self).spec_capacity(),
    {
        proof {
            use_type_invariant(&*self);
        }
        *self = VramAllocator { base: self.base, capacity: self.capacity, offset: 0, alloc_count: 0 };
    }

    /// Address of the video memory.
    pub fn base(&self) -> (b: u64)
        ensures
            b == self.spec_base(),
    {
        self.base
    }

    /// Size of the video memory.
    pub fn capacity(&self) -> (c: usize)
        ensures
            c == self.spec_capacity(),
    {
        self.capacity
    }

    /// Bytes handed out.
    pub fn used(&self) -> (u: usize)
        ensures
            u == self.spec_used(),
    {
        self.offset
    }

    /// Bytes left.
    pub fn free(&self) -> (f: usize)
        ensures
            f == self.spec_capacity() - self.spec_used(),
    {
        proof {
            use_type_invariant(self);
        }
        self.capacity - self.offset
    }

    /// Allocations since creation or the last reset.
    pub fn alloc_count(&self) -> (n: u32)
        ensures
            n == self.spec_count(),
    {
        self.alloc_count
    }
}

} // verus!
