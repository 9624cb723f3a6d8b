use aetherion_kernel::allocator::{align_up, BumpAllocator};
use std::alloc::Layout;

#[test]
fn test_align_up() {
    assert_eq!(align_up(0, 4), 0);
    assert_eq!(align_up(1, 4), 4);
    assert_eq!(align_up(4, 4), 4);
    assert_eq!(align_up(5, 4), 8);
    assert_eq!(align_up(0x1234, 4096), 0x2000);
}

#[test]
fn test_bump_allocator() {
    let mut allocator = BumpAllocator::new();
    allocator.init(0x10000, 4096);
    let stats = allocator.stats();
    assert_eq!(stats.heap_start, 0x10000);
    assert_eq!(stats.heap_size, 4096);
    assert_eq!(stats.used, 0);
    assert_eq!(stats.free, 4096);
}

#[test]
fn test_allocation() {
    let mut allocator = BumpAllocator::new();
    allocator.init(0x10000, 4096);
    let layout1 = Layout::from_size_align(16, 8).unwrap();
    let ptr1 = allocator.allocate(layout1.size(), layout1.align());
    assert!(ptr1 != 0);
    assert_eq!(ptr1, 0x10000);
    let layout2 = Layout::from_size_align(32, 8).unwrap();
    let ptr2 = allocator.allocate(layout2.size(), layout2.align());
    assert!(ptr2 != 0);
    assert_eq!(ptr2, 0x10010);
    assert_eq!(allocator.allocation_count(), 2);
}

#[test]
fn test_out_of_memory() {
    let mut allocator = BumpAllocator::new();
    allocator.init(0x10000, 64);
    let layout = Layout::from_size_align(64, 1).unwrap();
    let ptr1 = allocator.allocate(layout.size(), layout.align());
    assert!(ptr1 != 0);
    let ptr2 = allocator.allocate(layout.size(), layout.align());
    assert!(ptr2 == 0);
}

#[test]
fn test_reset() {
    let mut allocator = BumpAllocator::new();
    allocator.init(0x10000, 4096);
    allocator.allocate(16, 8);
    allocator.allocate(16, 8);
    assert_eq!(allocator.allocation_count(), 2);
    allocator.reset();
    assert_eq!(allocator.allocation_count(), 0);
    let stats = allocator.stats();
    assert_eq!(stats.used, 0);
}

#[test]
fn allocations_are_aligned_and_disjoint() {
    let mut allocator = BumpAllocator::new();
    allocator.init(0x10001, 256);
    let a = allocator.allocate(3, 1);
    assert_eq!(a, 0x10001);
    let b = allocator.allocate(8, 16);
    assert_eq!(b, 0x10010);
    let stats = allocator.stats();
    assert_eq!(stats.used, 0x17);
    assert_eq!(stats.free, 256 - 0x17);
    allocator.dealloc(a, 3, 1);
    assert_eq!(allocator.allocation_count(), 2);
}
