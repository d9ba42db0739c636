use std::alloc::Layout;

use lych::memory::heap::KernelHeap;

fn allocate_layout(heap: &mut KernelHeap, layout: Layout) -> Option<usize> {
    heap.allocate(layout.size(), layout.align())
}

#[test]
fn allocations_are_aligned_and_sequential() {
    let mut heap = KernelHeap::new();

    heap.init(0x1000, 0x1000);

    let first = allocate_layout(&mut heap, Layout::from_size_align(16, 8).unwrap());
    let second = allocate_layout(&mut heap, Layout::from_size_align(32, 16).unwrap());

    assert_eq!(first.unwrap(), 0x1000);
    assert_eq!(second.unwrap(), 0x1010);
    assert_eq!(heap.used(), 0x30);
    assert_eq!(heap.remaining(), 0xFD0);
}

#[test]
fn allocation_fails_when_heap_is_full() {
    let mut heap = KernelHeap::new();

    heap.init(0x1000, 32);

    assert!(allocate_layout(&mut heap, Layout::from_size_align(32, 8).unwrap()).is_some());
    assert!(allocate_layout(&mut heap, Layout::from_size_align(1, 1).unwrap()).is_none());
}

#[test]
fn heap_rounds_up_to_alignment() {
    let mut heap = KernelHeap::new();
    heap.init(0x1001, 0x100);
    assert_eq!(heap.allocate(4, 16), Some(0x1010));
    assert_eq!(heap.used(), 0x13);
    assert_eq!(heap.allocate(1, 1), Some(0x1014));
    assert_eq!(heap.used() + heap.remaining(), 0x100);
}

#[test]
fn heap_rejects_zero_size() {
    let mut heap = KernelHeap::new();
    heap.init(0x1000, 0x100);
    assert_eq!(heap.allocate(0, 8), None);
    assert_eq!(heap.used(), 0);
}

#[test]
fn heap_rejects_alignment_that_is_not_a_power_of_two() {
    let mut heap = KernelHeap::new();
    heap.init(0x1000, 0x100);
    assert_eq!(heap.allocate(8, 0), None);
    assert_eq!(heap.allocate(8, 3), None);
    assert_eq!(heap.allocate(8, 24), None);
    assert_eq!(heap.used(), 0);
    assert_eq!(heap.allocate(8, 32), Some(0x1000));
}

#[test]
fn heap_failed_request_changes_nothing() {
    let mut heap = KernelHeap::new();
    heap.init(0x1000, 0x40);
    assert_eq!(heap.allocate(0x20, 8), Some(0x1000));
    assert_eq!(heap.allocate(0x21, 8), None);
    assert_eq!(heap.used(), 0x20);
    assert_eq!(heap.remaining(), 0x20);
    assert_eq!(heap.allocate(0x20, 8), Some(0x1020));
    assert_eq!(heap.remaining(), 0);
}

#[test]
fn heap_alignment_overflow_is_refused() {
    let mut heap = KernelHeap::new();
    heap.init(usize::MAX - 0x10, 0x10);
    assert_eq!(heap.allocate(1, 0x100), None);
    assert_eq!(heap.allocate(1, 1), Some(usize::MAX - 0x10));
}

#[test]
fn fresh_heap_has_no_room() {
    let mut heap = KernelHeap::new();
    assert_eq!(heap.used(), 0);
    assert_eq!(heap.remaining(), 0);
    assert_eq!(heap.allocate(1, 1), None);
}
