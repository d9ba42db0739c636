use lych::memory::allocator::{
    bitmap_end, bitmap_size, Bitmap, FrameAllocator, PageAllocator, PageRange,
    PhysicalMemoryManager,
};
use lych::memory::{Frame, PhysAddr};

fn frame(addr: u64) -> Frame {
    Frame { start: PhysAddr(addr) }
}

#[test]
fn bitmap_bits_are_independent() {
    let mut bitmap = Bitmap::new(0x4000_0000, 16);
    assert!(!bitmap.is_set(0));
    assert!(!bitmap.is_set(127));
    bitmap.set(0);
    bitmap.set(63);
    bitmap.set(64);
    assert!(bitmap.is_set(0));
    assert!(bitmap.is_set(63));
    assert!(bitmap.is_set(64));
    assert!(!bitmap.is_set(1));
    assert!(!bitmap.is_set(65));
    bitmap.clear(63);
    assert!(!bitmap.is_set(63));
    assert!(bitmap.is_set(0));
    assert!(bitmap.is_set(64));
    bitmap.clear_all();
    assert!(!bitmap.is_set(0));
    assert!(!bitmap.is_set(64));
}

#[test]
fn bitmap_size_rounds_to_words() {
    assert_eq!(bitmap_size(0), 0);
    assert_eq!(bitmap_size(1), 8);
    assert_eq!(bitmap_size(64), 8);
    assert_eq!(bitmap_size(65), 16);
    assert_eq!(bitmap_size(32639), 4080);
}

#[test]
fn bitmap_end_is_page_aligned() {
    assert_eq!(bitmap_end(0x4008_1000, 32639), 0x4008_2000);
    assert_eq!(bitmap_end(0x4008_1000, 0), 0x4008_1000);
    assert_eq!(bitmap_end(0x4008_1000, 32768), 0x4008_2000);
    assert_eq!(bitmap_end(0x4008_1000, 32769), 0x4008_3000);
}

#[test]
fn frames_come_out_lowest_first() {
    let mut frames = FrameAllocator::new(0x10_0000, 0x10_4000, 0x20_0000, 8);
    let a = frames.allocate().unwrap();
    let b = frames.allocate().unwrap();
    assert_eq!(a.start, PhysAddr(0x10_0000));
    assert_eq!(b.start, PhysAddr(0x10_1000));
    frames.deallocate(a);
    assert_eq!(frames.allocate().unwrap().start, PhysAddr(0x10_0000));
    assert_eq!(frames.allocate().unwrap().start, PhysAddr(0x10_2000));
    assert_eq!(frames.allocate().unwrap().start, PhysAddr(0x10_3000));
    assert!(frames.allocate().is_none());
}

#[test]
fn deallocate_ignores_foreign_frames() {
    let mut frames = FrameAllocator::new(0x10_0000, 0x10_2000, 0x20_0000, 8);
    frames.allocate().unwrap();
    frames.allocate().unwrap();
    frames.deallocate(frame(0x10_2000));
    frames.deallocate(frame(0x0F_F000));
    frames.deallocate(frame(0x10_0800));
    assert!(frames.is_allocated(frame(0x10_0000)));
    assert!(frames.is_allocated(frame(0x10_1000)));
    assert!(frames.allocate().is_none());
    frames.deallocate(frame(0x10_1000));
    assert!(!frames.is_allocated(frame(0x10_1000)));
    assert_eq!(frames.allocate().unwrap().start, PhysAddr(0x10_1000));
}

#[test]
fn is_allocated_outside_range_is_false() {
    let mut frames = FrameAllocator::new(0x10_0000, 0x10_2000, 0x20_0000, 8);
    frames.reserve_range(0, u64::MAX);
    assert!(!frames.is_allocated(frame(0x10_2000)));
    assert!(!frames.is_allocated(frame(0x10_0001)));
    assert!(frames.is_allocated(frame(0x10_1000)));
}

#[test]
fn reserve_range_marks_only_frames_inside() {
    let mut frames = FrameAllocator::new(0x10_0000, 0x10_8000, 0x20_0000, 8);
    frames.reserve_range(0x10_2000, 0x10_4000);
    assert!(!frames.is_allocated(frame(0x10_1000)));
    assert!(frames.is_allocated(frame(0x10_2000)));
    assert!(frames.is_allocated(frame(0x10_3000)));
    assert!(!frames.is_allocated(frame(0x10_4000)));
    assert_eq!(frames.allocate().unwrap().start, PhysAddr(0x10_0000));
    assert_eq!(frames.allocate().unwrap().start, PhysAddr(0x10_1000));
    assert_eq!(frames.allocate().unwrap().start, PhysAddr(0x10_4000));
}

#[test]
fn clear_all_frees_everything() {
    let mut frames = FrameAllocator::new(0x10_0000, 0x10_2000, 0x20_0000, 8);
    frames.allocate().unwrap();
    frames.allocate().unwrap();
    frames.clear_all();
    assert_eq!(frames.allocate().unwrap().start, PhysAddr(0x10_0000));
}

#[test]
fn manager_delegates_to_allocator() {
    let mut memory = PhysicalMemoryManager::new(0x10_0000, 0x10_3000, 0x20_0000, 8);
    let a = memory.allocate_frame().unwrap();
    assert_eq!(a.start, PhysAddr(0x10_0000));
    assert!(memory.is_allocated(a));
    memory.reserve_range(0x10_1000, 0x10_2000);
    assert_eq!(memory.allocate_frame().unwrap().start, PhysAddr(0x10_2000));
    assert!(memory.allocate_frame().is_none());
    memory.deallocate_frame(a);
    assert!(!memory.is_allocated(a));
    assert_eq!(memory.allocate_frame().unwrap().start, PhysAddr(0x10_0000));
}

#[test]
fn page_range_bounds() {
    let range = PageRange::new(0x10_0000, 3);
    assert_eq!(range.end(), 0x10_3000);
    assert!(range.contains(0x10_0000));
    assert!(range.contains(0x10_2FFF));
    assert!(!range.contains(0x10_3000));
    assert!(!range.contains(0x0F_FFFF));
    let empty = PageRange::new(0x10_0000, 0);
    assert!(!empty.contains(0x10_0000));
}

#[test]
fn page_allocator_finds_first_free_run() {
    let mut memory = PhysicalMemoryManager::new(0x10_0000, 0x10_8000, 0x20_0000, 8);
    memory.reserve_range(0x10_1000, 0x10_2000);
    let mut pages = PageAllocator::new(memory);
    let run = pages.allocate(3).unwrap();
    assert_eq!(run.start, 0x10_2000);
    assert_eq!(run.count, 3);
    let single = pages.allocate(1).unwrap();
    assert_eq!(single.start, 0x10_0000);
    let rest = pages.allocate(3).unwrap();
    assert_eq!(rest.start, 0x10_5000);
    assert!(pages.allocate(1).is_none());
}

#[test]
fn page_allocator_refuses_impossible_requests() {
    let memory = PhysicalMemoryManager::new(0x10_0000, 0x10_4000, 0x20_0000, 8);
    let mut pages = PageAllocator::new(memory);
    assert!(pages.allocate(0).is_none());
    assert!(pages.allocate(5).is_none());
    assert_eq!(pages.allocate(4).unwrap().start, 0x10_0000);
}

#[test]
fn page_allocator_round_trip() {
    let memory = PhysicalMemoryManager::new(0x10_0000, 0x10_4000, 0x20_0000, 8);
    let mut pages = PageAllocator::new(memory);
    let first = pages.allocate(1).unwrap();
    let run = pages.allocate(2).unwrap();
    assert_eq!(run.start, 0x10_1000);
    pages.deallocate(run);
    let again = pages.allocate(3).unwrap();
    assert_eq!(again.start, 0x10_1000);
    pages.deallocate(first);
    assert_eq!(pages.allocate(1).unwrap().start, 0x10_0000);
}

#[test]
fn page_deallocate_ignores_unaligned_start() {
    let memory = PhysicalMemoryManager::new(0x10_0000, 0x10_2000, 0x20_0000, 8);
    let mut pages = PageAllocator::new(memory);
    pages.allocate(2).unwrap();
    pages.deallocate(PageRange::new(0x10_0800, 2));
    assert!(pages.allocate(1).is_none());
}

#[test]
fn fresh_manager_hands_out_every_frame_once_in_order() {
    let mut memory = PhysicalMemoryManager::new(0x10_0000, 0x10_5000, 0x20_0000, 8);
    for k in 0..5u64 {
        assert_eq!(memory.allocate_frame().unwrap().start, PhysAddr(0x10_0000 + k * 0x1000));
    }
    assert!(memory.allocate_frame().is_none());
    assert!(memory.allocate_frame().is_none());
}
