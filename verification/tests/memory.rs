use lych::memory::mmu::PageTable;
use lych::memory::{
    bitmap_size, bitmap_start, frame_count, frame_from_address, init, is_page_aligned,
    phys_to_virt, raw_memory_region, test_page_table_mappings, usable_frames,
    usable_memory_region, usable_memory_start, virt_to_phys, Frame, FrameRange, MemoryRegion,
    PhysAddr, VirtAddr, HEAP_END, HEAP_START,
};
use lych::platform::RAM_END;

const STACK_TOP: u64 = 0x4008_0123;

#[test]
fn page_alignment() {
    assert!(is_page_aligned(0));
    assert!(is_page_aligned(0x4000_0000));
    assert!(!is_page_aligned(0x4000_0001));
    assert!(!is_page_aligned(0x4000_0FFF));
}

#[test]
fn addresses_wrap_raw_values() {
    assert_eq!(PhysAddr::new(0x1234).as_u64(), 0x1234);
    assert_eq!(VirtAddr::new(0x5678).as_u64(), 0x5678);
    assert_eq!(phys_to_virt(PhysAddr(0x4000_1000)), VirtAddr(0x4000_1000));
    assert_eq!(virt_to_phys(VirtAddr(0x4000_1000)), PhysAddr(0x4000_1000));
    assert_eq!(virt_to_phys(phys_to_virt(PhysAddr(0x77))), PhysAddr(0x77));
}

#[test]
fn layout_above_stack() {
    assert_eq!(usable_memory_start(STACK_TOP), 0x4008_1000);
    assert_eq!(usable_memory_start(0x4008_1000), 0x4008_1000);
    assert_eq!(bitmap_start(STACK_TOP), 0x4008_1000);
    let raw = raw_memory_region(STACK_TOP);
    assert_eq!(raw.start, 0x4008_1000);
    assert_eq!(raw.end, RAM_END);
    assert_eq!(frame_count(STACK_TOP), 32639);
    assert_eq!(bitmap_size(STACK_TOP), 4080);
    let usable = usable_memory_region(STACK_TOP);
    assert_eq!(usable.start, 0x4008_1000);
    assert_eq!(usable.end, 0x4800_0000);
}

#[test]
fn frames_only_from_usable_region() {
    assert!(frame_from_address(0x4008_0000, STACK_TOP).is_none());
    assert_eq!(frame_from_address(0x4008_1000, STACK_TOP).unwrap().start, PhysAddr(0x4008_1000));
    assert!(frame_from_address(0x4008_2001, STACK_TOP).is_none());
    assert!(frame_from_address(0x4800_0000, STACK_TOP).is_none());
    assert_eq!(frame_from_address(0x4008_2000, STACK_TOP).unwrap().start, PhysAddr(0x4008_2000));
    assert_eq!(frame_from_address(0x47FF_F000, STACK_TOP).unwrap().start, PhysAddr(0x47FF_F000));
}

#[test]
fn frame_range_walks_pages() {
    let mut range = FrameRange::new(MemoryRegion { start: 0x1000, end: 0x3000 });
    assert_eq!(range.next().unwrap().start, PhysAddr(0x1000));
    assert_eq!(range.next().unwrap().start, PhysAddr(0x2000));
    assert!(range.next().is_none());
    assert!(range.next().is_none());
}

#[test]
fn usable_frames_start_at_usable_start() {
    let mut frames = usable_frames(STACK_TOP);
    let first: Frame = frames.next().unwrap();
    assert_eq!(first.start, PhysAddr(0x4008_1000));
    assert_eq!(frames.next().unwrap().start, PhysAddr(0x4008_2000));
}

#[test]
fn init_reserves_heap() {
    let mut memory = init(STACK_TOP);
    let heap_first = Frame { start: PhysAddr(HEAP_START) };
    let heap_last = Frame { start: PhysAddr(HEAP_END - 0x1000) };
    let after_heap = Frame { start: PhysAddr(HEAP_END) };
    assert!(memory.is_allocated(heap_first));
    assert!(memory.is_allocated(heap_last));
    assert!(!memory.is_allocated(after_heap));
    assert_eq!(memory.allocate_frame().unwrap().start, PhysAddr(0x4008_2000));
    assert!(!memory.is_allocated(Frame { start: PhysAddr(0x4008_1000) }));
}

fn identity_tables() -> (PageTable, PageTable) {
    let mut l2 = PageTable::new();
    for index in 0..64 {
        l2.entries[index] = (0x4000_0000 + index as u64 * 0x20_0000) | 0x705;
    }
    let mut uart_l2 = PageTable::new();
    uart_l2.entries[72] = 0x0900_0000 | 0x401;
    (l2, uart_l2)
}

#[test]
fn identity_mappings_accepted() {
    let (l2, uart_l2) = identity_tables();
    assert!(test_page_table_mappings(&l2, &uart_l2));
}

#[test]
fn identity_mappings_rejected() {
    let (mut l2, uart_l2) = identity_tables();
    l2.entries[3] |= 0x2;
    assert!(!test_page_table_mappings(&l2, &uart_l2));

    let (mut l2, uart_l2) = identity_tables();
    l2.entries[64] = 1;
    assert!(!test_page_table_mappings(&l2, &uart_l2));

    let (mut l2, uart_l2) = identity_tables();
    l2.entries[10] = (0x4000_0000 + 11 * 0x20_0000) | 0x705;
    assert!(!test_page_table_mappings(&l2, &uart_l2));

    let (l2, mut uart_l2) = identity_tables();
    uart_l2.entries[73] = 0x0920_0401;
    assert!(!test_page_table_mappings(&l2, &uart_l2));

    let (l2, mut uart_l2) = identity_tables();
    uart_l2.entries[72] = 0x0900_0400;
    assert!(!test_page_table_mappings(&l2, &uart_l2));
}

#[test]
fn frame_walk_counts_frames() {
    let mut range = FrameRange::new(MemoryRegion { start: 0x4000_0000, end: 0x4000_5000 });
    let mut count = 0u64;
    while let Some(frame) = range.next() {
        assert_eq!(frame.start, PhysAddr(0x4000_0000 + count * 0x1000));
        count += 1;
    }
    assert_eq!(count, 5);
    assert!(range.next().is_none());
}

#[test]
fn usable_start_near_top_of_address_space() {
    assert_eq!(usable_memory_start(0xFFFF_FFFF_FFFF_F000), 0xFFFF_FFFF_FFFF_F000);
    assert_eq!(usable_memory_start(0xFFFF_FFFF_FFFF_E001), 0xFFFF_FFFF_FFFF_F000);
}
