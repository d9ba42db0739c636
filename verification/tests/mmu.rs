use lych::memory::mmu::{
    l0_index, l1_index, l2_index, l3_index, page_descriptor, page_offset, table_descriptor,
    table_entry, zero_table, PageTable, ENTRY_COUNT,
};

#[test]
fn virtual_address_indices() {
    let va = 0x0000_8080_4020_1ABC;
    assert_eq!(l0_index(va), 0x101);
    assert_eq!(l1_index(va), 0x1);
    assert_eq!(l2_index(va), 0x1);
    assert_eq!(l3_index(va), 0x1);
    assert_eq!(page_offset(va), 0xABC);
    assert_eq!(l0_index(0xFFFF_FFFF_FFFF_FFFF), 0x1ff);
    assert_eq!(l2_index(0x4020_0000), 1);
    assert_eq!(l1_index(0x4000_0000), 1);
}

#[test]
fn descriptors() {
    assert_eq!(page_descriptor(0x4000_1234), 0x4000_1705);
    assert_eq!(page_descriptor(0xFFFF_0000_4000_0000), 0x4000_0705);
    assert_eq!(table_descriptor(0x4000_2000), 0x4000_2003);
    assert_eq!(table_descriptor(0x4000_2FFF), 0x4000_2003);
    assert_eq!(table_entry(0x4000_3000), 0x4000_3003);
}

#[test]
fn zeroing_a_table() {
    let mut table = PageTable::new();
    assert!(table.entries.iter().all(|e| *e == 0));
    table.entries[5] = 0x1234;
    table.entries[ENTRY_COUNT - 1] = 7;
    zero_table(&mut table);
    assert!(table.entries.iter().all(|e| *e == 0));
}

#[test]
fn virtual_address_reassembles_from_indices() {
    for va in [0u64, 0x0000_8080_4020_1ABC, 0x0000_FFFF_FFFF_FFFF, 0x4000_0000, 0x1234_5678_9ABC] {
        let rebuilt = ((l0_index(va) as u64) << 39)
            | ((l1_index(va) as u64) << 30)
            | ((l2_index(va) as u64) << 21)
            | ((l3_index(va) as u64) << 12)
            | page_offset(va);
        assert_eq!(rebuilt, va);
    }
}

#[test]
fn descriptor_keeps_aligned_address() {
    let mask = 0x0000_FFFF_FFFF_F000u64;
    assert_eq!(page_descriptor(0x4000_1000) & mask, 0x4000_1000);
    assert_eq!(table_descriptor(0x4800_0000) & mask, 0x4800_0000);
    assert_eq!(page_descriptor(0x4000_1000) & 1, 1);
    assert_eq!(page_descriptor(0x4000_1000) & 2, 0);
    assert_eq!(page_descriptor(0x4000_0000), 0x4000_0705);
    assert_eq!(page_descriptor(0x4000_0FFF), 0x4000_0705);
    assert_eq!(page_descriptor(0x4000_0000) & 0xC0, 0);
    assert_eq!(table_descriptor(0x4000_1000) & 3, 3);
}
