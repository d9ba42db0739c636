//! Stage-1 translation tables with a 4 KiB granule: table layout,
//! virtual-address indexing and descriptor encoding.

use vstd::prelude::*;

verus! {

/// Size of a page mapped by a last-level descriptor.
pub const PAGE_SIZE: u64 = 4096;

/// Entries in every translation table.
pub const ENTRY_COUNT: usize = 512;

/// Position of the level 0 index in a virtual address.
pub const L0_SHIFT: u64 = 39;

/// Position of the level 1 index in a virtual address.
pub const L1_SHIFT: u64 = 30;

/// Position of the level 2 index in a virtual address.
pub const L2_SHIFT: u64 = 21;

/// Position of the level 3 index in a virtual address.
pub const L3_SHIFT: u64 = 12;

/// Mask of one table index (nine bits).
pub const TABLE_INDEX_MASK: u64 = 0x1ff;

/// Descriptor bit 0: the entry is valid.
pub const DESC_VALID: u64 = 1 << 0;

/// Descriptor bit 1: the entry points to a next-level table.
pub const DESC_TABLE: u64 = 1 << 1;

/// Memory attribute index of device memory.
pub const ATTR_DEVICE: u64 = 0;

/// Memory attribute index of normal memory (`AttrIndx = 1`).
pub const ATTR_NORMAL: u64 = 1 << 2;

/// Read/write at EL1.
pub const AP_RW_EL1: u64 = 0 << 6;

/// Read-only at EL1.
pub const AP_RO_EL1: u64 = 1 << 7;

/// Inner shareable.
pub const SH_INNER: u64 = 3 << 8;

/// Access flag.
pub const ACCESS_FLAG: u64 = 1 << 10;

/// The output-address bits of a descriptor (bits 47:12).
pub const OUTPUT_ADDRESS_MASK: u64 = 0x0000_FFFF_FFFF_F000;

/// The output-address bits of a 2 MiB block descriptor (bits 47:21).
pub const BLOCK_ADDRESS_MASK: u64 = 0x0000_FFFF_FFE0_0000;

/// Attribute bits of a page descriptor: valid, normal memory, read/write at
/// EL1, inner shareable, accessed.
pub const PAGE_DESCRIPTOR_FLAGS: u64 = DESC_VALID | ATTR_NORMAL | AP_RW_EL1 | SH_INNER | ACCESS_FLAG;

/// Attribute bits of a table descriptor: valid and pointing to a table.
pub const TABLE_DESCRIPTOR_FLAGS: u64 = DESC_VALID | DESC_TABLE;

/// One translation table: 512 64-bit descriptors.
pub struct PageTable {
    pub entries: [u64; ENTRY_COUNT],
}

impl PageTable {
    /// A table whose every entry is zero (invalid).
    pub fn new() -> (table: Self)
        ensures
            forall|i: int| 0 <= i < ENTRY_COUNT ==> #[trigger] table.entries@[i] == 0,
    {
        PageTable { entries: [0u64; ENTRY_COUNT] }
    }
}

/// Index into the level 0 table (virtual address bits 47:39).
pub fn l0_index(va: u64) -> (index: usize)
    ensures
        index == (va as int / 0x80_0000_0000) % 512,
        index < ENTRY_COUNT,
{
    assert((va >> 39u64) & 0x1ff == (va / 0x80_0000_0000) % 512) by (bit_vector);
    ((va >> L0_SHIFT) & TABLE_INDEX_MASK) as usize
}

/// Index into the level 1 table (virtual address bits 38:30).
pub fn l1_index(va: u64) -> (index: usize)
    ensures
        index == (va as int / 0x4000_0000) % 512,
        index < ENTRY_COUNT,
{
    assert((va >> 30u64) & 0x1ff == (va / 0x4000_0000) % 512) by (bit_vector);
    ((va >> L1_SHIFT) & TABLE_INDEX_MASK) as usize
}

/// Index into the level 2 table (virtual address bits 29:21).
pub fn l2_index(va: u64) -> (index: usize)
    ensures
        index == (va as int / 0x20_0000) % 512,
        index < ENTRY_COUNT,
{
    assert((va >> 21u64) & 0x1ff == (va / 0x20_0000) % 512) by (bit_vector);
    ((va >> L2_SHIFT) & TABLE_INDEX_MASK) as usize
}

/// Index into the level 3 table (virtual address bits 20:12).
pub fn l3_index(va: u64) -> (index: usize)
    ensures
        index == (va as int / 0x1000) % 512,
        index < ENTRY_COUNT,
{
    assert((va >> 12u64) & 0x1ff == (va / 0x1000) % 512) by (bit_vector);
    ((va >> L3_SHIFT) & TABLE_INDEX_MASK) as usize
}

/// Offset of a virtual address within its 4 KiB page (bits 11:0).
pub fn page_offset(va: u64) -> (offset: u64)
    ensures
        offset == va % 4096,
{
    assert(va & 0xfff == va % 4096) by (bit_vector);
    va & 0xfff
}

/// A 48-bit virtual address is exactly its four table indices and its page
/// offset put together.
pub proof fn lemma_virtual_address_decomposition(va: u64)
    requires
        va < 0x1_0000_0000_0000,
    ensures
        va == ((va as int / 0x80_0000_0000) % 512) * 0x80_0000_0000 + ((va as int / 0x4000_0000)
            % 512) * 0x4000_0000 + ((va as int / 0x20_0000) % 512) * 0x20_0000 + ((va as int
            / 0x1000) % 512) * 0x1000 + va % 4096,
{
    assert(va == ((va / 0x80_0000_0000) % 512) * 0x80_0000_0000 + ((va / 0x4000_0000) % 512)
        * 0x4000_0000 + ((va / 0x20_0000) % 512) * 0x20_0000 + ((va / 0x1000) % 512) * 0x1000 + va
        % 4096) by (bit_vector)
        requires
            va < 0x1_0000_0000_0000u64,
    ;
}

/// A descriptor built for a page-aligned address below 2^48 carries that
/// address unchanged in its output-address bits.
pub proof fn lemma_output_address_kept(physical: u64, descriptor: u64)
    requires
        physical % 4096 == 0,
        physical < 0x1_0000_0000_0000,
        descriptor & OUTPUT_ADDRESS_MASK == physical & OUTPUT_ADDRESS_MASK,
    ensures
        descriptor & OUTPUT_ADDRESS_MASK == physical,
{
    assert(physical & 0x0000_FFFF_FFFF_F000u64 == physical) by (bit_vector)
        requires
            physical % 4096 == 0,
            physical < 0x1_0000_0000_0000u64,
    ;
}

/// A last-level page descriptor mapping the page at `physical`: the output
/// address is `physical` with bits below 12 and above 47 dropped, and the
/// attribute bits are `PAGE_DESCRIPTOR_FLAGS`.
pub fn page_descriptor(physical: u64) -> (descriptor: u64)
    ensures
        descriptor & OUTPUT_ADDRESS_MASK == physical & OUTPUT_ADDRESS_MASK,
        descriptor & !OUTPUT_ADDRESS_MASK == PAGE_DESCRIPTOR_FLAGS,
{
    let descriptor = (physical & 0x0000_FFFF_FFFF_F000) | DESC_VALID | ATTR_NORMAL | AP_RW_EL1
        | SH_INNER | ACCESS_FLAG;
    assert(descriptor & OUTPUT_ADDRESS_MASK == physical & OUTPUT_ADDRESS_MASK && descriptor
        & !OUTPUT_ADDRESS_MASK == PAGE_DESCRIPTOR_FLAGS) by (bit_vector)
        requires
            descriptor == (physical & 0x0000_FFFF_FFFF_F000u64) | DESC_VALID | ATTR_NORMAL
                | AP_RW_EL1 | SH_INNER | ACCESS_FLAG,
    ;
    descriptor
}

/// A table descriptor pointing to the table at `physical`: the output
/// address is `physical` with bits below 12 and above 47 dropped, and the
/// attribute bits are `TABLE_DESCRIPTOR_FLAGS`.
pub fn table_descriptor(physical: u64) -> (descriptor: u64)
    ensures
        descriptor & OUTPUT_ADDRESS_MASK == physical & OUTPUT_ADDRESS_MASK,
        descriptor & !OUTPUT_ADDRESS_MASK == TABLE_DESCRIPTOR_FLAGS,
{
    let descriptor = (physical & 0x0000_FFFF_FFFF_F000) | DESC_VALID | DESC_TABLE;
    assert(descriptor & OUTPUT_ADDRESS_MASK == physical & OUTPUT_ADDRESS_MASK && descriptor
        & !OUTPUT_ADDRESS_MASK == TABLE_DESCRIPTOR_FLAGS) by (bit_vector)
        requires
            descriptor == (physical & 0x0000_FFFF_FFFF_F000u64) | DESC_VALID | DESC_TABLE,
    ;
    descriptor
}

/// The entry that links the table at `table` into its parent.
pub fn table_entry(table: u64) -> (entry: u64)
    ensures
        entry & OUTPUT_ADDRESS_MASK == table & OUTPUT_ADDRESS_MASK,
        entry & !OUTPUT_ADDRESS_MASK == TABLE_DESCRIPTOR_FLAGS,
{
    table_descriptor(table)
}

/// Sets every entry of `table` to zero.
pub fn zero_table(table: &mut PageTable)
    ensures
        forall|i: int| 0 <= i < ENTRY_COUNT ==> #[trigger] final(table).entries@[i] == 0,
{
    let mut i: usize = 0;
    while i < ENTRY_COUNT
        invariant
            i <= ENTRY_COUNT,
            forall|k: int| 0 <= k < i ==> #[trigger] table.entries@[k] == 0,
        decreases ENTRY_COUNT - i,
    {
        table.entries[i] = 0;
        i = i + 1;
    }
}

} // verus!
