//! Physical memory layout: addresses, frames, the usable RAM region and the
//! placement of the frame bitmap.

pub mod allocator;
pub mod heap;
pub mod mmu;

use vstd::prelude::*;

use crate::platform::{BLOCK_SIZE, RAM_BASE, RAM_BLOCK_COUNT, RAM_END, UART_BASE, UART_L2_INDEX};
use allocator::PhysicalMemoryManager;

verus! {

/// Size of a page and of a physical frame: 4 KiB.
pub const PAGE_SIZE: u64 = 4096;

/// Whether `addr` is a multiple of the page size.
pub open spec fn page_aligned(addr: int) -> bool {
    addr % (PAGE_SIZE as int) == 0
}

/// Checks whether `addr` lies on a page boundary.
pub fn is_page_aligned(addr: u64) -> (aligned: bool)
    ensures
        aligned == page_aligned(addr as int),
{
    addr % PAGE_SIZE == 0
}

/// Whether `n` is a power of two.
pub open spec fn is_power_of_two(n: int) -> bool {
    exists|k: nat| vstd::arithmetic::power2::pow2(k) == n
}

/// The least multiple of the page size at or above `x`.
pub open spec fn page_round_up(x: int) -> int {
    x + ((PAGE_SIZE as int) - x % (PAGE_SIZE as int)) % (PAGE_SIZE as int)
}

/// The facts about a power of two `a <= u64::MAX` that rounding up needs.
proof fn lemma_u64_pow2_shift(a: u64) -> (k: u64)
    requires
        is_power_of_two(a as int),
    ensures
        k < 64,
        a == 1u64 << k,
        a == vstd::arithmetic::power2::pow2(k as nat),
        a - 1 == vstd::bits::low_bits_mask(k as nat),
{
    let n = choose|n: nat| vstd::arithmetic::power2::pow2(n) == a as int;
    if n >= 64 {
        vstd::arithmetic::power2::lemma2_to64();
        vstd::arithmetic::power2::lemma2_to64_rest();
        if n > 64 {
            vstd::arithmetic::power2::lemma_pow2_strictly_increases(64, n);
        }
        assert(false);
    }
    let k = n as u64;
    vstd::bits::lemma_u64_pow2_no_overflow(n);
    vstd::bits::lemma_u64_shl_is_mul(1, k);
    k
}

/// Rounding up with the mask of a power of two lands on the least multiple
/// of it at or above `x`.
proof fn lemma_u64_round_up(x: u64, a: u64)
    requires
        is_power_of_two(a as int),
        x + a - 1 <= u64::MAX,
    ensures
        ((x + (a - 1)) as u64 & !((a - 1) as u64)) % a == 0,
        x <= ((x + (a - 1)) as u64 & !((a - 1) as u64)),
        ((x + (a - 1)) as u64 & !((a - 1) as u64)) < x + a,
{
    let k = lemma_u64_pow2_shift(a);
    let r = ((x + (a - 1)) as u64 & !((a - 1) as u64));
    let m = (a - 1) as u64;
    let y = (x + m) as u64;
    assert(y == x + m);
    assert((y & !m) & m == 0 && x <= (y & !m) && (y & !m) <= y) by (bit_vector)
        requires
            k < 64,
            a == 1u64 << k,
            m == (a - 1) as u64,
            y == (x + m) as u64,
            x + m <= 0xffff_ffff_ffff_ffffu64,
    ;
    vstd::bits::lemma_u64_low_bits_mask_is_mod(r, k as nat);
}

/// Rounds `addr` up to a multiple of `alignment`, computed as
/// `(addr + alignment - 1) & !(alignment - 1)`; for a power-of-two
/// alignment this is the least multiple of it at or above `addr`.
fn align_up(addr: u64, alignment: u64) -> (aligned: u64)
    requires
        alignment > 0,
        addr + alignment - 1 <= u64::MAX,
    ensures
        aligned == ((addr + (alignment - 1)) as u64 & !((alignment - 1) as u64)),
        is_power_of_two(alignment as int) ==> {
            &&& aligned % alignment == 0
            &&& addr <= aligned < addr + alignment
        },
        alignment == PAGE_SIZE ==> aligned == page_round_up(addr as int),
{
    proof {
        if is_power_of_two(alignment as int) {
            lemma_u64_round_up(addr, alignment);
        }
        if alignment == PAGE_SIZE {
            lemma_page_size_power_of_two();
            lemma_u64_round_up(addr, alignment);
            lemma_page_round_up_unique(
                addr as int,
                ((addr + (alignment - 1)) as u64 & !((alignment - 1) as u64)) as int,
            );
        }
    }
    (addr + (alignment - 1)) & !(alignment - 1)
}

/// The only page multiple in `[x, x + PAGE_SIZE)` is `page_round_up(x)`.
pub proof fn lemma_page_round_up_unique(x: int, r: int)
    requires
        r % (PAGE_SIZE as int) == 0,
        x <= r < x + PAGE_SIZE,
    ensures
        r == page_round_up(x),
{
    assert(r == page_round_up(x)) by (nonlinear_arith)
        requires
            r % 4096 == 0,
            x <= r < x + 4096,
    ;
}

/// The page size is a power of two.
pub proof fn lemma_page_size_power_of_two()
    ensures
        is_power_of_two(PAGE_SIZE as int),
{
    vstd::arithmetic::power2::lemma2_to64();
    assert(vstd::arithmetic::power2::pow2(12) == PAGE_SIZE);
}

/// A physical frame, named by the address of its first byte.
#[derive(Clone, Copy)]
pub struct Frame {
    pub start: PhysAddr,
}

/// A physical address.
#[derive(Clone, Copy, PartialEq, Eq, Debug, Structural)]
pub struct PhysAddr(pub u64);

/// A virtual address.
#[derive(Clone, Copy, PartialEq, Eq, Debug, Structural)]
pub struct VirtAddr(pub u64);

/// A span of physical memory `[start, end)`.
pub struct MemoryRegion {
    pub start: u64,
    pub end: u64,
}

impl PhysAddr {
    /// Wraps a raw physical address.
    pub fn new(addr: u64) -> (phys: Self)
        ensures
            phys.0 == addr,
    {
        PhysAddr(addr)
    }

    /// The raw address.
    pub fn as_u64(self) -> (addr: u64)
        ensures
            addr == self.0,
    {
        self.0
    }
}

impl VirtAddr {
    /// Wraps a raw virtual address.
    pub fn new(addr: u64) -> (virt: Self)
        ensures
            virt.0 == addr,
    {
        VirtAddr(addr)
    }

    /// The raw address.
    pub fn as_u64(self) -> (addr: u64)
        ensures
            addr == self.0,
    {
        self.0
    }
}

/// First byte of the kernel heap region.
pub const HEAP_START: u64 = 0x4100_0000;

/// Size of the kernel heap region: 1 MiB.
pub const HEAP_SIZE: u64 = 0x0010_0000;

/// First byte past the kernel heap region.
pub const HEAP_END: u64 = 0x4110_0000;

/// First usable byte of RAM when the boot stack ends at `stack_top`: the
/// first page boundary at or above it.
pub open spec fn spec_usable_memory_start(stack_top: u64) -> int {
    page_round_up(stack_top as int)
}

/// Frames of RAM from the usable start to the end of RAM.
pub open spec fn spec_frame_count(stack_top: u64) -> int {
    (RAM_END - spec_usable_memory_start(stack_top)) / (PAGE_SIZE as int)
}

/// First byte the frame allocator may hand out: the page-aligned end of the
/// bitmap placed at the start of the usable region.
pub open spec fn spec_allocatable_start(stack_top: u64) -> int {
    allocator::spec_bitmap_end(spec_usable_memory_start(stack_top), spec_frame_count(stack_top))
}

/// The first page boundary at or above the top of the boot stack, from
/// where RAM is free for the kernel's own use.
pub fn usable_memory_start(stack_top: u64) -> (start: u64)
    requires
        stack_top + PAGE_SIZE - 1 <= u64::MAX,
    ensures
        start == spec_usable_memory_start(stack_top),
        page_aligned(start as int),
        stack_top <= start < stack_top + PAGE_SIZE,
        stack_top <= RAM_END ==> start <= RAM_END,
{
    align_up(stack_top, PAGE_SIZE)
}

/// RAM from the usable start to the end of RAM, bitmap included.
pub fn raw_memory_region(stack_top: u64) -> (region: MemoryRegion)
    requires
        stack_top + PAGE_SIZE - 1 <= u64::MAX,
    ensures
        region.start == spec_usable_memory_start(stack_top),
        region.end == RAM_END,
{
    MemoryRegion { start: usable_memory_start(stack_top), end: RAM_END }
}

/// Number of frames in the raw memory region.
pub fn frame_count(stack_top: u64) -> (count: u64)
    requires
        stack_top <= RAM_END,
    ensures
        count == spec_frame_count(stack_top),
{
    let region = raw_memory_region(stack_top);
    (region.end - region.start) / PAGE_SIZE
}

/// Where the frame bitmap is placed: the usable start.
pub fn bitmap_start(stack_top: u64) -> (start: u64)
    requires
        stack_top + PAGE_SIZE - 1 <= u64::MAX,
    ensures
        start == spec_usable_memory_start(stack_top),
{
    usable_memory_start(stack_top)
}

/// Bytes of bitmap needed for every frame of the raw memory region.
pub fn bitmap_size(stack_top: u64) -> (size: u64)
    requires
        stack_top <= RAM_END,
    ensures
        size == allocator::spec_bitmap_size(spec_frame_count(stack_top)),
{
    allocator::bitmap_size(frame_count(stack_top))
}

/// Usable RAM: from the first page boundary above the boot stack up to the
/// end of RAM. The frame bitmap sits at its start.
pub fn usable_memory_region(stack_top: u64) -> (region: MemoryRegion)
    requires
        stack_top + PAGE_SIZE - 1 <= u64::MAX,
    ensures
        region.start == spec_usable_memory_start(stack_top),
        region.end == RAM_END,
        page_aligned(region.start as int),
{
    MemoryRegion { start: usable_memory_start(stack_top), end: RAM_END }
}

/// The frame starting at `addr`, when `addr` is page aligned and lies in the
/// usable region; `None` otherwise.
pub fn frame_from_address(addr: u64, stack_top: u64) -> (frame: Option<Frame>)
    requires
        stack_top + PAGE_SIZE - 1 <= u64::MAX,
    ensures
        frame == (if page_aligned(addr as int) && spec_usable_memory_start(stack_top) <= addr
            < RAM_END {
            Some(Frame { start: PhysAddr(addr) })
        } else {
            None
        }),
{
    if !is_page_aligned(addr) {
        return None;
    }
    let region = usable_memory_region(stack_top);
    if addr < region.start || addr >= region.end {
        return None;
    }
    Some(Frame { start: PhysAddr::new(addr) })
}

/// Where a walk from `pos` toward `limit` stands after `k` calls of `next`:
/// each call moves a page on while the position is below the limit.
pub open spec fn walk_position(pos: int, limit: int, k: nat) -> int
    decreases k,
{
    if k == 0 {
        pos
    } else {
        let p = walk_position(pos, limit, (k - 1) as nat);
        if p < limit {
            p + PAGE_SIZE
        } else {
            p
        }
    }
}

/// The address of the frame that the `(k + 1)`-th call of `next` returns,
/// or `None` once the walk has reached its limit.
pub open spec fn walk_output(pos: int, limit: int, k: nat) -> Option<int> {
    let p = walk_position(pos, limit, k);
    if p < limit {
        Some(p)
    } else {
        None
    }
}

/// A walk over a page-aligned region yields exactly `(limit - pos) /
/// PAGE_SIZE` frames, the `k`-th at `pos + k * PAGE_SIZE`, in increasing
/// order, and then only `None`. The first two clauses chain the calls: one
/// call of `next` from the position reached after `k` calls returns the
/// `(k + 1)`-th output and reaches the position after `k + 1` calls.
pub proof fn lemma_frame_walk(pos: int, limit: int, k: nat)
    requires
        page_aligned(pos),
        page_aligned(limit),
        pos <= limit,
    ensures
        walk_position(walk_position(pos, limit, k), limit, 1) == walk_position(pos, limit, k + 1),
        walk_output(walk_position(pos, limit, k), limit, 0) == walk_output(pos, limit, k),
        walk_position(pos, limit, k) == if k < (limit - pos) / (PAGE_SIZE as int) {
            pos + k * (PAGE_SIZE as int)
        } else {
            limit
        },
        walk_output(pos, limit, k) == if k < (limit - pos) / (PAGE_SIZE as int) {
            Some(pos + k * (PAGE_SIZE as int))
        } else {
            None::<int>
        },
    decreases k,
{
    if k > 0 {
        lemma_frame_walk(pos, limit, (k - 1) as nat);
    }
}

/// Walks the frames of a region one page at a time.
pub struct FrameRange {
    current: u64,
    end: u64,
}

impl FrameRange {
    /// Address of the next frame to hand out.
    pub closed spec fn position(&self) -> u64 {
        self.current
    }

    /// Where the walk stops.
    pub closed spec fn limit(&self) -> u64 {
        self.end
    }

    /// A walk over the frames of `region`.
    pub fn new(region: MemoryRegion) -> (range: Self)
        ensures
            range.position() == region.start,
            range.limit() == region.end,
    {
        FrameRange { current: region.start, end: region.end }
    }

    /// The frame at the current position, advancing by a page; `None`, with
    /// nothing changed, once the position has reached the limit.
    pub fn next(&mut self) -> (frame: Option<Frame>)
        requires
            old(self).position() < old(self).limit() ==> old(self).position() + PAGE_SIZE
                <= u64::MAX,
        ensures
            final(self).limit() == old(self).limit(),
            final(self).position() == walk_position(
                old(self).position() as int,
                old(self).limit() as int,
                1,
            ),
            match walk_output(old(self).position() as int, old(self).limit() as int, 0) {
                Some(a) => frame == Some(Frame { start: PhysAddr(a as u64) }),
                None => frame is None,
            },
            old(self).position() < old(self).limit() ==> {
                &&& frame == Some(Frame { start: PhysAddr(old(self).position()) })
                &&& final(self).position() == old(self).position() + PAGE_SIZE
            },
            old(self).position() >= old(self).limit() ==> frame is None && final(self).position()
                == old(self).position(),
    {
        if self.current >= self.end {
            return None;
        }
        let frame = Frame { start: PhysAddr::new(self.current) };
        self.current = self.current + PAGE_SIZE;
        Some(frame)
    }
}

/// A walk over the frames of the usable region.
pub fn usable_frames(stack_top: u64) -> (range: FrameRange)
    requires
        stack_top + PAGE_SIZE - 1 <= u64::MAX,
    ensures
        range.position() == spec_usable_memory_start(stack_top),
        range.limit() == RAM_END,
{
    FrameRange::new(usable_memory_region(stack_top))
}

/// The usable region has room for at least one frame after the bitmap.
pub open spec fn layout_has_room(stack_top: u64) -> bool {
    &&& stack_top <= RAM_END
    &&& spec_allocatable_start(stack_top) < RAM_END
}

/// The bitmap is never handed out as a frame: it ends at or before the first
/// frame the allocator manages, and it has a bit for every one of those
/// frames.
pub proof fn lemma_bitmap_outside_allocatable_range(stack_top: u64)
    requires
        layout_has_room(stack_top),
    ensures
        spec_usable_memory_start(stack_top) + allocator::spec_bitmap_size(
            spec_frame_count(stack_top),
        ) <= spec_allocatable_start(stack_top),
        (allocator::spec_bitmap_size(spec_frame_count(stack_top)) / 8) * 64 >= (RAM_END
            - spec_allocatable_start(stack_top)) / (PAGE_SIZE as int),
{
}

/// The physical memory manager of the kernel: its bitmap sits at the start
/// of the usable region, it manages the frames from the page-aligned end of
/// the bitmap up to the end of RAM, and every frame is free except those of
/// the kernel heap region, which are reserved.
pub fn init(stack_top: u64) -> (manager: PhysicalMemoryManager)
    requires
        layout_has_room(stack_top),
    ensures
        manager.wf(),
        manager.frames().range_start() == spec_allocatable_start(stack_top),
        manager.frames().range_end() == RAM_END,
        manager.frames().bitmap_address() == spec_usable_memory_start(stack_top),
        manager@.len() == manager.frames().frame_total(),
        forall|i: int|
            0 <= i < manager@.len() ==> #[trigger] manager@[i] == (HEAP_START
                <= manager.frames().frame_address(i) < HEAP_END),
{
    let region = usable_memory_region(stack_top);
    let start = allocator::bitmap_end(bitmap_start(stack_top), frame_count(stack_top));
    let mut manager = PhysicalMemoryManager::new(
        start,
        region.end,
        bitmap_start(stack_top),
        bitmap_size(stack_top),
    );
    manager.reserve_range(HEAP_START, HEAP_END);
    manager
}

/// The virtual address RAM at `addr` is seen at under the identity map.
pub fn phys_to_virt(addr: PhysAddr) -> (virt: VirtAddr)
    ensures
        virt.0 == addr.0,
{
    VirtAddr::new(addr.as_u64())
}

/// The physical address behind `addr` under the identity map.
pub fn virt_to_phys(addr: VirtAddr) -> (phys: PhysAddr)
    ensures
        phys.0 == addr.0,
{
    PhysAddr::new(addr.as_u64())
}


/// Under the identity map, going from a physical address to its virtual
/// address and back gives the physical address again, and the other way
/// round.
pub proof fn lemma_identity_map_round_trip(p: PhysAddr, v: VirtAddr)
    ensures
        VirtAddr(p.0).0 == p.0,
        PhysAddr(VirtAddr(p.0).0) == p,
        VirtAddr(PhysAddr(v.0).0) == v,
{
}

/// Whether `entry` is a valid block descriptor (not a table descriptor)
/// whose 2 MiB output address is `physical`.
pub open spec fn maps_block(entry: u64, physical: int) -> bool {
    &&& entry & mmu::DESC_VALID == mmu::DESC_VALID
    &&& entry & mmu::DESC_TABLE == 0
    &&& (entry & mmu::BLOCK_ADDRESS_MASK) == physical
}

/// The expected identity mappings: entry `i < 64` of the RAM level 2 table
/// maps the block at `RAM_BASE + i * 2 MiB` and its other entries are zero;
/// entry 72 of the UART level 2 table maps the UART block and its other
/// entries are zero.
pub open spec fn identity_mappings_valid(l2: Seq<u64>, uart_l2: Seq<u64>) -> bool {
    &&& forall|i: int|
        0 <= i < RAM_BLOCK_COUNT ==> maps_block(#[trigger] l2[i], RAM_BASE + i * BLOCK_SIZE)
    &&& forall|i: int| RAM_BLOCK_COUNT <= i < mmu::ENTRY_COUNT ==> #[trigger] l2[i] == 0
    &&& maps_block(uart_l2[UART_L2_INDEX as int], UART_BASE as int)
    &&& forall|i: int|
        0 <= i < mmu::ENTRY_COUNT && i != UART_L2_INDEX ==> #[trigger] uart_l2[i] == 0
}

/// The identity map holds exactly when, entry by entry, the RAM blocks are
/// valid non-table descriptors for their own addresses, the UART block is
/// mapped at entry 72, and every other entry is zero.
pub proof fn lemma_identity_mappings_spelled_out(l2: Seq<u64>, uart_l2: Seq<u64>)
    ensures
        identity_mappings_valid(l2, uart_l2) <==> (forall|i: int|
            0 <= i < 64 ==> #[trigger] l2[i] & 1 == 1 && l2[i] & 2 == 0 && l2[i]
                & 0x0000_FFFF_FFE0_0000 == 0x4000_0000 + i * 0x20_0000) && (forall|i: int|
            64 <= i < 512 ==> #[trigger] l2[i] == 0) && uart_l2[72] & 1 == 1 && uart_l2[72] & 2
            == 0 && uart_l2[72] & 0x0000_FFFF_FFE0_0000 == 0x0900_0000 && (forall|i: int|
            0 <= i < 512 && i != 72 ==> #[trigger] uart_l2[i] == 0),
{
    assert(mmu::DESC_VALID == 1u64 && mmu::DESC_TABLE == 2u64) by (bit_vector);
    if identity_mappings_valid(l2, uart_l2) {
        assert forall|i: int| 0 <= i < 64 implies #[trigger] l2[i] & 1 == 1 && l2[i] & 2 == 0
            && l2[i] & 0x0000_FFFF_FFE0_0000 == 0x4000_0000 + i * 0x20_0000 by {
            assert(maps_block(l2[i], RAM_BASE + i * BLOCK_SIZE));
        }
    }
    if (forall|i: int|
        0 <= i < 64 ==> #[trigger] l2[i] & 1 == 1 && l2[i] & 2 == 0 && l2[i]
            & 0x0000_FFFF_FFE0_0000 == 0x4000_0000 + i * 0x20_0000) && (forall|i: int|
        64 <= i < 512 ==> #[trigger] l2[i] == 0) && uart_l2[72] & 1 == 1 && uart_l2[72] & 2
        == 0 && uart_l2[72] & 0x0000_FFFF_FFE0_0000 == 0x0900_0000 && (forall|i: int|
        0 <= i < 512 && i != 72 ==> #[trigger] uart_l2[i] == 0) {
        assert forall|i: int| 0 <= i < RAM_BLOCK_COUNT implies maps_block(
            #[trigger] l2[i],
            RAM_BASE + i * BLOCK_SIZE,
        ) by {
            assert(l2[i] & 1 == 1);
        }
    }
}

/// Checks the level 2 tables of the identity map: `true` exactly when they
/// hold the mappings `identity_mappings_valid` describes, that is when every
/// RAM entry below 64 is a valid block descriptor (bit 0 set, bit 1 clear)
/// for its own 2 MiB block, UART entry 72 one for the UART block, and every
/// other entry of both tables is zero.
pub fn test_page_table_mappings(l2: &mmu::PageTable, uart_l2: &mmu::PageTable) -> (valid: bool)
    ensures
        valid == identity_mappings_valid(l2.entries@, uart_l2.entries@),
        valid <==> (forall|i: int|
            0 <= i < 64 ==> #[trigger] l2.entries@[i] & 1 == 1 && l2.entries@[i] & 2 == 0
                && l2.entries@[i] & 0x0000_FFFF_FFE0_0000 == 0x4000_0000 + i * 0x20_0000) && (
        forall|i: int| 64 <= i < 512 ==> #[trigger] l2.entries@[i] == 0)
            && uart_l2.entries@[72] & 1 == 1 && uart_l2.entries@[72] & 2 == 0
            && uart_l2.entries@[72] & 0x0000_FFFF_FFE0_0000 == 0x0900_0000 && (forall|i: int|
            0 <= i < 512 && i != 72 ==> #[trigger] uart_l2.entries@[i] == 0),
{
    proof {
        lemma_identity_mappings_spelled_out(l2.entries@, uart_l2.entries@);
    }
    let mut index: usize = 0;
    while index < RAM_BLOCK_COUNT
        invariant
            identity_mappings_valid(l2.entries@, uart_l2.entries@) <==> (forall|i: int|
                0 <= i < 64 ==> #[trigger] l2.entries@[i] & 1 == 1 && l2.entries@[i] & 2 == 0
                    && l2.entries@[i] & 0x0000_FFFF_FFE0_0000 == 0x4000_0000 + i * 0x20_0000)
                && (forall|i: int| 64 <= i < 512 ==> #[trigger] l2.entries@[i] == 0)
                && uart_l2.entries@[72] & 1 == 1 && uart_l2.entries@[72] & 2 == 0
                && uart_l2.entries@[72] & 0x0000_FFFF_FFE0_0000 == 0x0900_0000 && (forall|i: int|
                0 <= i < 512 && i != 72 ==> #[trigger] uart_l2.entries@[i] == 0),
            index <= RAM_BLOCK_COUNT,
            forall|i: int|
                0 <= i < index ==> maps_block(#[trigger] l2.entries@[i], RAM_BASE + i * BLOCK_SIZE),
        decreases RAM_BLOCK_COUNT - index,
    {
        let expected_physical = RAM_BASE + (index as u64) * BLOCK_SIZE;
        let entry = l2.entries[index];
        if entry & mmu::DESC_VALID != mmu::DESC_VALID || entry & mmu::DESC_TABLE != 0 || entry
            & mmu::BLOCK_ADDRESS_MASK != expected_physical {
            assert(!maps_block(l2.entries@[index as int], RAM_BASE + index * BLOCK_SIZE));
            return false;
        }
        index = index + 1;
    }
    while index < mmu::ENTRY_COUNT
        invariant
            identity_mappings_valid(l2.entries@, uart_l2.entries@) <==> (forall|i: int|
                0 <= i < 64 ==> #[trigger] l2.entries@[i] & 1 == 1 && l2.entries@[i] & 2 == 0
                    && l2.entries@[i] & 0x0000_FFFF_FFE0_0000 == 0x4000_0000 + i * 0x20_0000)
                && (forall|i: int| 64 <= i < 512 ==> #[trigger] l2.entries@[i] == 0)
                && uart_l2.entries@[72] & 1 == 1 && uart_l2.entries@[72] & 2 == 0
                && uart_l2.entries@[72] & 0x0000_FFFF_FFE0_0000 == 0x0900_0000 && (forall|i: int|
                0 <= i < 512 && i != 72 ==> #[trigger] uart_l2.entries@[i] == 0),
            RAM_BLOCK_COUNT <= index <= mmu::ENTRY_COUNT,
            forall|i: int|
                0 <= i < RAM_BLOCK_COUNT ==> maps_block(#[trigger] l2.entries@[i], RAM_BASE + i * BLOCK_SIZE),
            forall|i: int| RAM_BLOCK_COUNT <= i < index ==> #[trigger] l2.entries@[i] == 0,
        decreases mmu::ENTRY_COUNT - index,
    {
        if l2.entries[index] != 0 {
            return false;
        }
        index = index + 1;
    }
    let entry = uart_l2.entries[UART_L2_INDEX];
    if entry & mmu::DESC_VALID != mmu::DESC_VALID || entry & mmu::DESC_TABLE != 0 || entry
        & mmu::BLOCK_ADDRESS_MASK != UART_BASE {
        return false;
    }
    let mut index: usize = 0;
    while index < mmu::ENTRY_COUNT
        invariant
            identity_mappings_valid(l2.entries@, uart_l2.entries@) <==> (forall|i: int|
                0 <= i < 64 ==> #[trigger] l2.entries@[i] & 1 == 1 && l2.entries@[i] & 2 == 0
                    && l2.entries@[i] & 0x0000_FFFF_FFE0_0000 == 0x4000_0000 + i * 0x20_0000)
                && (forall|i: int| 64 <= i < 512 ==> #[trigger] l2.entries@[i] == 0)
                && uart_l2.entries@[72] & 1 == 1 && uart_l2.entries@[72] & 2 == 0
                && uart_l2.entries@[72] & 0x0000_FFFF_FFE0_0000 == 0x0900_0000 && (forall|i: int|
                0 <= i < 512 && i != 72 ==> #[trigger] uart_l2.entries@[i] == 0),
            index <= mmu::ENTRY_COUNT,
            forall|i: int|
                0 <= i < index && i != UART_L2_INDEX ==> #[trigger] uart_l2.entries@[i] == 0,
        decreases mmu::ENTRY_COUNT - index,
    {
        if index != UART_L2_INDEX && uart_l2.entries[index] != 0 {
            return false;
        }
        index = index + 1;
    }
    true
}

} // verus!
