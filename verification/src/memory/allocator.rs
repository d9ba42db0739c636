//! The bitmap-backed physical frame allocator and the contiguous page
//! allocator built on top of it.

use vstd::prelude::*;

use super::{page_aligned, page_round_up, Frame, PhysAddr, PAGE_SIZE};

verus! {

/// Whether bit `b` of the word `w` is set.
pub open spec fn word_bit(w: u64, b: int) -> bool {
    (w >> (b as u64)) & 1 == 1
}

proof fn lemma_test_bit(w: u64, b: u64)
    requires
        b < 64,
    ensures
        ((w & (1u64 << b)) != 0) == word_bit(w, b as int),
{
    assert(((w & (1u64 << b)) != 0) == ((w >> b) & 1 == 1)) by (bit_vector)
        requires
            b < 64,
    ;
}

proof fn lemma_set_bit(w: u64, b: u64, j: u64)
    requires
        b < 64,
        j < 64,
    ensures
        word_bit(w | (1u64 << b), j as int) == (j == b || word_bit(w, j as int)),
{
    assert((((w | (1u64 << b)) >> j) & 1 == 1) == (j == b || (w >> j) & 1 == 1)) by (bit_vector)
        requires
            b < 64,
            j < 64,
    ;
}

proof fn lemma_clear_bit(w: u64, b: u64, j: u64)
    requires
        b < 64,
        j < 64,
    ensures
        word_bit(w & !(1u64 << b), j as int) == (j != b && word_bit(w, j as int)),
{
    assert((((w & !(1u64 << b)) >> j) & 1 == 1) == (j != b && (w >> j) & 1 == 1)) by (bit_vector)
        requires
            b < 64,
            j < 64,
    ;
}

proof fn lemma_zero_word(j: u64)
    requires
        j < 64,
    ensures
        !word_bit(0, j as int),
{
    assert((0u64 >> j) & 1 != 1) by (bit_vector);
}

/// A bit array stored in 64-bit words; bit `i` lives in word `i / 64` at
/// position `i % 64`.
pub struct Bitmap {
    addr: u64,
    bits: Vec<u64>,
}

impl View for Bitmap {
    type V = Seq<bool>;

    closed spec fn view(&self) -> Seq<bool> {
        Seq::new(
            (self.bits@.len() * 64) as nat,
            |i: int| word_bit(self.bits@[i / 64], i % 64),
        )
    }
}

impl Bitmap {
    /// Address of the memory the bitmap describes itself as occupying.
    pub closed spec fn address(&self) -> u64 {
        self.addr
    }

    /// Creates a bitmap of `size` bytes (`size / 8` whole words) placed at
    /// `addr`, with every bit clear.
    pub fn new(addr: u64, size: u64) -> (bitmap: Self)
        requires
            size / 8 <= usize::MAX,
        ensures
            bitmap@.len() == (size / 8) * 64,
            forall|i: int| 0 <= i < bitmap@.len() ==> !#[trigger] bitmap@[i],
            bitmap.address() == addr,
    {
        let words = (size / 8) as usize;
        let mut bits: Vec<u64> = Vec::new();
        let mut i: usize = 0;
        while i < words
            invariant
                i <= words,
                bits@.len() == i,
                forall|k: int| 0 <= k < i ==> bits@[k] == 0,
            decreases words - i,
        {
            bits.push(0);
            i = i + 1;
        }
        let bitmap = Bitmap { addr, bits };
        assert forall|i: int| 0 <= i < bitmap@.len() implies !#[trigger] bitmap@[i] by {
            lemma_zero_word((i % 64) as u64);
        }
        bitmap
    }

    /// Clears every bit.
    pub fn clear_all(&mut self)
        ensures
            final(self)@.len() == old(self)@.len(),
            forall|i: int| 0 <= i < final(self)@.len() ==> !#[trigger] final(self)@[i],
            final(self).address() == old(self).address(),
    {
        let n = self.bits.len();
        let mut w: usize = 0;
        while w < n
            invariant
                n == self.bits@.len(),
                n == old(self).bits@.len(),
                w <= n,
                self.addr == old(self).addr,
                forall|k: int| 0 <= k < w ==> self.bits@[k] == 0,
            decreases n - w,
        {
            self.bits.set(w, 0);
            w = w + 1;
        }
        assert forall|i: int| 0 <= i < self@.len() implies !#[trigger] self@[i] by {
            lemma_zero_word((i % 64) as u64);
        }
    }

    /// Returns whether bit `index` is set.
    pub fn is_set(&self, index: u64) -> (set: bool)
        requires
            index < self@.len(),
        ensures
            set == self@[index as int],
    {
        let word = index / 64;
        let bit = index % 64;
        assert(word < self.bits.len());
        proof {
            lemma_test_bit(self.bits@[word as int], bit);
        }
        (self.bits[word as usize] & (1u64 << bit)) != 0
    }

    /// Sets bit `index`, leaving every other bit as it was.
    pub fn set(&mut self, index: u64)
        requires
            index < old(self)@.len(),
        ensures
            final(self)@ == old(self)@.update(index as int, true),
            final(self).address() == old(self).address(),
    {
        let word = index / 64;
        let bit = index % 64;
        assert(word < self.bits.len());
        let w = self.bits[word as usize];
        self.bits.set(word as usize, w | (1u64 << bit));
        proof {
            assert forall|i: int| 0 <= i < self@.len() implies #[trigger] self@[i] == old(
                self,
            )@.update(index as int, true)[i] by {
                if i / 64 == word as int {
                    lemma_set_bit(w, bit, (i % 64) as u64);
                    assert((i % 64 == bit as int) == (i == index as int));
                } else {
                    assert(i != index as int);
                    assert(self.bits@[i / 64] == old(self).bits@[i / 64]);
                }
            }
            assert(self@ =~= old(self)@.update(index as int, true));
        }
    }

    /// Clears bit `index`, leaving every other bit as it was.
    pub fn clear(&mut self, index: u64)
        requires
            index < old(self)@.len(),
        ensures
            final(self)@ == old(self)@.update(index as int, false),
            final(self).address() == old(self).address(),
    {
        let word = index / 64;
        let bit = index % 64;
        assert(word < self.bits.len());
        let w = self.bits[word as usize];
        self.bits.set(word as usize, w & !(1u64 << bit));
        proof {
            assert forall|i: int| 0 <= i < self@.len() implies #[trigger] self@[i] == old(
                self,
            )@.update(index as int, false)[i] by {
                if i / 64 == word as int {
                    lemma_clear_bit(w, bit, (i % 64) as u64);
                    assert((i % 64 == bit as int) == (i == index as int));
                } else {
                    assert(i != index as int);
                    assert(self.bits@[i / 64] == old(self).bits@[i / 64]);
                }
            }
            assert(self@ =~= old(self)@.update(index as int, false));
        }
    }
}


/// Whether `i` is the lowest position of `used` that holds `false`.
pub open spec fn is_first_free(used: Seq<bool>, i: int) -> bool {
    &&& 0 <= i < used.len()
    &&& !used[i]
    &&& forall|j: int| 0 <= j < i ==> #[trigger] used[j]
}

/// The lowest position of `used` that holds `false`, or `None` when every
/// position holds `true`.
pub open spec fn first_free(used: Seq<bool>) -> Option<int> {
    if exists|i: int| 0 <= i < used.len() && !#[trigger] used[i] {
        Some(choose|i: int| is_first_free(used, i))
    } else {
        None
    }
}

/// `first_free` names the position that `is_first_free` singles out.
pub proof fn lemma_first_free_is(used: Seq<bool>, i: int)
    requires
        is_first_free(used, i),
    ensures
        first_free(used) == Some(i),
{
    assert(0 <= i < used.len() && !used[i]);
    let c = choose|c: int| is_first_free(used, c);
    assert(is_first_free(used, c));
    if c < i {
        assert(used[c]);
    } else if c > i {
        assert(used[i]);
    }
}

/// A free position has a lowest one.
pub proof fn lemma_first_free_exists(used: Seq<bool>, w: int)
    requires
        0 <= w < used.len(),
        !used[w],
    ensures
        exists|i: int| is_first_free(used, i),
    decreases w,
{
    if exists|t: int| 0 <= t < w && !#[trigger] used[t] {
        let t = choose|t: int| 0 <= t < w && !#[trigger] used[t];
        lemma_first_free_exists(used, t);
    } else {
        assert(is_first_free(used, w));
    }
}

/// When `first_free` names a position, it is the lowest free one.
pub proof fn lemma_first_free_some(used: Seq<bool>)
    requires
        first_free(used) is Some,
    ensures
        is_first_free(used, first_free(used)->0),
{
    let w = choose|w: int| 0 <= w < used.len() && !#[trigger] used[w];
    lemma_first_free_exists(used, w);
}

/// `first_free` answers the lowest free position, and `None` exactly when
/// every position is taken.
pub proof fn lemma_first_free_law(used: Seq<bool>)
    ensures
        first_free(used) is None <==> forall|j: int| 0 <= j < used.len() ==> #[trigger] used[j],
        first_free(used) matches Some(i) ==> {
            &&& 0 <= i < used.len()
            &&& !used[i]
            &&& forall|j: int| 0 <= j < i ==> #[trigger] used[j]
        },
{
    if first_free(used) is Some {
        lemma_first_free_some(used);
    }
}

/// With every position taken, `first_free` is `None`.
pub proof fn lemma_first_free_none(used: Seq<bool>)
    requires
        forall|j: int| 0 <= j < used.len() ==> #[trigger] used[j],
    ensures
        first_free(used) is None,
{
}

/// Hands out the physical frames of `[start, end)` one page at a time; bit
/// `i` of the bitmap records whether the frame at `start + i * PAGE_SIZE`
/// is in use.
pub struct FrameAllocator {
    start: u64,
    end: u64,
    bitmap: Bitmap,
}

impl View for FrameAllocator {
    type V = Seq<bool>;

    /// Position `i` tells whether the `i`-th frame of the range is in use.
    closed spec fn view(&self) -> Seq<bool> {
        self.bitmap@.subrange(0, (self.end - self.start) / (PAGE_SIZE as int))
    }
}

impl FrameAllocator {
    /// First byte of the managed range.
    pub closed spec fn range_start(&self) -> u64 {
        self.start
    }

    /// First byte past the managed range.
    pub closed spec fn range_end(&self) -> u64 {
        self.end
    }

    /// Where the bitmap was placed.
    pub closed spec fn bitmap_address(&self) -> u64 {
        self.bitmap.address()
    }

    /// Number of frames in the managed range.
    pub open spec fn frame_total(&self) -> int {
        (self.range_end() - self.range_start()) / (PAGE_SIZE as int)
    }

    /// Address of the `i`-th frame of the range.
    pub open spec fn frame_address(&self, i: int) -> int {
        self.range_start() + i * (PAGE_SIZE as int)
    }

    /// The position of the frame that starts at `addr`: `None` when `addr`
    /// lies outside the range or is not page aligned.
    pub open spec fn frame_index(&self, addr: int) -> Option<int> {
        if self.range_start() <= addr < self.range_end() && page_aligned(addr) {
            Some((addr - self.range_start()) / (PAGE_SIZE as int))
        } else {
            None
        }
    }

    /// The range is non-empty and page aligned at both ends, and the bitmap
    /// has a bit for every frame of it.
    pub closed spec fn wf(&self) -> bool {
        &&& self.start < self.end
        &&& page_aligned(self.start as int)
        &&& page_aligned(self.end as int)
        &&& self.bitmap@.len() >= (self.end - self.start) / (PAGE_SIZE as int)
    }

    /// What a well-formed allocator guarantees its callers.
    pub proof fn lemma_wf(&self)
        requires
            self.wf(),
        ensures
            self@.len() == self.frame_total(),
            self.frame_total() > 0,
            self.range_start() < self.range_end(),
            page_aligned(self.range_start() as int),
            page_aligned(self.range_end() as int),
    {
    }

    /// Creates an allocator for the frames of `[start, end)` whose bitmap of
    /// `bitmap_size` bytes lives at `bitmap_addr`; every frame starts free.
    pub fn new(start: u64, end: u64, bitmap_addr: u64, bitmap_size: u64) -> (allocator: Self)
        requires
            start < end,
            page_aligned(start as int),
            page_aligned(end as int),
            bitmap_size > 0,
            page_aligned(bitmap_addr as int),
            (bitmap_size / 8) * 64 >= (end - start) / (PAGE_SIZE as int),
            bitmap_size / 8 <= usize::MAX,
        ensures
            allocator.wf(),
            allocator.range_start() == start,
            allocator.range_end() == end,
            allocator.bitmap_address() == bitmap_addr,
            allocator@.len() == allocator.frame_total(),
            forall|i: int| 0 <= i < allocator@.len() ==> !#[trigger] allocator@[i],
    {
        let bitmap = Bitmap::new(bitmap_addr, bitmap_size);
        FrameAllocator { start, end, bitmap }
    }

    /// Marks every frame free.
    pub fn clear_all(&mut self)
        requires
            old(self).wf(),
        ensures
            final(self).wf(),
            final(self).range_start() == old(self).range_start(),
            final(self).range_end() == old(self).range_end(),
            final(self).bitmap_address() == old(self).bitmap_address(),
            final(self)@.len() == old(self)@.len(),
            forall|i: int| 0 <= i < final(self)@.len() ==> !#[trigger] final(self)@[i],
    {
        self.bitmap.clear_all();
    }

    /// Takes the lowest free frame, marks it used and returns it; `None`,
    /// with nothing changed, when every frame is in use.
    pub fn allocate(&mut self) -> (frame: Option<Frame>)
        requires
            old(self).wf(),
        ensures
            final(self).wf(),
            final(self).range_start() == old(self).range_start(),
            final(self).range_end() == old(self).range_end(),
            final(self).bitmap_address() == old(self).bitmap_address(),
            match first_free(old(self)@) {
                Some(i) => {
                    &&& frame == Some(Frame { start: PhysAddr(old(self).frame_address(i) as u64) })
                    &&& final(self)@ == old(self)@.update(i, true)
                },
                None => frame is None && final(self)@ == old(self)@,
            },
    {
        let frame_count = (self.end - self.start) / PAGE_SIZE;
        let mut index: u64 = 0;
        while index < frame_count
            invariant
                self.wf(),
                self.start == old(self).start,
                self.end == old(self).end,
                self.bitmap@ == old(self).bitmap@,
                self.bitmap.address() == old(self).bitmap.address(),
                frame_count == self.frame_total(),
                index <= frame_count,
                forall|j: int| 0 <= j < index ==> #[trigger] old(self)@[j],
            decreases frame_count - index,
        {
            if !self.bitmap.is_set(index) {
                assert(index * PAGE_SIZE < self.end - self.start);
                let addr = self.start + index * PAGE_SIZE;
                self.bitmap.set(index);
                proof {
                    assert(old(self)@[index as int] == old(self).bitmap@[index as int]);
                    lemma_first_free_is(old(self)@, index as int);
                    assert(self@ =~= old(self)@.update(index as int, true));
                }
                return Some(Frame { start: PhysAddr(addr) });
            }
            index = index + 1;
        }
        proof {
            lemma_first_free_none(old(self)@);
        }
        None
    }

    /// Marks the frame free again; a frame outside the range or not page
    /// aligned is ignored.
    pub fn deallocate(&mut self, frame: Frame)
        requires
            old(self).wf(),
        ensures
            final(self).wf(),
            final(self).range_start() == old(self).range_start(),
            final(self).range_end() == old(self).range_end(),
            final(self).bitmap_address() == old(self).bitmap_address(),
            match old(self).frame_index(frame.start.0 as int) {
                Some(i) => final(self)@ == old(self)@.update(i, false),
                None => final(self)@ == old(self)@,
            },
    {
        if frame.start.0 < self.start || frame.start.0 >= self.end {
            return;
        }
        if !super::is_page_aligned(frame.start.0) {
            return;
        }
        let index = (frame.start.0 - self.start) / PAGE_SIZE;
        self.bitmap.clear(index);
        proof {
            assert(self@ =~= old(self)@.update(index as int, false));
        }
    }

    /// Whether the frame is marked used; `false` for a frame outside the
    /// range or not page aligned.
    pub fn is_allocated(&self, frame: Frame) -> (used: bool)
        requires
            self.wf(),
        ensures
            used == match self.frame_index(frame.start.0 as int) {
                Some(i) => self@[i],
                None => false,
            },
    {
        if frame.start.0 < self.start || frame.start.0 >= self.end {
            return false;
        }
        if !super::is_page_aligned(frame.start.0) {
            return false;
        }
        let index = (frame.start.0 - self.start) / PAGE_SIZE;
        self.bitmap.is_set(index)
    }

    /// Marks used every frame of the range whose address lies in
    /// `[from, to)`; the others keep their state.
    pub fn reserve_range(&mut self, from: u64, to: u64)
        requires
            old(self).wf(),
        ensures
            final(self).wf(),
            final(self).range_start() == old(self).range_start(),
            final(self).range_end() == old(self).range_end(),
            final(self).bitmap_address() == old(self).bitmap_address(),
            final(self)@.len() == old(self)@.len(),
            forall|i: int|
                0 <= i < old(self)@.len() ==> #[trigger] final(self)@[i] == (old(self)@[i] || (from
                    <= old(self).frame_address(i) < to)),
    {
        let frame_count = (self.end - self.start) / PAGE_SIZE;
        let mut index: u64 = 0;
        while index < frame_count
            invariant
                self.wf(),
                self.start == old(self).start,
                self.end == old(self).end,
                self.bitmap.address() == old(self).bitmap.address(),
                frame_count == self.frame_total(),
                frame_count == old(self).frame_total(),
                index <= frame_count,
                self@.len() == frame_count,
                forall|i: int|
                    0 <= i < index ==> #[trigger] self@[i] == (old(self)@[i] || (from
                        <= old(self).frame_address(i) < to)),
                forall|i: int| index <= i < frame_count ==> #[trigger] self@[i] == old(self)@[i],
            decreases frame_count - index,
        {
            assert(index * PAGE_SIZE < self.end - self.start);
            let addr = self.start + index * PAGE_SIZE;
            if from <= addr && addr < to {
                let ghost before = self@;
                self.bitmap.set(index);
                assert(self@ =~= before.update(index as int, true));
            }
            index = index + 1;
        }
    }
}


/// Whether the `count` positions of `used` from `s` on all hold `false`.
pub open spec fn run_free(used: Seq<bool>, s: int, count: int) -> bool {
    &&& 0 <= s
    &&& s + count <= used.len()
    &&& forall|j: int| s <= j < s + count ==> !#[trigger] used[j]
}

/// Whether `s` is the lowest start of `count` free positions.
pub open spec fn is_first_free_run(used: Seq<bool>, count: int, s: int) -> bool {
    &&& run_free(used, s, count)
    &&& forall|t: int| 0 <= t < s ==> !#[trigger] run_free(used, t, count)
}

/// The lowest start of `count` consecutive free positions of `used`, or
/// `None` when there is no such run.
pub open spec fn first_free_run(used: Seq<bool>, count: int) -> Option<int> {
    if exists|s: int| #[trigger] run_free(used, s, count) {
        Some(choose|s: int| is_first_free_run(used, count, s))
    } else {
        None
    }
}

/// `used` with the `count` positions from `s` on set to `value`.
pub open spec fn mark_run(used: Seq<bool>, s: int, count: int, value: bool) -> Seq<bool> {
    Seq::new(used.len(), |i: int| if s <= i < s + count { value } else { used[i] })
}

/// `used`, whose position `i` stands for the frame at `base + i * PAGE_SIZE`,
/// after the frames at `start`, `start + PAGE_SIZE`, ... (`count` of them)
/// have been handed back: a page-aligned `start` frees every such frame of
/// the range, an unaligned one frees none.
pub open spec fn freed(used: Seq<bool>, base: int, start: int, count: int) -> Seq<bool> {
    Seq::new(
        used.len(),
        |i: int|
            used[i] && !(page_aligned(start) && start <= base + i * (PAGE_SIZE as int) < start
                + count * (PAGE_SIZE as int)),
    )
}

/// A free run has a lowest start.
pub proof fn lemma_first_free_run_exists(used: Seq<bool>, count: int, w: int)
    requires
        run_free(used, w, count),
    ensures
        exists|s: int| is_first_free_run(used, count, s),
    decreases w,
{
    if exists|t: int| 0 <= t < w && #[trigger] run_free(used, t, count) {
        let t = choose|t: int| 0 <= t < w && #[trigger] run_free(used, t, count);
        lemma_first_free_run_exists(used, count, t);
    } else {
        assert(is_first_free_run(used, count, w));
    }
}

/// When `first_free_run` names a start, it is the lowest start of a run.
pub proof fn lemma_first_free_run_some(used: Seq<bool>, count: int)
    requires
        first_free_run(used, count) is Some,
    ensures
        is_first_free_run(used, count, first_free_run(used, count)->0),
{
    let w = choose|w: int| #[trigger] run_free(used, w, count);
    lemma_first_free_run_exists(used, count, w);
}

/// `first_free_run` answers the lowest start of `count` consecutive free
/// positions (every window before it holds a taken position), and `None`
/// exactly when every window of `count` positions holds a taken one.
pub proof fn lemma_first_free_run_law(used: Seq<bool>, count: int)
    requires
        count >= 0,
    ensures
        first_free_run(used, count) is None <==> forall|t: int|
            0 <= t && t + count <= used.len() ==> #[trigger] used.subrange(t, t + count).contains(
                true,
            ),
        first_free_run(used, count) matches Some(s) ==> {
            &&& 0 <= s
            &&& s + count <= used.len()
            &&& forall|j: int| s <= j < s + count ==> !#[trigger] used[j]
            &&& forall|t: int| 0 <= t < s ==> #[trigger] used.subrange(t, t + count).contains(true)
        },
{
    assert forall|t: int| 0 <= t && t + count <= used.len() implies (#[trigger] used.subrange(
        t,
        t + count,
    ).contains(true) <==> !run_free(used, t, count)) by {
        let w = used.subrange(t, t + count);
        if !run_free(used, t, count) {
            let j = choose|j: int| t <= j < t + count && #[trigger] used[j];
            assert(w[j - t] == used[j]);
        }
        if w.contains(true) {
            let k = choose|k: int| 0 <= k < w.len() && w[k] == true;
            assert(used[t + k]);
        }
    }
    if first_free_run(used, count) is Some {
        lemma_first_free_run_some(used, count);
        let s = first_free_run(used, count)->0;
        assert(!used.subrange(s, s + count).contains(true));
        assert forall|t: int| 0 <= t < s implies #[trigger] used.subrange(t, t + count).contains(
            true,
        ) by {
            assert(!run_free(used, t, count));
        }
    } else {
        assert forall|t: int| 0 <= t && t + count <= used.len() implies !run_free(
            used,
            t,
            count,
        ) by {
            if run_free(used, t, count) {
                assert(exists|w: int| #[trigger] run_free(used, w, count));
            }
        }
    }
}

/// `first_free_run` names the run that `is_first_free_run` singles out.
pub proof fn lemma_first_free_run_is(used: Seq<bool>, count: int, s: int)
    requires
        is_first_free_run(used, count, s),
    ensures
        first_free_run(used, count) == Some(s),
{
    let c = choose|c: int| is_first_free_run(used, count, c);
    assert(is_first_free_run(used, count, c));
    if c < s {
        assert(!run_free(used, c, count));
    } else if c > s {
        assert(!run_free(used, s, count));
    }
}

impl FrameAllocator {
    /// The first position in `[from, to)` that is in use, or `to`.
    fn first_used_in(&self, from: u64, to: u64) -> (k: u64)
        requires
            self.wf(),
            from <= to <= self.frame_total(),
        ensures
            from <= k <= to,
            forall|j: int| from <= j < k ==> !#[trigger] self@[j],
            k < to ==> self@[k as int],
    {
        let mut k = from;
        while k < to
            invariant
                self.wf(),
                from <= k <= to <= self.frame_total(),
                forall|j: int| from <= j < k ==> !#[trigger] self@[j],
            decreases to - k,
        {
            if self.bitmap.is_set(k) {
                return k;
            }
            k = k + 1;
        }
        k
    }

    /// The lowest start of `count` consecutive free frames.
    fn find_free_run(&self, count: u64) -> (found: Option<u64>)
        requires
            self.wf(),
            count > 0,
        ensures
            match first_free_run(self@, count as int) {
                Some(s) => found == Some(s as u64),
                None => found is None,
            },
            found matches Some(s) ==> is_first_free_run(self@, count as int, s as int),
    {
        let n = (self.end - self.start) / PAGE_SIZE;
        proof {
            self.lemma_wf();
        }
        if count > n {
            assert forall|t: int| !#[trigger] run_free(self@, t, count as int) by {}
            return None;
        }
        let mut s: u64 = 0;
        while s <= n - count
            invariant
                self.wf(),
                n == self.frame_total(),
                n == self@.len(),
                0 < count <= n,
                s <= n,
                forall|t: int| 0 <= t < s ==> !#[trigger] run_free(self@, t, count as int),
            decreases n + 1 - s,
        {
            let k = self.first_used_in(s, s + count);
            if k == s + count {
                proof {
                    lemma_first_free_run_is(self@, count as int, s as int);
                }
                return Some(s);
            }
            assert forall|t: int| 0 <= t < k + 1 implies !#[trigger] run_free(
                self@,
                t,
                count as int,
            ) by {
                if t >= s {
                    assert(self@[k as int]);
                }
            }
            s = k + 1;
        }
        assert forall|t: int| !#[trigger] run_free(self@, t, count as int) by {}
        None
    }

    /// Marks the `count` frames from position `s` on as used.
    fn mark_run_used(&mut self, s: u64, count: u64)
        requires
            old(self).wf(),
            s + count <= old(self).frame_total(),
        ensures
            final(self).wf(),
            final(self).range_start() == old(self).range_start(),
            final(self).range_end() == old(self).range_end(),
            final(self).bitmap_address() == old(self).bitmap_address(),
            final(self)@ == mark_run(old(self)@, s as int, count as int, true),
    {
        let mut k = s;
        while k < s + count
            invariant
                self.wf(),
                self.start == old(self).start,
                self.end == old(self).end,
                self.bitmap.address() == old(self).bitmap.address(),
                s <= k <= s + count <= self.frame_total(),
                self@ == mark_run(old(self)@, s as int, k - s, true),
            decreases s + count - k,
        {
            let ghost before = self@;
            self.bitmap.set(k);
            assert(self@ =~= before.update(k as int, true));
            assert(self@ =~= mark_run(old(self)@, s as int, k + 1 - s, true));
            k = k + 1;
        }
    }
}

/// Owns the frame allocator of the usable RAM and answers the kernel's
/// frame requests.
pub struct PhysicalMemoryManager {
    allocator: FrameAllocator,
}

impl View for PhysicalMemoryManager {
    type V = Seq<bool>;

    closed spec fn view(&self) -> Seq<bool> {
        self.allocator@
    }
}

impl PhysicalMemoryManager {
    /// The frame allocator it manages.
    pub closed spec fn frames(&self) -> FrameAllocator {
        self.allocator
    }

    /// The allocator is well formed and its frames are the manager's view.
    pub open spec fn wf(&self) -> bool {
        &&& self.frames().wf()
        &&& self@ == self.frames()@
    }

    /// Creates the manager for the frames of `[start, end)` with its bitmap
    /// of `bitmap_size` bytes at `bitmap_addr`, every frame free.
    pub fn new(start: u64, end: u64, bitmap_addr: u64, bitmap_size: u64) -> (manager: Self)
        requires
            start < end,
            page_aligned(start as int),
            page_aligned(end as int),
            bitmap_size > 0,
            page_aligned(bitmap_addr as int),
            (bitmap_size / 8) * 64 >= (end - start) / (PAGE_SIZE as int),
            bitmap_size / 8 <= usize::MAX,
        ensures
            manager.wf(),
            manager.frames().range_start() == start,
            manager.frames().range_end() == end,
            manager.frames().bitmap_address() == bitmap_addr,
            manager@.len() == manager.frames().frame_total(),
            forall|i: int| 0 <= i < manager@.len() ==> !#[trigger] manager@[i],
    {
        let mut allocator = FrameAllocator::new(start, end, bitmap_addr, bitmap_size);
        allocator.clear_all();
        PhysicalMemoryManager { allocator }
    }

    /// Takes the lowest free frame (see `FrameAllocator::allocate`).
    pub fn allocate_frame(&mut self) -> (frame: Option<Frame>)
        requires
            old(self).wf(),
        ensures
            final(self).wf(),
            final(self).frames().range_start() == old(self).frames().range_start(),
            final(self).frames().range_end() == old(self).frames().range_end(),
            final(self).frames().bitmap_address() == old(self).frames().bitmap_address(),
            match first_free(old(self)@) {
                Some(i) => {
                    &&& frame == Some(
                        Frame { start: PhysAddr(old(self).frames().frame_address(i) as u64) },
                    )
                    &&& final(self)@ == old(self)@.update(i, true)
                },
                None => frame is None && final(self)@ == old(self)@,
            },
    {
        self.allocator.allocate()
    }

    /// Hands a frame back (see `FrameAllocator::deallocate`).
    pub fn deallocate_frame(&mut self, frame: Frame)
        requires
            old(self).wf(),
        ensures
            final(self).wf(),
            final(self).frames().range_start() == old(self).frames().range_start(),
            final(self).frames().range_end() == old(self).frames().range_end(),
            final(self).frames().bitmap_address() == old(self).frames().bitmap_address(),
            match old(self).frames().frame_index(frame.start.0 as int) {
                Some(i) => final(self)@ == old(self)@.update(i, false),
                None => final(self)@ == old(self)@,
            },
    {
        self.allocator.deallocate(frame);
    }

    /// Marks used every frame whose address lies in `[from, to)`.
    pub fn reserve_range(&mut self, from: u64, to: u64)
        requires
            old(self).wf(),
        ensures
            final(self).wf(),
            final(self).frames().range_start() == old(self).frames().range_start(),
            final(self).frames().range_end() == old(self).frames().range_end(),
            final(self).frames().bitmap_address() == old(self).frames().bitmap_address(),
            final(self)@.len() == old(self)@.len(),
            forall|i: int|
                0 <= i < old(self)@.len() ==> #[trigger] final(self)@[i] == (old(self)@[i] || (from
                    <= old(self).frames().frame_address(i) < to)),
    {
        self.allocator.reserve_range(from, to);
    }

    /// Whether the frame is marked used.
    pub fn is_allocated(&self, frame: Frame) -> (used: bool)
        requires
            self.wf(),
        ensures
            used == match self.frames().frame_index(frame.start.0 as int) {
                Some(i) => self@[i],
                None => false,
            },
    {
        self.allocator.is_allocated(frame)
    }
}

/// `count` consecutive pages starting at `start`.
#[derive(Clone, Copy)]
pub struct PageRange {
    pub start: u64,
    pub count: u64,
}

impl PageRange {
    /// The range of `count` pages from `start`.
    pub fn new(start: u64, count: u64) -> (range: Self)
        ensures
            range.start == start,
            range.count == count,
    {
        PageRange { start, count }
    }

    /// First byte past the range.
    pub fn end(&self) -> (end: u64)
        requires
            self.start + self.count * PAGE_SIZE <= u64::MAX,
        ensures
            end == self.start + self.count * PAGE_SIZE,
    {
        self.start + self.count * PAGE_SIZE
    }

    /// Whether `addr` lies in the range.
    pub fn contains(&self, addr: u64) -> (inside: bool)
        requires
            self.start + self.count * PAGE_SIZE <= u64::MAX,
        ensures
            inside == (self.start <= addr < self.start + self.count * PAGE_SIZE),
    {
        addr >= self.start && addr < self.end()
    }
}

/// Hands out runs of physically contiguous pages from the frames of a
/// `PhysicalMemoryManager`.
pub struct PageAllocator {
    memory: PhysicalMemoryManager,
}

impl View for PageAllocator {
    type V = Seq<bool>;

    closed spec fn view(&self) -> Seq<bool> {
        self.memory@
    }
}

impl PageAllocator {
    /// The frame allocator underneath.
    pub closed spec fn frames(&self) -> FrameAllocator {
        self.memory.frames()
    }

    /// The allocator underneath is well formed and its frames are the page
    /// allocator's view.
    pub open spec fn wf(&self) -> bool {
        &&& self.frames().wf()
        &&& self@ == self.frames()@
    }

    /// A page allocator drawing on `memory`.
    pub fn new(memory: PhysicalMemoryManager) -> (pages: Self)
        ensures
            memory.wf() ==> pages.wf(),
            pages.frames() == memory.frames(),
            pages@ == memory@,
    {
        PageAllocator { memory }
    }

    /// Takes the lowest run of `count` consecutive free frames, marks them
    /// used and returns them as a range; `None`, with nothing changed, when
    /// `count` is zero or no such run exists.
    pub fn allocate(&mut self, count: u64) -> (range: Option<PageRange>)
        requires
            old(self).wf(),
        ensures
            final(self).wf(),
            final(self).frames().range_start() == old(self).frames().range_start(),
            final(self).frames().range_end() == old(self).frames().range_end(),
            final(self).frames().bitmap_address() == old(self).frames().bitmap_address(),
            count == 0 ==> range is None && final(self)@ == old(self)@,
            count > 0 ==> match first_free_run(old(self)@, count as int) {
                Some(s) => {
                    &&& range == Some(
                        PageRange { start: old(self).frames().frame_address(s) as u64, count },
                    )
                    &&& final(self)@ == mark_run(old(self)@, s, count as int, true)
                },
                None => range is None && final(self)@ == old(self)@,
            },
    {
        if count == 0 {
            return None;
        }
        match self.memory.allocator.find_free_run(count) {
            Some(s) => {
                proof {
                    self.memory.allocator.lemma_wf();
                }
                assert(s * PAGE_SIZE < self.memory.allocator.end - self.memory.allocator.start);
                let start = self.memory.allocator.start + s * PAGE_SIZE;
                self.memory.allocator.mark_run_used(s, count);
                Some(PageRange::new(start, count))
            },
            None => None,
        }
    }

    /// Hands back the `count` frames from `start` on, one at a time.
    fn free_run(&mut self, start: u64, count: u64)
        requires
            old(self).wf(),
            count == 0 || start + (count - 1) * PAGE_SIZE <= u64::MAX,
        ensures
            final(self).wf(),
            final(self).frames().range_start() == old(self).frames().range_start(),
            final(self).frames().range_end() == old(self).frames().range_end(),
            final(self).frames().bitmap_address() == old(self).frames().bitmap_address(),
            final(self)@ == freed(
                old(self)@,
                old(self).frames().range_start() as int,
                start as int,
                count as int,
            ),
    {
        let ghost base = self.frames().range_start() as int;
        proof {
            self.memory.allocator.lemma_wf();
            assert(self@ =~= freed(old(self)@, base, start as int, 0));
        }
        let mut offset: u64 = 0;
        while offset < count
            invariant
                self.wf(),
                self@ == self.frames()@,
                self.frames().range_start() == old(self).frames().range_start(),
                self.frames().range_end() == old(self).frames().range_end(),
                self.frames().bitmap_address() == old(self).frames().bitmap_address(),
                base == old(self).frames().range_start(),
                offset <= count,
                count == 0 || start + (count - 1) * PAGE_SIZE <= u64::MAX,
                self@ == freed(old(self)@, base, start as int, offset as int),
            decreases count - offset,
        {
            let addr = start + offset * PAGE_SIZE;
            proof {
                self.memory.allocator.lemma_wf();
            }
            self.memory.deallocate_frame(Frame { start: PhysAddr(addr) });
            proof {
                let next = freed(old(self)@, base, start as int, offset + 1);
                assert forall|i: int| 0 <= i < next.len() implies #[trigger] self@[i] == next[i] by {
                    let fa = base + i * (PAGE_SIZE as int);
                    if page_aligned(start as int) && fa == addr {
                        assert(self.frames().frame_index(addr as int) == Some(i));
                    }
                }
                assert(self@ =~= next);
            }
            offset = offset + 1;
        }
    }

    /// Hands back every frame of `range`.
    pub fn deallocate(&mut self, range: PageRange)
        requires
            old(self).wf(),
            range.count == 0 || range.start + (range.count - 1) * PAGE_SIZE <= u64::MAX,
        ensures
            final(self).wf(),
            final(self).frames().range_start() == old(self).frames().range_start(),
            final(self).frames().range_end() == old(self).frames().range_end(),
            final(self).frames().bitmap_address() == old(self).frames().bitmap_address(),
            final(self)@ == freed(
                old(self)@,
                old(self).frames().range_start() as int,
                range.start as int,
                range.count as int,
            ),
            final(self)@.len() == old(self)@.len(),
            forall|i: int|
                0 <= i < old(self)@.len() && page_aligned(range.start as int) && range.start
                    <= old(self).frames().frame_address(i) < range.start + range.count
                    * PAGE_SIZE ==> !#[trigger] final(self)@[i],
            forall|i: int|
                0 <= i < old(self)@.len() && !(page_aligned(range.start as int) && range.start
                    <= old(self).frames().frame_address(i) < range.start + range.count
                    * PAGE_SIZE) ==> #[trigger] final(self)@[i] == old(self)@[i],
    {
        self.free_run(range.start, range.count);
        proof {
            lemma_freed_range(
                old(self)@,
                old(self).frames().range_start() as int,
                range.start as int,
                range.count as int,
            );
        }
    }
}


/// Every frame the allocator can hand out is page aligned and lies inside
/// its range, and the frame at that address is found again at the same
/// position.
pub proof fn lemma_frame_address_in_range(a: FrameAllocator, i: int)
    requires
        a.wf(),
        0 <= i < a.frame_total(),
    ensures
        page_aligned(a.frame_address(i)),
        a.range_start() <= a.frame_address(i) < a.range_end(),
        a.frame_index(a.frame_address(i)) == Some(i),
{
}

/// Handing back the frame that `allocate` just handed out restores the
/// allocator to the state it had before the allocation.
pub proof fn lemma_allocate_then_deallocate(a: FrameAllocator)
    requires
        a.wf(),
        first_free(a@) is Some,
    ensures
        ({
            let i = first_free(a@)->0;
            &&& !a@[i]
            &&& a.frame_index((a.frame_address(i) as u64) as int) == Some(i)
            &&& a@.update(i, true).update(i, false) == a@
        }),
{
    lemma_first_free_some(a@);
    let i = first_free(a@)->0;
    lemma_frame_address_in_range(a, i);
    assert(a@.update(i, true).update(i, false) =~= a@);
}

/// Handing back a page-aligned range frees every frame whose address lies
/// in it, whatever state the frames around it are in, and leaves every
/// other frame as it was; an unaligned start frees nothing.
pub proof fn lemma_freed_range(used: Seq<bool>, base: int, start: int, count: int)
    ensures
        freed(used, base, start, count).len() == used.len(),
        forall|i: int|
            0 <= i < used.len() && page_aligned(start) && start <= base + i * (PAGE_SIZE as int)
                < start + count * (PAGE_SIZE as int) ==> !#[trigger] freed(
                used,
                base,
                start,
                count,
            )[i],
        forall|i: int|
            0 <= i < used.len() && !(page_aligned(start) && start <= base + i * (PAGE_SIZE as int)
                < start + count * (PAGE_SIZE as int)) ==> #[trigger] freed(used, base, start, count)[i]
                == used[i],
        !page_aligned(start) ==> freed(used, base, start, count) == used,
{
    if !page_aligned(start) {
        assert(freed(used, base, start, count) =~= used);
    }
}

/// Handing back the range that `PageAllocator::allocate` just handed out
/// restores every frame to the state it had before the allocation.
pub proof fn lemma_allocate_run_then_deallocate(used: Seq<bool>, base: int, count: int)
    requires
        page_aligned(base),
        count > 0,
        first_free_run(used, count) is Some,
    ensures
        ({
            let s = first_free_run(used, count)->0;
            freed(mark_run(used, s, count, true), base, base + s * (PAGE_SIZE as int), count)
                == used
        }),
{
    lemma_first_free_run_some(used, count);
    let s = first_free_run(used, count)->0;
    let start = base + s * (PAGE_SIZE as int);
    let after = freed(mark_run(used, s, count, true), base, start, count);
    assert forall|i: int| 0 <= i < used.len() implies #[trigger] after[i] == used[i] by {
        assert((start <= base + i * (PAGE_SIZE as int) < start + count * (PAGE_SIZE as int)) == (s
            <= i < s + count));
        assert(page_aligned(start));
    }
    assert(after =~= used);
}

/// The frames of a fresh allocator of `n` frames after `k` allocations:
/// the first `k` in use, the rest free.
pub open spec fn first_k_used(n: nat, k: int) -> Seq<bool> {
    Seq::new(n, |i: int| i < k)
}

/// Successive allocations from a fresh allocator (every frame free, which
/// is `first_k_used(n, 0)`) hand out every frame once, in address order:
/// after `k` allocations the `(k + 1)`-th takes position `k`, that is the
/// frame at `frame_address(k)`, and leaves the first `k + 1` frames in use;
/// once all `n` are in use, allocation answers `None`.
pub proof fn lemma_fresh_allocations(n: nat, k: int)
    requires
        0 <= k <= n,
    ensures
        forall|i: int| 0 <= i < n ==> !#[trigger] first_k_used(n, 0)[i],
        k < n ==> first_free(first_k_used(n, k)) == Some(k),
        k < n ==> first_k_used(n, k).update(k, true) == first_k_used(n, k + 1),
        k == n ==> first_free(first_k_used(n, k)) is None,
{
    if k < n {
        lemma_first_free_is(first_k_used(n, k), k);
        assert(first_k_used(n, k).update(k, true) =~= first_k_used(n, k + 1));
    } else {
        lemma_first_free_none(first_k_used(n, k));
    }
}

/// Bytes taken by a bitmap word.
pub const WORD_BYTES: u64 = 8;

/// Bytes of bitmap needed for `frame_count` frames: one bit per frame,
/// rounded up to whole 64-bit words.
pub open spec fn spec_bitmap_size(frame_count: int) -> int {
    ((frame_count + 63) / 64) * (WORD_BYTES as int)
}

/// First page boundary at or after the end of a bitmap for `frame_count`
/// frames placed at `start`.
pub open spec fn spec_bitmap_end(start: int, frame_count: int) -> int {
    page_round_up(start + spec_bitmap_size(frame_count))
}

/// Size in bytes of the bitmap for `frame_count` frames.
pub fn bitmap_size(frame_count: u64) -> (size: u64)
    requires
        frame_count + 63 <= u64::MAX,
    ensures
        size == spec_bitmap_size(frame_count as int),
        (size / 8) * 64 >= frame_count,
        size % 8 == 0,
        size >= 8 ==> (size / 8 - 1) * 64 < frame_count,
{
    let words = (frame_count + 63) / 64;
    words * WORD_BYTES
}

/// The page-aligned end of the bitmap for `frame_count` frames placed at
/// `start`: the first address that the allocator may hand out.
pub fn bitmap_end(start: u64, frame_count: u64) -> (end: u64)
    requires
        frame_count + 63 <= u64::MAX,
        start + spec_bitmap_size(frame_count as int) + PAGE_SIZE - 1 <= u64::MAX,
    ensures
        end == spec_bitmap_end(start as int, frame_count as int),
        page_aligned(end as int),
        start + spec_bitmap_size(frame_count as int) <= end,
        end < start + spec_bitmap_size(frame_count as int) + PAGE_SIZE,
{
    let size = bitmap_size(frame_count);
    super::align_up(start + size, PAGE_SIZE)
}

} // verus!
