//! A bump allocator over a fixed kernel heap region.

use vstd::prelude::*;

use super::is_power_of_two;

verus! {

/// A non-zero word with a single bit set is a power of two.
proof fn lemma_single_bit_is_power_of_two(n: usize)
    requires
        n != 0,
        n & (n - 1) as usize == 0,
    ensures
        is_power_of_two(n as int),
    decreases n,
{
    if n == 1 {
        vstd::arithmetic::power2::lemma2_to64();
        assert(vstd::arithmetic::power2::pow2(0) == 1);
    } else {
        let m = n >> 1;
        assert(m != 0 && m & (m - 1) as usize == 0 && n == m * 2 && m < n) by (bit_vector)
            requires
                n != 0,
                n != 1,
                n & (n - 1) as usize == 0,
                m == n >> 1,
        ;
        lemma_single_bit_is_power_of_two(m);
        let k = choose|k: nat| vstd::arithmetic::power2::pow2(k) == m;
        vstd::arithmetic::power2::lemma_pow2_unfold(k + 1);
        assert(vstd::arithmetic::power2::pow2(k + 1) == n);
    }
}

/// Whether `n` is a power of two: `usize::is_power_of_two` (true exactly
/// when `n == 2^k` for some `k`), computed as "non-zero with a single bit
/// set".
fn usize_is_power_of_two(n: usize) -> (r: bool)
    ensures
        r == is_power_of_two(n as int),
{
    let r = n != 0 && n & (n - 1) == 0;
    proof {
        if r {
            lemma_single_bit_is_power_of_two(n);
        } else if is_power_of_two(n as int) {
            let k = lemma_usize_pow2_shift(n);
            assert(n != 0 && n & (n - 1) as usize == 0) by (bit_vector)
                requires
                    k < usize::BITS,
                    n == 1usize << k,
            ;
        }
    }
    r
}

/// The least multiple of `a` at or above `x` (for `a > 0`).
pub open spec fn round_up(x: int, a: int) -> int {
    x + (a - x % a) % a
}

/// The facts about a power of two `a <= usize::MAX` that rounding up needs.
proof fn lemma_usize_pow2_shift(a: usize) -> (k: usize)
    requires
        is_power_of_two(a as int),
    ensures
        k < usize::BITS,
        a == 1usize << k,
        a == vstd::arithmetic::power2::pow2(k as nat),
        a - 1 == vstd::bits::low_bits_mask(k as nat),
{
    let n = choose|n: nat| vstd::arithmetic::power2::pow2(n) == a as int;
    if n >= usize::BITS {
        vstd::arithmetic::power2::lemma2_to64();
        vstd::arithmetic::power2::lemma2_to64_rest();
        if n > usize::BITS {
            vstd::arithmetic::power2::lemma_pow2_strictly_increases(usize::BITS as nat, n);
        }
        assert(false);
    }
    let k = n as usize;
    vstd::bits::lemma_usize_pow2_no_overflow(n);
    vstd::bits::lemma_usize_shl_is_mul(1, k);
    k
}

/// The only multiple of `a` in `[x, x + a)` is `round_up(x, a)`.
pub proof fn lemma_round_up_unique(x: int, a: int, r: int)
    requires
        a > 0,
        r % a == 0,
        x <= r < x + a,
    ensures
        r == round_up(x, a),
{
    vstd::arithmetic::div_mod::lemma_fundamental_div_mod(x, a);
    vstd::arithmetic::div_mod::lemma_fundamental_div_mod(r, a);
    let q = x / a;
    let p = r / a;
    assert(x == a * q + x % a);
    assert(r == a * p);
    if x % a == 0 {
        vstd::arithmetic::div_mod::lemma_mod_self_0(a);
        assert(a * q <= a * p < a * q + a);
        assert(p == q) by (nonlinear_arith)
            requires
                a > 0,
                a * q <= a * p < a * q + a,
        ;
    } else {
        assert(a * q < a * p < a * q + 2 * a);
        assert(p == q + 1) by (nonlinear_arith)
            requires
                a > 0,
                a * q < a * p < a * q + 2 * a,
        ;
        assert((a - x % a) % a == a - x % a) by {
            vstd::arithmetic::div_mod::lemma_small_mod((a - x % a) as nat, a as nat);
        }
        assert(a * (q + 1) == a * q + a) by (nonlinear_arith);
    }
}

/// Rounds `value` up to a multiple of `align`: `None` when `align` is not
/// a power of two or when `value + align - 1` overflows.
fn align_up(value: usize, align: usize) -> (aligned: Option<usize>)
    ensures
        aligned is Some <==> (is_power_of_two(align as int) && value + align - 1 <= usize::MAX),
        aligned matches Some(r) ==> {
            &&& r == round_up(value as int, align as int)
            &&& r % align == 0
            &&& value <= r < value + align
        },
{
    if align == 0 || !usize_is_power_of_two(align) {
        proof {
            if align == 0 && is_power_of_two(0) {
                let n = choose|n: nat| vstd::arithmetic::power2::pow2(n) == 0;
                vstd::arithmetic::power2::lemma_pow2_pos(n);
            }
        }
        return None;
    }
    let mask = align - 1;
    match value.checked_add(mask) {
        Some(v) => {
            let r = v & !mask;
            proof {
                let k = lemma_usize_pow2_shift(align);
                assert((v & !mask) & mask == 0 && value <= (v & !mask) && (v & !mask) <= v)
                    by (bit_vector)
                    requires
                        k < usize::BITS,
                        align == 1usize << k,
                        mask == (align - 1) as usize,
                        v == value + mask,
                ;
                vstd::bits::lemma_usize_low_bits_mask_is_mod(r, k as nat);
                lemma_round_up_unique(value as int, align as int, r as int);
            }
            Some(r)
        },
        None => None,
    }
}

/// Where `size` bytes aligned to `align` go in a heap whose next free byte
/// is `next` and whose end is `end`: the first multiple of `align` at or
/// above `next`; `None` for an empty request, an alignment that is not a
/// power of two, or when the block would not fit.
pub open spec fn spec_allocation(next: int, end: int, size: int, align: int) -> Option<int> {
    if size > 0 && is_power_of_two(align) && next + align - 1 <= usize::MAX && round_up(
        next,
        align,
    ) + size <= end {
        Some(round_up(next, align))
    } else {
        None
    }
}

/// A block the heap hands out is aligned as asked, starts at or after the
/// first free byte, so that it never overlaps an earlier block, and ends
/// inside the heap.
pub proof fn lemma_allocation_fits(next: int, end: int, size: int, align: int)
    requires
        spec_allocation(next, end, size, align) is Some,
    ensures
        ({
            let p = spec_allocation(next, end, size, align)->0;
            &&& p % align == 0
            &&& next <= p < next + align
            &&& p + size <= end
        }),
{
    let n = choose|n: nat| vstd::arithmetic::power2::pow2(n) == align;
    vstd::arithmetic::power2::lemma_pow2_pos(n);
    vstd::arithmetic::div_mod::lemma_mod_bound(next, align);
    vstd::arithmetic::div_mod::lemma_mod_bound(align - next % align, align);
    let p = round_up(next, align);
    if next % align == 0 {
        vstd::arithmetic::div_mod::lemma_mod_self_0(align);
        assert(p == next);
    } else {
        vstd::arithmetic::div_mod::lemma_small_mod((align - next % align) as nat, align as nat);
        assert(p == next + align - next % align);
        vstd::arithmetic::div_mod::lemma_fundamental_div_mod(next, align);
        assert(p == align * (next / align) + align);
        assert(p == align * (next / align + 1)) by (nonlinear_arith)
            requires
                p == align * (next / align) + align,
        ;
        vstd::arithmetic::div_mod::lemma_mod_multiples_basic(next / align + 1, align);
        assert((next / align + 1) * align == align * (next / align + 1)) by (nonlinear_arith);
    }
}

/// The heap refuses a request only when it cannot place it: for a non-empty
/// request with a power-of-two alignment whose rounding does not overflow,
/// if the first multiple `r` of `align` at or above `next` leaves room for
/// `size` bytes before `end`, the block goes exactly at `r`.
pub proof fn lemma_allocation_when_it_fits(next: int, end: int, size: int, align: int, r: int)
    requires
        size > 0,
        is_power_of_two(align),
        next + align - 1 <= usize::MAX,
        r % align == 0,
        next <= r < next + align,
        r + size <= end,
    ensures
        spec_allocation(next, end, size, align) == Some(r),
{
    let n = choose|n: nat| vstd::arithmetic::power2::pow2(n) == align;
    vstd::arithmetic::power2::lemma_pow2_pos(n);
    lemma_round_up_unique(next, align, r);
}

/// An empty request, or an alignment that is not a power of two, is refused.
pub proof fn lemma_allocation_refusals(next: int, end: int, size: int, align: int)
    ensures
        size <= 0 ==> spec_allocation(next, end, size, align) is None,
        !is_power_of_two(align) ==> spec_allocation(next, end, size, align) is None,
{
}

/// What the heap has handed out and what it has left add up to its size.
pub proof fn lemma_used_plus_remaining(heap: KernelHeap)
    requires
        heap.wf(),
    ensures
        (heap.heap_next() - heap.heap_start()) + (heap.heap_end() - heap.heap_next())
            == heap.heap_end() - heap.heap_start(),
{
}

/// A bump allocator over `[start, end)`: blocks are handed out in address
/// order from `next` on and never reclaimed.
pub struct KernelHeap {
    start: usize,
    end: usize,
    next: usize,
}

impl KernelHeap {
    /// First byte of the heap.
    pub closed spec fn heap_start(&self) -> usize {
        self.start
    }

    /// First byte past the heap.
    pub closed spec fn heap_end(&self) -> usize {
        self.end
    }

    /// First byte not yet handed out.
    pub closed spec fn heap_next(&self) -> usize {
        self.next
    }

    /// The bytes handed out form a prefix of the heap.
    pub open spec fn wf(&self) -> bool {
        self.heap_start() <= self.heap_next() <= self.heap_end()
    }

    /// An empty heap at address zero.
    pub fn new() -> (heap: Self)
        ensures
            heap.wf(),
            heap.heap_start() == 0,
            heap.heap_end() == 0,
            heap.heap_next() == 0,
    {
        KernelHeap { start: 0, end: 0, next: 0 }
    }

    /// Places the heap over `[start, start + size)`, with nothing handed out.
    pub fn init(&mut self, start: usize, size: usize)
        requires
            size > 0,
            start + size <= usize::MAX,
        ensures
            final(self).wf(),
            final(self).heap_start() == start,
            final(self).heap_end() == start + size,
            final(self).heap_next() == start,
    {
        self.start = start;
        self.end = start + size;
        self.next = start;
    }

    /// Hands out `size` bytes aligned to `align` at the first suitable
    /// address from `next` on and moves `next` past them; `None`, with
    /// nothing changed, when `spec_allocation` has no room for the request.
    pub fn allocate(&mut self, size: usize, align: usize) -> (block: Option<usize>)
        requires
            old(self).wf(),
        ensures
            final(self).wf(),
            final(self).heap_start() == old(self).heap_start(),
            final(self).heap_end() == old(self).heap_end(),
            match spec_allocation(
                old(self).heap_next() as int,
                old(self).heap_end() as int,
                size as int,
                align as int,
            ) {
                Some(p) => block == Some(p as usize) && final(self).heap_next() == p + size,
                None => block is None && final(self).heap_next() == old(self).heap_next(),
            },
            size > 0 && is_power_of_two(align as int) && old(self).heap_next() + align - 1
                <= usize::MAX && round_up(old(self).heap_next() as int, align as int) + size
                <= old(self).heap_end() ==> block == Some(
                round_up(old(self).heap_next() as int, align as int) as usize,
            ),
            block is Some ==> ({
                let p = block->0;
                &&& size > 0
                &&& p % align == 0
                &&& old(self).heap_next() <= p < old(self).heap_next() + align
                &&& p + size <= old(self).heap_end()
            }),
    {
        proof {
            let (next, end) = (old(self).heap_next() as int, old(self).heap_end() as int);
            if spec_allocation(next, end, size as int, align as int) is Some {
                lemma_allocation_fits(next, end, size as int, align as int);
            }
        }
        if size == 0 {
            return None;
        }
        let aligned_start = match align_up(self.next, align) {
            Some(a) => a,
            None => {
                return None;
            },
        };
        let allocation_end = match aligned_start.checked_add(size) {
            Some(e) => e,
            None => {
                return None;
            },
        };
        if allocation_end > self.end {
            return None;
        }
        self.next = allocation_end;
        Some(aligned_start)
    }

    /// Bytes handed out so far.
    pub fn used(&self) -> (used: usize)
        requires
            self.wf(),
        ensures
            used == self.heap_next() - self.heap_start(),
    {
        self.next - self.start
    }

    /// Bytes not yet handed out.
    pub fn remaining(&self) -> (remaining: usize)
        requires
            self.wf(),
        ensures
            remaining == self.heap_end() - self.heap_next(),
    {
        self.end - self.next
    }
}

} // verus!
