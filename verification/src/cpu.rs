//! Values the CPU set-up writes into the EL1 system registers, and the
//! decoding of the ones it reads.

use vstd::prelude::*;

verus! {

/// MAIR attribute 0: Device-nGnRnE memory.
pub const MAIR_ATTR_DEVICE_NGNRNE: u64 = 0x00;

/// MAIR attribute 1: normal memory, write-back write-allocate.
pub const MAIR_ATTR_NORMAL_WBWA: u64 = 0xFF;

/// MAIR_EL1: attribute 0 (`ATTR_DEVICE`) is Device-nGnRnE memory, attribute 1
/// (`ATTR_NORMAL`) normal write-back write-allocate memory.
pub const MAIR_EL1_VALUE: u64 = MAIR_ATTR_DEVICE_NGNRNE | (MAIR_ATTR_NORMAL_WBWA << 8);

/// TCR_EL1.T0SZ = 16: a 48-bit virtual address space.
pub const TCR_T0SZ: u64 = 16;

/// TCR_EL1.IRGN0: inner write-back write-allocate cacheable walks.
pub const TCR_IRGN0_WBWA: u64 = 1 << 8;

/// TCR_EL1.ORGN0: outer write-back write-allocate cacheable walks.
pub const TCR_ORGN0_WBWA: u64 = 1 << 10;

/// TCR_EL1.SH0: inner shareable walks.
pub const TCR_SH0_INNER: u64 = 3 << 12;

/// TCR_EL1.TG0 = 0: 4 KiB granule.
pub const TCR_TG0_4K: u64 = 0;

/// TCR_EL1.IPS = 2: a 40-bit physical address space.
pub const TCR_IPS_40BIT: u64 = 2 << 32;

/// The TCR_EL1 value the kernel installs: the union of the fields above.
pub const TCR_EL1_VALUE: u64 = TCR_T0SZ | TCR_IRGN0_WBWA | TCR_ORGN0_WBWA | TCR_SH0_INNER | TCR_TG0_4K
    | TCR_IPS_40BIT;

/// CPACR_EL1.FPEN = 0b11: FP and SIMD instructions do not trap.
pub const CPACR_FPEN: u64 = 3 << 20;

/// The current exception level held in a raw CurrentEL value (bits 3:2).
pub fn current_el(raw: u64) -> (el: u64)
    ensures
        el == raw / 4,
{
    assert(raw >> 2u64 == raw / 4) by (bit_vector);
    raw >> 2
}

/// The CPACR_EL1 value that enables FP and SIMD at EL1: `cpacr` with the
/// FPEN field set and every other bit kept.
pub fn enable_fp_simd(cpacr: u64) -> (value: u64)
    ensures
        value == cpacr | CPACR_FPEN,
{
    cpacr | CPACR_FPEN
}

} // verus!
