use vstd::prelude::*;

verus! {

/// First byte of RAM on QEMU `virt`.
pub const RAM_BASE: u64 = 0x4000_0000;

/// Amount of RAM the kernel is given: 128 MiB.
pub const RAM_SIZE: u64 = 0x0800_0000;

/// First byte past the end of RAM.
pub const RAM_END: u64 = 0x4800_0000;

/// Base address of the PL011 UART.
pub const UART_BASE: u64 = 0x0900_0000;

/// Size of a block mapped by a level 2 descriptor: 2 MiB.
pub const BLOCK_SIZE: u64 = 0x20_0000;

/// Number of 2 MiB blocks that cover RAM.
pub const RAM_BLOCK_COUNT: usize = 64;

/// Level 2 entry that maps the UART's block (`UART_BASE / BLOCK_SIZE`).
pub const UART_L2_INDEX: usize = 72;

} // verus!
