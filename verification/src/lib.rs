//! Verified core of the Lych ARM64 kernel: exception decoding, serial output
//! encoding, physical memory layout, the bitmap frame allocator, the bump
//! heap and the stage-1 page-table helpers.

pub mod cpu;
pub mod exception;
pub mod uart;
pub mod memory;
pub mod platform;
