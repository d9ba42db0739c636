# lych

The verified core of the Lych ARM64 kernel, written in Verus.

- `src/exception.rs` – decoding of exception syndromes, fault status codes and
  saved program status, and the decisions the exception handler takes.
- `src/uart.rs` – the byte stream the serial console sends for a string.
- `src/cpu.rs` – the values written into MAIR_EL1, TCR_EL1 and CPACR_EL1.
- `src/platform.rs` – the RAM and UART layout of QEMU `virt`.
- `src/memory.rs` – addresses, frames, the usable RAM region and the
  placement of the frame bitmap; the check of the identity-mapped tables.
- `src/memory/allocator.rs` – the bitmap, the frame allocator, the physical
  memory manager and the contiguous page allocator.
- `src/memory/heap.rs` – the bump allocator of the kernel heap.
- `src/memory/mmu.rs` – translation-table layout, address indexing and
  descriptor encoding.

`app/` holds what runs only on the hardware: system-register access, the
UART registers, the linker symbols, the global frame manager and the entry
points called from assembly.
