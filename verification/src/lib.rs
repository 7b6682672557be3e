//! Core logic of a bare-metal x86_64 kernel's boot-to-multiprocessor pipeline:
//! physical frame tracking, virtual address-space management, kernel heap
//! growth, interrupt dispatch tables, timer calibration, and the
//! application-processor startup handshake. Hardware access (port I/O, MSRs,
//! MMIO, privileged instructions) is left to the embedding kernel; this crate
//! holds the decisions and the book-keeping, with their contracts.

pub mod addr;
pub mod apic;
pub mod bits;
pub mod contextswitch;
pub mod cpu;
pub mod devices;
pub mod errors;
pub mod frame_allocator;
pub mod gdt;
pub mod heap;
pub mod idt;
pub mod klib;
pub mod memory_invariants;
pub mod memory_manager;
pub mod page_allocator;
pub mod page_tracker;
pub mod process;
pub mod shared;
pub mod syscall;
pub mod timer;
