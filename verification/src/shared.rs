//! Types shared between the kernel and its future user-space: syscall
//! numbers, handles, and the inter-process call envelopes. Data only; the
//! transports around them live with the embedding kernel.
use vstd::prelude::*;
use crate::memory_manager::MemoryManagerError;

verus! {

/// Bytes in one machine word on this platform.
pub const ARCH_WORD_SIZE: usize = 8;

#[derive(Debug, Clone, Copy, PartialEq, Eq, Structural)]
pub enum SyscallNumber {
    Invalid,
    ContextSwitch,
    AllocatePage,
    AllocatePageRange,
}

/// A capability handle: which object, on which server, for which process.
#[derive(Debug, Clone, Copy, PartialEq, Eq, Structural)]
pub struct Handle {
    pub identifier: usize,
    pub server_process: usize,
    pub process: usize,
}

/// A server's identity.
#[derive(Debug, Clone, Copy, PartialEq, Eq, Structural)]
pub struct Server(pub u128);

/// The address of a block of inter-process data, as a plain machine word.
#[derive(Debug, Clone, Copy, PartialEq, Eq, Structural)]
pub struct InterProcessData(pub usize);

/// Which server and which of its functions a call addresses.
#[derive(Debug, Clone, Copy, PartialEq, Eq, Structural)]
pub struct InterProcessCallMetadata {
    pub server: Server,
    pub function: u16,
}

/// A call: its addressing metadata and where its parameters sit.
#[derive(Debug, Clone, Copy, PartialEq, Eq, Structural)]
pub struct InterProcessCall {
    pub metadata: InterProcessCallMetadata,
    pub parameters_address: InterProcessData,
}

/// A call's result: the same metadata and where the result sits.
#[derive(Debug, Clone, Copy, PartialEq, Eq, Structural)]
pub struct InterProcessResult {
    pub metadata: InterProcessCallMetadata,
    pub result_address: InterProcessData,
}

#[derive(Clone, Copy, Debug, PartialEq, Eq, Structural)]
pub enum DeviceClass {
    Unknown,
    Kernel,
}

/// What every driver can say about itself.
pub trait Driver {
    fn name(&self) -> &'static str;
}

/// What a memory manager offers the rest of the kernel; implemented by the
/// platform layer over [`crate::memory_manager::PlatformVirtualMemoryManager`]
/// and the allocators. Addresses cross this boundary as plain words.
pub trait VirtualMemoryManager {
    fn heap_alloc(&mut self, size: usize, zero: bool) -> Result<usize, MemoryManagerError>;

    fn heap_free(&mut self, address: usize, size: usize);

    fn page_alloc(&mut self, count: usize, zero: bool) -> Result<usize, MemoryManagerError>;

    fn page_free(&mut self, pages_start: usize, count: usize);

    fn physical_page_alloc(&mut self, physical_address: usize, zero: bool) -> Result<
        usize,
        MemoryManagerError,
    >;
}

} // verus!
