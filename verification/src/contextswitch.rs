//! The register file a context switch saves and restores. The naked stub
//! that pushes these values lives with the embedding kernel; the layout and
//! the initial state of a fresh context are decided here.
use vstd::prelude::*;
use crate::gdt::GdtInformation;
use crate::gdt::INTERRUPT_STACK_SIZE;

verus! {

/// The full register file, in the order the context-switch stub stacks it.
#[derive(Debug, Clone, Copy, PartialEq, Eq, Structural)]
pub struct RegisterState {
    pub cr2: u64,
    pub cr3: u64,
    pub rax: u64,
    pub rbx: u64,
    pub rcx: u64,
    pub rdx: u64,
    pub rsi: u64,
    pub rdi: u64,
    pub rbp: u64,
    pub r8: u64,
    pub r9: u64,
    pub r10: u64,
    pub r11: u64,
    pub r12: u64,
    pub r13: u64,
    pub r14: u64,
    pub r15: u64,
    pub rip: u64,
    pub cs: u64,
    pub rflags: u64,
    pub rsp: u64,
    pub ss: u64,
}

impl RegisterState {
    /// The all-zero register file a fresh context starts from.
    pub fn zeroed() -> (r: RegisterState)
        ensures
            r.cr2 == 0 && r.cr3 == 0 && r.rax == 0 && r.rbx == 0 && r.rcx == 0 && r.rdx == 0
                && r.rsi == 0 && r.rdi == 0 && r.rbp == 0 && r.r8 == 0 && r.r9 == 0 && r.r10 == 0
                && r.r11 == 0 && r.r12 == 0 && r.r13 == 0 && r.r14 == 0 && r.r15 == 0 && r.rip == 0
                && r.cs == 0 && r.rflags == 0 && r.rsp == 0 && r.ss == 0,
    {
        RegisterState {
            cr2: 0,
            cr3: 0,
            rax: 0,
            rbx: 0,
            rcx: 0,
            rdx: 0,
            rsi: 0,
            rdi: 0,
            rbp: 0,
            r8: 0,
            r9: 0,
            r10: 0,
            r11: 0,
            r12: 0,
            r13: 0,
            r14: 0,
            r15: 0,
            rip: 0,
            cs: 0,
            rflags: 0,
            rsp: 0,
            ss: 0,
        }
    }
}

/// Everything a suspended context carries: registers, and the lazily-saved
/// SSE and interrupt-stack images.
#[derive(Debug, Clone, Copy)]
pub struct PlatformContextState {
    pub registers: RegisterState,
    pub sse: Option<[u8; 512]>,
    pub tss: Option<[u8; INTERRUPT_STACK_SIZE]>,
}

impl PlatformContextState {
    /// A fresh user context: zeroed registers except the code and stack
    /// segments, which index this CPU's user descriptors.
    pub fn new(gdt: &GdtInformation) -> (r: Self)
        ensures
            r.registers.cs == gdt.spec_user_code_selector() / 8,
            r.registers.ss == gdt.spec_user_data_selector() / 8,
            r.registers.rip == 0,
            r.registers.rsp == 0,
            r.sse is None,
            r.tss is None,
    {
        let cs = (gdt.get_user_code_segment() / 8) as u64;
        let ss = (gdt.get_user_data_segment() / 8) as u64;
        let mut registers = RegisterState::zeroed();
        registers.cs = cs;
        registers.ss = ss;
        PlatformContextState { registers, sse: None, tss: None }
    }
}

} // verus!
