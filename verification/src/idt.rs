//! Interrupt dispatch: the software-interrupt handler table behind the
//! fixed exception vectors, the timer tick counter, and what the spurious
//! handler does. Handlers are named by opaque tokens; the embedding kernel
//! maps tokens to routines and performs the actual dispatch.
use vstd::prelude::*;
use vstd::wrapping::u64_specs;
use crate::apic::AdvancedProgrammableInterruptController;
use crate::apic::ApicAccess;

verus! {

/// Vector base the first 8259 PIC is remapped to before being masked.
pub const PIC_1_OFFSET: u8 = 32;

/// Vector base of the second PIC: eight above the first.
pub const PIC_2_OFFSET: u8 = PIC_1_OFFSET + 8;

/// Vectors 32 to 255 dispatch through the software table.
pub const SOFTWARE_HANDLER_SLOTS: usize = 224;

pub const APIC_TIMER_VECTOR: u8 = 0x20;

pub const LEGACY_SYSCALL_VECTOR: u8 = 0x80;

pub const CONTEXT_SWITCH_VECTOR: u8 = 0xFE;

pub const SPURIOUS_INTERRUPT_VECTOR: u8 = 0xFF;

#[derive(Clone, Copy, Debug, PartialEq, Eq, Structural)]
pub enum InterruptError {
    /// Vectors below 32 belong to CPU exceptions and cannot carry a
    /// software handler.
    ReservedVector,
}

/// What the general dispatcher does with a vector.
#[derive(Clone, Copy, Debug, PartialEq, Eq, Structural)]
pub enum DispatchDecision {
    /// Run the handler registered under this token.
    Invoke(u64),
    /// No handler: log a warning and return.
    Unhandled,
}

/// The 224-slot table behind vectors 32 to 255. A slot holds the token of
/// the handler the embedding kernel registered, or nothing.
pub struct SoftwareInterruptTable {
    handlers: Vec<Option<u64>>,
}

impl View for SoftwareInterruptTable {
    type V = Seq<Option<u64>>;

    closed spec fn view(&self) -> Seq<Option<u64>> {
        self.handlers@
    }
}

impl SoftwareInterruptTable {
    /// A table with every slot empty.
    pub fn new() -> (r: SoftwareInterruptTable)
        ensures
            r@.len() == SOFTWARE_HANDLER_SLOTS,
            forall|i: int| 0 <= i < r@.len() ==> r@[i] is None,
    {
        let mut handlers: Vec<Option<u64>> = Vec::new();
        let mut i: usize = 0;
        while i < SOFTWARE_HANDLER_SLOTS
            invariant
                0 <= i <= SOFTWARE_HANDLER_SLOTS,
                handlers@.len() == i,
                forall|j: int| 0 <= j < i ==> handlers@[j] is None,
            decreases SOFTWARE_HANDLER_SLOTS - i,
        {
            handlers.push(None);
            i = i + 1;
        }
        SoftwareInterruptTable { handlers }
    }

    /// Install (or clear, with `None`) the handler of a software vector.
    /// A hardware-exception vector, below 32, is refused.
    pub fn set_interrupt_handler(&mut self, interrupt: u8, handler: Option<u64>) -> (r: Result<
        (),
        InterruptError,
    >)
        requires
            old(self)@.len() == SOFTWARE_HANDLER_SLOTS,
        ensures
            final(self)@.len() == old(self)@.len(),
            match r {
                Ok(()) => {
                    &&& interrupt >= 32
                    &&& final(self)@ == old(self)@.update(interrupt - 32, handler)
                },
                Err(InterruptError::ReservedVector) => {
                    &&& interrupt < 32
                    &&& final(self)@ == old(self)@
                },
            },
    {
        if interrupt < 32 {
            return Err(InterruptError::ReservedVector);
        }
        let index = (interrupt - 32) as usize;
        self.handlers[index] = handler;
        Ok(())
    }

    /// Clear the handler of a software vector.
    pub fn clear_interrupt_handler(&mut self, interrupt: u8) -> (r: Result<(), InterruptError>)
        requires
            old(self)@.len() == SOFTWARE_HANDLER_SLOTS,
        ensures
            final(self)@.len() == old(self)@.len(),
            match r {
                Ok(()) => {
                    &&& interrupt >= 32
                    &&& final(self)@ == old(self)@.update(interrupt - 32, None::<u64>)
                },
                Err(InterruptError::ReservedVector) => {
                    &&& interrupt < 32
                    &&& final(self)@ == old(self)@
                },
            },
    {
        self.set_interrupt_handler(interrupt, None)
    }

    /// The handler token of a software vector, if one is installed.
    pub fn try_get_handler(&self, interrupt: u8) -> (r: Option<u64>)
        requires
            self@.len() == SOFTWARE_HANDLER_SLOTS,
            interrupt >= 32,
        ensures
            r == self@[interrupt - 32],
    {
        self.handlers[(interrupt - 32) as usize]
    }

    /// What the shared dispatcher behind vectors 32 to 255 does: run the
    /// registered handler, or report the vector unhandled.
    pub fn general_interrupt_handler(&self, index: u8) -> (r: DispatchDecision)
        requires
            self@.len() == SOFTWARE_HANDLER_SLOTS,
            index >= 32,
        ensures
            match self@[index - 32] {
                Some(token) => r == DispatchDecision::Invoke(token),
                None => r == DispatchDecision::Unhandled,
            },
    {
        match self.try_get_handler(index) {
            Some(token) => DispatchDecision::Invoke(token),
            None => DispatchDecision::Unhandled,
        }
    }
}

/// The global timer tick count, incremented on every APIC timer interrupt.
pub struct TickCounter {
    ticks: u64,
}

impl TickCounter {
    pub closed spec fn spec_ticks(self) -> u64 {
        self.ticks
    }

    pub fn new() -> (r: TickCounter)
        ensures
            r.spec_ticks() == 0,
    {
        TickCounter { ticks: 0 }
    }

    /// Ticks counted so far.
    pub fn get_timer_ticks(&self) -> (r: u64)
        ensures
            r == self.spec_ticks(),
    {
        self.ticks
    }
}

/// The APIC timer handler's whole effect: one more tick, then
/// end-of-interrupt.
pub fn apic_timer_interrupt_handler(
    ticks: &mut TickCounter,
    apic: &AdvancedProgrammableInterruptController,
) -> (r: ApicAccess)
    requires
        apic.spec_address() + 0x0FF0 <= u64::MAX,
    ensures
        final(ticks).spec_ticks() == u64_specs::wrapping_add(old(ticks).spec_ticks(), 1),
        apic.spec_x2() ==> r == ApicAccess::Msr(crate::apic::MSR_X2APIC_EOI),
        !apic.spec_x2() ==> r == ApicAccess::Mmio(
            (apic.spec_address() + crate::apic::APIC_REGISTER_OFFSET_END_OF_INTERRUPT) as u64,
        ),
{
    ticks.ticks = ticks.ticks.wrapping_add(1);
    apic.end_of_interrupt_access()
}

/// The spurious-interrupt handler's whole effect: issue end-of-interrupt
/// and nothing else. It takes no counter and changes no state; ticks and
/// handler slots are untouched by construction.
pub fn apic_spurious_interrupt_handler(apic: &AdvancedProgrammableInterruptController) -> (r:
    ApicAccess)
    requires
        apic.spec_address() + 0x0FF0 <= u64::MAX,
    ensures
        apic.spec_x2() ==> r == ApicAccess::Msr(crate::apic::MSR_X2APIC_EOI),
        !apic.spec_x2() ==> r == ApicAccess::Mmio(
            (apic.spec_address() + crate::apic::APIC_REGISTER_OFFSET_END_OF_INTERRUPT) as u64,
        ),
{
    apic.end_of_interrupt_access()
}

} // verus!
