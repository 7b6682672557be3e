use kernel_core::apic::AdvancedProgrammableInterruptController;
use kernel_core::apic::ApicAccess;
use kernel_core::apic::MSR_X2APIC_EOI;
use kernel_core::errors::SyscallErrorCode;
use kernel_core::gdt::CONTEXT_SWITCH_IST_INDEX;
use kernel_core::gdt::DOUBLE_FAULT_IST_INDEX;
use kernel_core::idt::apic_spurious_interrupt_handler;
use kernel_core::idt::apic_timer_interrupt_handler;
use kernel_core::idt::DispatchDecision;
use kernel_core::idt::InterruptError;
use kernel_core::idt::SoftwareInterruptTable;
use kernel_core::idt::TickCounter;
use kernel_core::idt::APIC_TIMER_VECTOR;
use kernel_core::idt::CONTEXT_SWITCH_VECTOR;
use kernel_core::idt::LEGACY_SYSCALL_VECTOR;
use kernel_core::idt::SPURIOUS_INTERRUPT_VECTOR;
use kernel_core::idt::PIC_1_OFFSET;
use kernel_core::idt::PIC_2_OFFSET;
use kernel_core::process::ProcessDescriptor;
use kernel_core::process::ProcessManager;
use kernel_core::syscall::init;
use kernel_core::syscall::SyscallParameters;
use kernel_core::syscall::SyscallTable;

#[test]
fn pic_remap_offsets() {
    assert_eq!(PIC_1_OFFSET, 32);
    assert_eq!(PIC_2_OFFSET, 40);
}

#[test]
fn fixed_vector_assignments() {
    // The timer ticks on 0x20, legacy syscalls trap on 0x80, context
    // switches ride 0xFE on their own stack, and 0xFF is spurious.
    assert_eq!(APIC_TIMER_VECTOR, 0x20);
    assert_eq!(LEGACY_SYSCALL_VECTOR, 0x80);
    assert_eq!(CONTEXT_SWITCH_VECTOR, 0xFE);
    assert_eq!(SPURIOUS_INTERRUPT_VECTOR, 0xFF);
    assert_eq!(DOUBLE_FAULT_IST_INDEX, 0);
    assert_eq!(CONTEXT_SWITCH_IST_INDEX, 1);
    // Every fixed software vector can carry a handler.
    let mut table = SoftwareInterruptTable::new();
    assert!(table.set_interrupt_handler(APIC_TIMER_VECTOR, Some(1)).is_ok());
    assert!(table.set_interrupt_handler(LEGACY_SYSCALL_VECTOR, Some(2)).is_ok());
    assert!(table.set_interrupt_handler(SPURIOUS_INTERRUPT_VECTOR, Some(3)).is_ok());
}

#[test]
fn exception_vectors_refuse_software_handlers() {
    let mut table = SoftwareInterruptTable::new();
    for vector in [0u8, 13, 31] {
        assert_eq!(
            table.set_interrupt_handler(vector, Some(1)),
            Err(InterruptError::ReservedVector)
        );
    }
    assert!(table.set_interrupt_handler(32, Some(1)).is_ok());
}

#[test]
fn software_handlers_install_and_clear() {
    let mut table = SoftwareInterruptTable::new();
    table.set_interrupt_handler(0x80, Some(7)).unwrap();
    assert_eq!(table.try_get_handler(0x80), Some(7));
    assert_eq!(table.general_interrupt_handler(0x80), DispatchDecision::Invoke(7));
    table.clear_interrupt_handler(0x80).unwrap();
    assert_eq!(table.try_get_handler(0x80), None);
    assert_eq!(table.general_interrupt_handler(0x80), DispatchDecision::Unhandled);
}

#[test]
fn spurious_interrupt_only_acknowledges() {
    // Inject vector 0xFF: the spurious handler issues an end-of-interrupt
    // and increments nothing; the timer keeps ticking afterwards.
    let apic = AdvancedProgrammableInterruptController::detect(true, 0);
    let mut ticks = TickCounter::new();
    apic_timer_interrupt_handler(&mut ticks, &apic);
    let before = ticks.get_timer_ticks();
    let eoi = apic_spurious_interrupt_handler(&apic);
    assert_eq!(eoi, ApicAccess::Msr(MSR_X2APIC_EOI));
    assert_eq!(ticks.get_timer_ticks(), before);
    apic_timer_interrupt_handler(&mut ticks, &apic);
    assert_eq!(ticks.get_timer_ticks(), before + 1);
}

#[test]
fn timer_interrupts_count_ticks() {
    let apic = AdvancedProgrammableInterruptController::detect(true, 0);
    let mut ticks = TickCounter::new();
    assert_eq!(ticks.get_timer_ticks(), 0);
    let eoi = apic_timer_interrupt_handler(&mut ticks, &apic);
    assert_eq!(ticks.get_timer_ticks(), 1);
    assert_eq!(eoi, ApicAccess::Msr(MSR_X2APIC_EOI));
}

#[test]
fn syscall_table_dispatches_with_default_fallback() {
    let mut table = SyscallTable::new();
    table.set_handler(4, 40);
    table.set_default_handler(99);
    assert_eq!(table.try_get_syscall(&SyscallParameters::new(4)).unwrap(), 40);
    assert_eq!(table.try_get_syscall(&SyscallParameters::new(5)).unwrap(), 99);
}

#[test]
fn syscall_without_handler_or_default_fails() {
    let table = SyscallTable::new();
    let e = table.try_get_syscall(&SyscallParameters::new(1)).unwrap_err();
    assert_eq!(e.error_code(), SyscallErrorCode::NoSyscall);
}

#[test]
fn syscall_init_registers_the_native_personality() {
    let tables = init(1234);
    let native = tables.get_personality(usize::MAX).unwrap();
    assert_eq!(native.try_get_syscall(&SyscallParameters::new(77)).unwrap(), 1234);
    assert!(tables.get_personality(3).is_none());
}

#[test]
fn personalities_replace_wholesale() {
    let mut tables = init(1);
    let mut replacement = SyscallTable::new();
    replacement.set_handler(9, 90);
    tables.update_personality(usize::MAX, replacement);
    let native = tables.get_personality(usize::MAX).unwrap();
    assert_eq!(native.try_get_syscall(&SyscallParameters::new(9)).unwrap(), 90);
    let e = native.try_get_syscall(&SyscallParameters::new(10)).unwrap_err();
    assert_eq!(e.error_code(), SyscallErrorCode::NoSyscall);
}

#[test]
fn processes_get_fresh_ids() {
    let mut pm = ProcessManager::new();
    let a = pm.create_process();
    let b = pm.create_process();
    assert_eq!(a.get_id(), 0);
    assert_eq!(b.get_id(), 1);
    assert_eq!(a.get_control_group(), 0);
    assert_eq!(pm.get_process(1).unwrap().get_id(), 1);
    assert!(pm.get_process(7).is_none());
}

#[test]
fn process_descriptor_fields() {
    let d = ProcessDescriptor::new(42);
    assert_eq!(d.get_id(), 42);
    assert_eq!(d.get_control_group(), 0);
}

#[test]
fn registering_one_personality_leaves_the_others_alone() {
    let mut tables = init(7);
    let mut second = SyscallTable::new();
    second.set_handler(1, 10);
    tables.register_personality(5, second);
    let mut replacement = SyscallTable::new();
    replacement.set_handler(2, 20);
    tables.update_personality(5, replacement);
    // The native personality still answers with its default handler.
    let native = tables.get_personality(usize::MAX).unwrap();
    assert_eq!(native.try_get_syscall(&SyscallParameters::new(9)).unwrap(), 7);
    let fifth = tables.get_personality(5).unwrap();
    assert_eq!(fifth.try_get_syscall(&SyscallParameters::new(2)).unwrap(), 20);
}
