use kernel_core::addr::PlatformMemoryAddress;
use kernel_core::apic::AdvancedProgrammableInterruptController;
use kernel_core::apic::ApicAccess;
use kernel_core::apic::IcrWritePlan;
use kernel_core::apic::MSR_X2APIC_LVT_ERROR;
use kernel_core::apic::MSR_X2APIC_EOI;
use kernel_core::apic::MSR_X2APIC_VERSION;
use kernel_core::cpu::prepare_trampoline_frame;
use kernel_core::cpu::ApBootAction;
use kernel_core::cpu::ApBootWatchdog;
use kernel_core::cpu::ApStartupError;
use kernel_core::cpu::CpuStatusBits;
use kernel_core::cpu::InterProcessorInterruptPayload;
use kernel_core::cpu::TrampolineSlot;
use kernel_core::cpu::CPU_STACK_PAGES;
use kernel_core::frame_allocator::BootInfoFrameAllocator;
use kernel_core::frame_allocator::MemoryRegion;
use kernel_core::frame_allocator::MemoryRegionKind;
use kernel_core::memory_manager::PlatformVirtualMemoryManager;
use kernel_core::memory_manager::FLAG_PRESENT;
use kernel_core::memory_manager::FLAG_WRITABLE;

fn pma(v: u64) -> PlatformMemoryAddress {
    PlatformMemoryAddress::from(v)
}

/// The zero frame is firmware-reserved, ordinary memory starts at 1 MiB.
fn boot_allocator() -> BootInfoFrameAllocator {
    let mut fa = BootInfoFrameAllocator::new();
    fa.init(vec![
        MemoryRegion { start: 0, end: 0x1000, kind: MemoryRegionKind::Bootloader },
        MemoryRegion { start: 0x100000, end: 0x40000000, kind: MemoryRegionKind::Usable },
    ]);
    fa
}

#[test]
fn trampoline_frame_is_conventional_and_identity_mapped() {
    let mut fa = boot_allocator();
    let mut mm = PlatformVirtualMemoryManager::new(0x1000, pma(0));
    let frame = prepare_trampoline_frame(&mut fa, &mut mm).unwrap();
    // Below 1 MiB, and mapped at its own address.
    assert!(frame.to_platform_value() < 0x100000);
    assert_eq!(frame.to_platform_value(), 0);
    assert_eq!(mm.get_page_flags(frame), Some(FLAG_PRESENT | FLAG_WRITABLE));
}

#[test]
fn trampoline_slots_sit_at_the_blob_end() {
    let payload = InterProcessorInterruptPayload::new(pma(0), 4096);
    assert_eq!(payload.slot_address(TrampolineSlot::PageTableRoot), 4096 - 32);
    assert_eq!(payload.slot_address(TrampolineSlot::StackEnd), 4096 - 24);
    assert_eq!(payload.slot_address(TrampolineSlot::EntryPoint), 4096 - 16);
}

#[test]
fn trampoline_records_the_handoff_values() {
    let mut payload = InterProcessorInterruptPayload::new(pma(0), 4096);
    payload.set_page_table(0x1000);
    payload.set_entry_point(0xFFFF800000002000);
    let stack_len = (CPU_STACK_PAGES * 4096) as u64;
    payload.set_stack(0x200000, stack_len);
    assert_eq!(payload.get_code_segment(), 0);
}

#[test]
fn trampoline_code_segment_comes_from_the_frame_address() {
    let payload = InterProcessorInterruptPayload::new(pma(0x8000), 4096);
    assert_eq!(payload.get_code_segment(), 0x8);
}

#[test]
fn trampoline_frame_already_taken_is_refused() {
    // With the zero frame inside a usable region and already marked at
    // init, forcing it is refused and the trampoline cannot be staged.
    let mut fa = BootInfoFrameAllocator::new();
    fa.init(vec![MemoryRegion { start: 0, end: 0x400000, kind: MemoryRegionKind::Usable }]);
    let mut mm = PlatformVirtualMemoryManager::new(0x1000, pma(0));
    assert_eq!(
        prepare_trampoline_frame(&mut fa, &mut mm),
        Err(ApStartupError::TrampolineFrameUnavailable)
    );
}

#[test]
fn watchdog_allows_one_resend_then_gives_up() {
    let mut watchdog = ApBootWatchdog::new(3);
    assert_eq!(watchdog.cpu_id(), 3);
    assert_eq!(watchdog.on_timeout(), ApBootAction::ResendStartupIpi);
    assert_eq!(watchdog.on_timeout(), ApBootAction::Fatal);
    assert_eq!(watchdog.on_timeout(), ApBootAction::Fatal);
}

#[test]
fn four_cpu_bring_up_counts_every_processor() {
    // The BSP is APIC id 0; ACPI reports application processors 1, 2 and 3.
    let mut online = CpuStatusBits::new();
    assert_eq!(online.popcount(), 0);
    online.mark(0);
    let application_processors = vec![1usize, 2, 3];
    online.mark_all(&application_processors);
    assert_eq!(online.popcount(), 1 + application_processors.len());
    for id in 0..4 {
        assert!(online.is_set(id));
    }
    assert!(!online.is_set(4));
}

#[test]
fn marking_a_cpu_twice_counts_once() {
    let mut online = CpuStatusBits::new();
    online.mark(5);
    online.mark(5);
    assert_eq!(online.popcount(), 1);
}

#[test]
fn single_cpu_boot_has_one_online_cpu() {
    let mut online = CpuStatusBits::new();
    online.mark(0);
    assert_eq!(online.popcount(), 1);
    assert!(online.is_set(0));
}

#[test]
fn apic_detection_picks_the_register_file() {
    let x2 = AdvancedProgrammableInterruptController::detect(true, 0xFEE00000);
    let mmio = AdvancedProgrammableInterruptController::detect(false, 0xFEE00000);
    // With the x2apic CPUID feature the MSR file is used; reading the
    // version goes through the same architectural register either way.
    assert_eq!(x2.version_access(), ApicAccess::Msr(MSR_X2APIC_VERSION));
    assert_eq!(mmio.version_access(), ApicAccess::Mmio(0xFEE00030));
}

#[test]
fn icr_destination_shifts_depend_on_the_register_file() {
    let x2 = AdvancedProgrammableInterruptController::detect(true, 0);
    let mmio = AdvancedProgrammableInterruptController::detect(false, 0xFEE00000);
    assert_eq!(x2.get_icr_cpu_value(3), 3u64 << 32);
    assert_eq!(mmio.get_icr_cpu_value(3), 3u64 << 56);
}

#[test]
fn init_and_startup_ipi_values() {
    let mmio = AdvancedProgrammableInterruptController::detect(false, 0xFEE00000);
    let init = mmio.send_ipi_init(1);
    assert_eq!(init.icr_value, 0x4500 | (1u64 << 56));
    // Both IPIs clear the error status first.
    assert_eq!(init.clear_error_status, ApicAccess::Mmio(0xFEE00280));
    let sipi = mmio.send_ipi_start(1, 0x08);
    assert_eq!(sipi.icr_value, 0x4608 | (1u64 << 56));
    assert_eq!(sipi.clear_error_status, ApicAccess::Mmio(0xFEE00280));
    let x2 = AdvancedProgrammableInterruptController::detect(true, 0);
    let init2 = x2.send_ipi_init(2);
    assert_eq!(init2.icr_value, 0x4500 | (2u64 << 32));
    assert_eq!(init2.clear_error_status, ApicAccess::Msr(MSR_X2APIC_LVT_ERROR));
}

#[test]
fn x2apic_ipi_is_a_single_msr_write() {
    let x2 = AdvancedProgrammableInterruptController::detect(true, 0);
    let icr = x2.send_ipi_init(1).icr_value;
    assert_eq!(x2.icr_write_plan(icr), IcrWritePlan::Msr(icr));
    // The xAPIC file needs the high word then the low word.
    let mmio = AdvancedProgrammableInterruptController::detect(false, 0xFEE00000);
    let icr = mmio.send_ipi_init(1).icr_value;
    match mmio.icr_write_plan(icr) {
        IcrWritePlan::MmioPair { high, low } => {
            assert_eq!(high, (icr >> 32) as u32);
            assert_eq!(low, icr as u32);
        },
        IcrWritePlan::Msr(_) => panic!("xAPIC must write the register pair"),
    }
}

#[test]
fn ipi_delivery_wait_ends_when_the_pending_bit_clears() {
    let mmio = AdvancedProgrammableInterruptController::detect(false, 0xFEE00000);
    assert!(!mmio.wait_for_ipi_delivery(0x1000));
    assert!(mmio.wait_for_ipi_delivery(0x0000));
    // x2APIC writes are synchronous: no wait at all.
    let x2 = AdvancedProgrammableInterruptController::detect(true, 0);
    assert!(x2.wait_for_ipi_delivery(0x1000));
}

#[test]
fn icr_reads_combine_the_register_pair() {
    let mmio = AdvancedProgrammableInterruptController::detect(false, 0xFEE00000);
    assert_eq!(mmio.combine_icr(0x12, 0x4500), 0x1200004500);
}

#[test]
fn every_cpu_programs_the_same_timer() {
    let apic = AdvancedProgrammableInterruptController::detect(true, 0);
    let setup = apic.ap_timer_setup();
    assert_eq!(setup.sivr_set_bits, 0x1FF);
    assert_eq!(setup.timer_lvt, 32 | 0x20000);
    assert_eq!(setup.timer_divisor, 3);
    assert_eq!(setup.timer_initial_count, 0xFF00);
}

#[test]
fn apic_register_map_by_file() {
    let mmio = AdvancedProgrammableInterruptController::detect(false, 0xFEE00000);
    assert_eq!(mmio.apic_id_access(), ApicAccess::Mmio(0xFEE00020));
    assert_eq!(mmio.spurious_interrupt_vector_access(), ApicAccess::Mmio(0xFEE000F0));
    assert_eq!(mmio.error_status_access(), ApicAccess::Mmio(0xFEE00280));
    assert_eq!(mmio.timer_lvt_access(), ApicAccess::Mmio(0xFEE00320));
    assert_eq!(mmio.timer_divisor_access(), ApicAccess::Mmio(0xFEE003E0));
    assert_eq!(mmio.timer_initial_count_access(), ApicAccess::Mmio(0xFEE00380));
    assert_eq!(mmio.icr_pair_addresses(), (0xFEE00300, 0xFEE00310));
    let x2 = AdvancedProgrammableInterruptController::detect(true, 0);
    assert_eq!(x2.apic_id_access(), ApicAccess::Msr(0x802));
    assert_eq!(x2.spurious_interrupt_vector_access(), ApicAccess::Msr(0x80F));
    assert_eq!(x2.error_status_access(), ApicAccess::Msr(0x834));
    assert_eq!(x2.timer_lvt_access(), ApicAccess::Msr(0x832));
    assert_eq!(x2.task_priority_access(), ApicAccess::Msr(0x808));
    assert_eq!(x2.processor_priority_access(), ApicAccess::Msr(0x80A));
}

#[test]
fn trampoline_is_ready_only_after_every_slot() {
    let mut payload = InterProcessorInterruptPayload::new(pma(0), 4096);
    assert!(!payload.is_ready_to_boot());
    payload.set_page_table(0x1000);
    payload.set_entry_point(0x2000);
    assert!(!payload.is_ready_to_boot());
    payload.set_stack(0x200000, 16 * 4096);
    assert!(payload.is_ready_to_boot());
}

#[test]
fn end_of_interrupt_register_by_file() {
    let x2 = AdvancedProgrammableInterruptController::detect(true, 0);
    assert_eq!(x2.end_of_interrupt_access(), ApicAccess::Msr(MSR_X2APIC_EOI));
    let mmio = AdvancedProgrammableInterruptController::detect(false, 0xFEE00000);
    assert_eq!(mmio.end_of_interrupt_access(), ApicAccess::Mmio(0xFEE000B0));
}
