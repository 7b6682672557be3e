use kernel_core::addr::MemoryRange;
use kernel_core::addr::MemoryRangeError;
use kernel_core::addr::PageRange;
use kernel_core::addr::PageState;
use kernel_core::addr::PlatformMemoryAddress;
use kernel_core::contextswitch::PlatformContextState;
use kernel_core::contextswitch::RegisterState;
use kernel_core::devices::DeviceError;
use kernel_core::devices::DeviceErrorCode;
use kernel_core::devices::DeviceQueryResult;
use kernel_core::devices::DeviceRegistry;
use kernel_core::devices::DeviceTree;
use kernel_core::devices::DeviceTreeDevice;
use kernel_core::errors::SyscallError;
use kernel_core::errors::SyscallErrorCode;
use kernel_core::gdt::GdtInformation;
use kernel_core::gdt::GdtPointer;
use kernel_core::gdt::Gdts;
use kernel_core::gdt::interrupt_stack_top;
use kernel_core::klib::get_size_suffix_and_divisior;
use kernel_core::klib::LogLevel;
use kernel_core::klib::QemuExitCode;
use kernel_core::klib::GIB;
use kernel_core::klib::KIB;
use kernel_core::klib::MIB;
use kernel_core::shared::Handle;
use kernel_core::shared::SyscallNumber;

#[test]
fn it_works() {
    // Two pages plus two pages of span make four pages.
    let range = MemoryRange::new(0, (2 + 2) * 4096).unwrap();
    let result = range.pages();
    assert_eq!(result, 4);
}

#[test]
fn memory_range_rejects_inverted_and_empty_and_unaligned() {
    assert!(matches!(
        MemoryRange::new(0x2000, 0x1000),
        Err(MemoryRangeError::StartAddressGreaterThanEndAddress)
    ));
    assert!(matches!(MemoryRange::new(0x1000, 0x1000), Err(MemoryRangeError::EmptyRange)));
    assert!(matches!(
        MemoryRange::new(0x1000, 0x1801),
        Err(MemoryRangeError::RangeNotPageAligned)
    ));
}

#[test]
fn memory_range_sizes() {
    let range = MemoryRange::new(0x100000, 0x140000).unwrap();
    assert_eq!(range.size(), 0x40000);
    assert_eq!(range.pages(), 0x40);
    assert_eq!(range.page_size(), 4096);
}

#[test]
fn platform_address_conversions() {
    let a = PlatformMemoryAddress::from(0x123456);
    assert_eq!(a.to_platform_value(), 0x123456);
    assert_eq!(a.to_physical_address(), 0x123456);
    assert_eq!(a.to_virtual_address(), 0x123456);
    assert_eq!(a.to_page_number(), 0x123);
    assert!(!a.is_page_aligned());
    let b = PlatformMemoryAddress::from_page_number(0x123);
    assert_eq!(b.to_platform_value(), 0x123000);
    assert!(b.is_page_aligned());
}

#[test]
fn page_range_holds_its_fields() {
    let r = PageRange::new(
        PageState::Free,
        PlatformMemoryAddress::from(0x1000),
        PlatformMemoryAddress::from(0x3000),
    );
    assert_eq!(r.page_state, PageState::Free);
    assert_eq!(r.start.to_platform_value(), 0x1000);
    assert_eq!(r.end.to_platform_value(), 0x3000);
}

#[test]
fn size_suffixes_scale() {
    assert_eq!(get_size_suffix_and_divisior(512), ("bytes", 1));
    assert_eq!(get_size_suffix_and_divisior(2048), ("KiB", KIB));
    assert_eq!(get_size_suffix_and_divisior(8 * MIB), ("MiB", MIB));
    assert_eq!(get_size_suffix_and_divisior(3 * GIB), ("GiB", GIB));
}

#[test]
fn log_levels_have_fixed_width_labels() {
    assert_eq!(LogLevel::Debug.label(), "DEBUG  ");
    assert_eq!(LogLevel::Warning.label(), "WARNING");
    assert_eq!(LogLevel::Fatal.label(), "FATAL  ");
}

#[test]
fn qemu_exit_codes() {
    assert_eq!(QemuExitCode::Success.code(), 1);
    assert_eq!(QemuExitCode::Failed.code(), 2);
}

#[test]
fn syscall_error_reports_no_such_call() {
    let e = SyscallError::no_such_system_call();
    assert_eq!(e.error_code(), SyscallErrorCode::NoSyscall);
    assert_eq!(e.message(), "No such system call");
}

#[test]
fn device_error_keeps_its_code() {
    let e = DeviceError::new(DeviceErrorCode::DeviceNativeError(7));
    assert_eq!(e.error_code(), DeviceErrorCode::DeviceNativeError(7));
}

#[test]
fn device_tree_device_is_ready() {
    let d = DeviceTreeDevice::new();
    assert!(d.ready());
    assert_eq!(d.name(), "DEVICE_TREE");
}

#[test]
fn device_registry_starts_empty() {
    let _r = DeviceRegistry::new();
    let q = DeviceQueryResult { id: 1, class_id: 2, subclass_id: 3, device_type_id: 4, service_id: 5 };
    assert_eq!(q.id, 1);
    assert_eq!(q.service_id, 5);
}

#[test]
fn device_tree_registers_and_looks_up() {
    let mut tree = DeviceTree::new();
    let id = tree.register(0x1234, 7);
    assert_eq!(id, 0x1234);
    assert_eq!(tree.get(id), Some(7));
    assert_eq!(tree.get(0x9999), None);
    assert_eq!(tree.keys(), vec![0x1234]);
    assert_eq!(tree.unregister(id), Some(7));
    assert_eq!(tree.get(id), None);
}

#[test]
fn device_tree_bumps_past_a_taken_id() {
    let mut tree = DeviceTree::new();
    let first = tree.register(0x40, 1);
    let second = tree.register(0x40, 2);
    assert_eq!(first, 0x40);
    assert_eq!(second, 0x41);
    assert_eq!(tree.get(0x40), Some(1));
    assert_eq!(tree.get(0x41), Some(2));
}

#[test]
fn device_tree_wraps_at_the_end_of_the_key_space() {
    let mut tree = DeviceTree::new();
    let first = tree.register(u128::MAX, 1);
    let second = tree.register(u128::MAX, 2);
    assert_eq!(first, u128::MAX);
    assert_eq!(second, 0);
}

#[test]
fn shared_types_round_trip() {
    let h = Handle { identifier: 1, server_process: 2, process: 3 };
    assert_eq!(h.identifier, 1);
    assert!(matches!(SyscallNumber::ContextSwitch, SyscallNumber::ContextSwitch));
}

#[test]
fn gdt_selectors_follow_the_fixed_layout() {
    let gdt = GdtInformation::new();
    assert_eq!(gdt.get_kernel_code_segment(), 0x08);
    assert_eq!(gdt.get_kernel_data_segment(), 0x10);
    assert_eq!(gdt.get_task_state_segment(), 0x18);
    assert_eq!(gdt.get_user_data_segment(), 0x2B);
    assert_eq!(gdt.get_user_code_segment(), 0x33);
}

#[test]
fn gdts_cover_every_cpu() {
    let gdts = Gdts::init();
    let g = gdts.get_gdt(17);
    assert_eq!(g.get_kernel_code_segment(), 0x08);
}

#[test]
fn interrupt_stack_tops_are_aligned() {
    let top = interrupt_stack_top(0x10000);
    assert_eq!(top % 16, 0);
    assert!(top <= 0x10000 + 4 * 4096 - 256);
    let odd = interrupt_stack_top(0x10007);
    assert_eq!(odd % 16, 0);
}

#[test]
fn gdt_pointer_null_and_new() {
    assert!(GdtPointer::null().is_null());
    let p = GdtPointer::new(0xFFFF800000001000);
    assert!(!p.is_null());
    assert_eq!(p.address(), 0xFFFF800000001000);
}

#[test]
fn fresh_context_points_at_user_segments() {
    let gdt = GdtInformation::new();
    let ctx = PlatformContextState::new(&gdt);
    assert_eq!(ctx.registers.cs, 0x33 / 8);
    assert_eq!(ctx.registers.ss, 0x2B / 8);
    assert_eq!(ctx.registers.rip, 0);
    assert!(ctx.sse.is_none());
    let z = RegisterState::zeroed();
    assert_eq!(z.rax, 0);
    assert_eq!(z.rsp, 0);
}
