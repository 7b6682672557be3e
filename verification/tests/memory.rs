use kernel_core::addr::get_compact_memory_map;
use kernel_core::addr::PageRange;
use kernel_core::addr::PageState;
use kernel_core::addr::PlatformMemoryAddress;
use kernel_core::frame_allocator::BootInfoFrameAllocator;
use kernel_core::frame_allocator::MemoryRegion;
use kernel_core::frame_allocator::MemoryRegionKind;
use kernel_core::heap::KernelAllocator;
use kernel_core::memory_manager::MemoryManagerError;
use kernel_core::memory_manager::PlatformVirtualMemoryManager;
use kernel_core::memory_manager::FLAG_GLOBAL;
use kernel_core::memory_manager::FLAG_NO_CACHE;
use kernel_core::memory_manager::FLAG_NO_EXECUTE;
use kernel_core::memory_manager::FLAG_PRESENT;
use kernel_core::memory_manager::FLAG_USER_ACCESSIBLE;
use kernel_core::memory_manager::FLAG_WRITABLE;
use kernel_core::page_allocator::PageAllocator;
use kernel_core::page_tracker::PageTracker;
use kernel_core::page_tracker::PageTrackerError;

fn pma(v: u64) -> PlatformMemoryAddress {
    PlatformMemoryAddress::from(v)
}

/// One Usable region from 1 MiB to 1 GiB, as a minimal single-CPU boot map.
fn boot_memory_map() -> Vec<MemoryRegion> {
    vec![MemoryRegion { start: 0x100000, end: 0x40000000, kind: MemoryRegionKind::Usable }]
}

fn boot_allocator() -> BootInfoFrameAllocator {
    let mut fa = BootInfoFrameAllocator::new();
    fa.init(boot_memory_map());
    fa
}

#[test]
fn tracker_starts_free_and_tracks_length() {
    let t = PageTracker::new(16);
    assert_eq!(t.len(), 16);
    for i in 0..16 {
        assert!(!t.is_used(i));
    }
    assert!(!t.is_used(100));
}

#[test]
fn tracker_resize_grows_but_never_shrinks() {
    let mut t = PageTracker::new(4);
    assert!(t.resize(8).is_ok());
    assert_eq!(t.len(), 8);
    assert!(matches!(t.resize(2), Err(PageTrackerError::TrackerSizeCannotBeShrunk)));
    assert_eq!(t.len(), 8);
}

#[test]
fn tracker_reserve_and_free_roundtrip() {
    let mut t = PageTracker::new(8);
    t.reserve(3).unwrap();
    assert!(t.is_used(3));
    t.free(3).unwrap();
    assert!(!t.is_used(3));
    assert!(matches!(t.reserve(8), Err(PageTrackerError::NotFound)));
}

#[test]
fn tracker_range_marking() {
    let mut t = PageTracker::new(10);
    t.reserve_range(2, 4).unwrap();
    for i in 0..10 {
        assert_eq!(t.is_used(i), (2..6).contains(&i));
    }
    t.free_range(3, 2).unwrap();
    assert!(t.is_used(2));
    assert!(!t.is_used(3));
    assert!(!t.is_used(4));
    assert!(t.is_used(5));
    assert!(t.reserve_range(8, 4).is_err());
}

#[test]
fn tracker_find_free_range_restarts_past_used_pages() {
    let mut t = PageTracker::new(12);
    t.reserve(4).unwrap();
    // Scanning for three pages from index 2 must skip past the used page.
    assert_eq!(t.find_free_range(2, 3).unwrap(), 5);
    assert_eq!(t.find_free_range(0, 4).unwrap(), 0);
    assert!(matches!(t.find_free_range(0, 13), Err(PageTrackerError::NotFound)));
}

#[test]
fn tracker_find_free_skips_used_prefix() {
    let mut t = PageTracker::new(6);
    t.reserve_range(0, 3).unwrap();
    assert_eq!(t.find_free(0).unwrap(), 3);
    assert_eq!(t.find_free(4).unwrap(), 4);
    t.reserve_range(3, 3).unwrap();
    assert!(t.find_free(0).is_err());
}

#[test]
fn page_allocator_digests_the_map_and_blocks_the_zero_page() {
    let mut pa = PageAllocator::instance();
    let map = vec![
        PageRange::new(PageState::Used, pma(0), pma(0x2000)),
        PageRange::new(PageState::Free, pma(0x2000), pma(0x8000)),
    ];
    pa.initialize(&map);
    assert!(pa.is_used(0));
    assert!(pa.is_used(1));
    assert!(!pa.is_used(2));
    assert!(!pa.is_used(7));
}

#[test]
fn page_allocator_never_hands_out_the_zero_page() {
    let mut pa = PageAllocator::instance();
    let map = vec![PageRange::new(PageState::Free, pma(0), pma(0x8000))];
    pa.initialize(&map);
    // The whole map is free, yet the zero page stays reserved.
    assert!(pa.is_used(0));
    let a = pa.allocate_size(128).unwrap();
    assert!(a.to_platform_value() >= 0x1000);
    assert_eq!(a.to_platform_value() % 4096, 0);
}

#[test]
fn page_allocator_free_returns_tracker_to_prior_state() {
    let mut pa = PageAllocator::instance();
    let map = vec![PageRange::new(PageState::Free, pma(0), pma(0x8000))];
    pa.initialize(&map);
    let before: Vec<bool> = (0..8).map(|i| pa.is_used(i)).collect();
    let a = pa.allocate_frame().unwrap();
    assert!(pa.is_used((a.to_platform_value() / 4096) as usize));
    pa.free_range(a, 1).unwrap();
    let after: Vec<bool> = (0..8).map(|i| pa.is_used(i)).collect();
    assert_eq!(before, after);
}

#[test]
fn page_allocator_force_and_ranges() {
    let mut pa = PageAllocator::instance();
    let map = vec![PageRange::new(PageState::Free, pma(0), pma(0x10000))];
    pa.initialize(&map);
    pa.force_allocate_pages(pma(0x4000), 2).unwrap();
    assert!(pa.is_used(4));
    assert!(pa.is_used(5));
    let r = pa.allocate_range(pma(0x2000), 2).unwrap();
    assert!(r.to_platform_value() >= 0x2000);
    pa.free_size(pma(0x4000), 8192).unwrap();
    assert!(!pa.is_used(4));
    assert!(!pa.is_used(5));
}

#[test]
fn frame_allocator_never_returns_conventional_memory() {
    let mut fa = BootInfoFrameAllocator::new();
    fa.init(vec![
        MemoryRegion { start: 0, end: 0x100000, kind: MemoryRegionKind::Usable },
        MemoryRegion { start: 0x100000, end: 0x400000, kind: MemoryRegionKind::Usable },
    ]);
    for _ in 0..16 {
        let f = fa.allocate_frame().unwrap();
        assert!(f.to_platform_value() >= 0x100000);
        assert_eq!(f.to_platform_value() % 4096, 0);
    }
}

#[test]
fn frame_allocator_conventional_frames_stay_low() {
    let mut fa = BootInfoFrameAllocator::new();
    fa.init(vec![
        MemoryRegion { start: 0, end: 0x100000, kind: MemoryRegionKind::Usable },
        MemoryRegion { start: 0x100000, end: 0x400000, kind: MemoryRegionKind::Usable },
    ]);
    let f = fa.allocate_conventional_memory_frame().unwrap();
    assert!(f.to_platform_value() < 0x100000);
    // The zero frame is reserved at init, so the first conventional frame
    // is the one above it.
    assert_eq!(f.to_platform_value(), 0x1000);
}

#[test]
fn frame_allocator_reserves_firmware_regions() {
    let mut fa = boot_allocator();
    // Pages of the only usable region are usable until allocated.
    assert!(fa.is_usable(0x100));
    assert!(!fa.is_usable(0x40000));
    let f = fa.allocate_frame().unwrap();
    let page = (f.to_platform_value() / 4096) as usize;
    assert!(!fa.is_usable(page));
    fa.free(f);
    assert!(fa.is_usable(page));
}

#[test]
fn force_allocate_takes_a_reserved_frame_but_not_an_allocated_one() {
    let mut fa = BootInfoFrameAllocator::new();
    fa.init(vec![
        MemoryRegion { start: 0, end: 0x1000, kind: MemoryRegionKind::Bootloader },
        MemoryRegion { start: 0x100000, end: 0x400000, kind: MemoryRegionKind::Usable },
    ]);
    // The zero frame is firmware-reserved; force still claims it.
    let f = fa.force_allocate(pma(0)).unwrap();
    assert_eq!(f.to_platform_value(), 0);
    // A frame the kernel itself allocated is refused.
    let k = fa.allocate_frame().unwrap();
    assert!(fa.force_allocate(k).is_none());
}

#[test]
fn translate_adds_the_physical_memory_offset() {
    let mm = PlatformVirtualMemoryManager::new(0x1000, pma(0xFFFF800000000000));
    let t = mm.translate(pma(0x1234));
    assert_eq!(t.to_platform_value(), 0xFFFF800000001234);
}

#[test]
fn map_page_builds_the_walk_and_sets_the_leaf() {
    let mut fa = boot_allocator();
    let mut mm = PlatformVirtualMemoryManager::new(0x1000, pma(0));
    assert!(mm.get_page_flags(pma(0x200000)).is_none());
    mm.map_page(pma(0x300000), pma(0x200000), FLAG_PRESENT | FLAG_WRITABLE, &mut fa).unwrap();
    assert_eq!(mm.get_page_flags(pma(0x200000)), Some(FLAG_PRESENT | FLAG_WRITABLE));
    assert!(mm.get_page_flags(pma(0x201000)).is_none());
}

#[test]
fn identity_map_twice_allocates_nothing_more() {
    let mut fa = boot_allocator();
    let mut mm = PlatformVirtualMemoryManager::new(0x1000, pma(0));
    let frame = pma(0x5000);
    mm.identity_map(frame, FLAG_PRESENT | FLAG_WRITABLE, &mut fa).unwrap();
    let used_after_first: Vec<bool> = (0..0x400).map(|p| !fa.is_usable(p)).collect();
    let flags_after_first = mm.get_page_flags(frame);
    mm.identity_map(frame, FLAG_PRESENT | FLAG_WRITABLE, &mut fa).unwrap();
    let used_after_second: Vec<bool> = (0..0x400).map(|p| !fa.is_usable(p)).collect();
    assert_eq!(used_after_first, used_after_second);
    assert_eq!(mm.get_page_flags(frame), flags_after_first);
}

#[test]
fn allocate_contiguous_zero_pages_is_a_mapped_nothing() {
    let mut fa = boot_allocator();
    let mut mm = PlatformVirtualMemoryManager::new(0x1000, pma(0));
    let a = mm.allocate_contiguous(0, None, FLAG_PRESENT | FLAG_WRITABLE, &mut fa).unwrap();
    assert_eq!(a.to_platform_value() % 4096, 0);
    assert!(mm.get_page_flags(a).is_none());
}

#[test]
fn allocate_contiguous_beyond_the_window_is_out_of_range() {
    let mut fa = boot_allocator();
    let mut mm = PlatformVirtualMemoryManager::new(0x1000, pma(0));
    let r = mm.allocate_contiguous(
        1,
        Some(pma(0x0001000000000000)),
        FLAG_PRESENT | FLAG_WRITABLE,
        &mut fa,
    );
    assert_eq!(r, Err(MemoryManagerError::OutOfVirtualRange));
}

#[test]
fn allocate_contiguous_maps_fresh_writable_pages() {
    let mut fa = boot_allocator();
    let mut mm = PlatformVirtualMemoryManager::new(0x1000, pma(0));
    let flags = FLAG_PRESENT | FLAG_WRITABLE | FLAG_NO_EXECUTE;
    let a = mm.allocate_contiguous(3, Some(pma(0x400000)), flags, &mut fa).unwrap();
    assert!(a.to_platform_value() >= 0x400000);
    for k in 0..3 {
        let page = pma(a.to_platform_value() + k * 4096);
        assert_eq!(mm.get_page_flags(page), Some(flags));
    }
    assert!(mm.get_page_flags(pma(a.to_platform_value() + 3 * 4096)).is_none());
}

#[test]
fn protect_kernel_space_sets_global_and_clears_user() {
    let mut fa = boot_allocator();
    let mut mm = PlatformVirtualMemoryManager::new(0x1000, pma(0));
    mm.map_page(pma(0x300000), pma(0x200000), FLAG_PRESENT | FLAG_USER_ACCESSIBLE, &mut fa)
        .unwrap();
    mm.protect_kernel_space();
    let flags = mm.get_page_flags(pma(0x200000)).unwrap();
    assert_eq!(flags & FLAG_GLOBAL, FLAG_GLOBAL);
    assert_eq!(flags & FLAG_USER_ACCESSIBLE, 0);
    assert_eq!(flags & FLAG_PRESENT, FLAG_PRESENT);
}

#[test]
fn set_page_flags_rewrites_a_leaf() {
    let mut fa = boot_allocator();
    let mut mm = PlatformVirtualMemoryManager::new(0x1000, pma(0));
    mm.map_page(pma(0x300000), pma(0x200000), FLAG_PRESENT, &mut fa).unwrap();
    mm.set_page_flags(pma(0x200000), FLAG_PRESENT | FLAG_NO_CACHE, &mut fa).unwrap();
    assert_eq!(mm.get_page_flags(pma(0x200000)), Some(FLAG_PRESENT | FLAG_NO_CACHE));
}

#[test]
fn heap_comes_up_small_and_grows_by_more_than_a_mebibyte() {
    let mut fa = boot_allocator();
    let mut mm = PlatformVirtualMemoryManager::new(0x1000, pma(0));
    let mut heap = KernelAllocator::init(&mut mm, &mut fa).unwrap();
    assert_eq!(heap.total_pages(), 1);
    // Growing for a 1 MiB allocation adds at least 1 MiB of fresh pages.
    heap.extend_heap(1024 * 1024, &mut mm, &mut fa).unwrap();
    let total = heap.total_pages();
    assert!(total as u64 * 4096 > 1024 * 1024);
}

#[test]
fn heap_pages_carry_the_heap_flags() {
    let mut fa = boot_allocator();
    let mut mm = PlatformVirtualMemoryManager::new(0x1000, pma(0));
    let mut heap = KernelAllocator::init(&mut mm, &mut fa).unwrap();
    heap.extend_heap(8192, &mut mm, &mut fa).unwrap();
    let expected = FLAG_PRESENT | FLAG_WRITABLE | FLAG_NO_EXECUTE;
    // The heap base and the pages of both runs carry the heap flags.
    let base = 0xF00000000000u64;
    assert!(heap.contains_address(base));
    assert!(heap.contains_address(base + 123));
    for p in 0..4u64 {
        let addr = base + p * 4096;
        if heap.contains_address(addr) {
            assert_eq!(mm.get_page_flags(pma(addr)), Some(expected));
        }
    }
}

#[test]
fn compact_memory_map_sorts_and_fuses_neighbours() {
    let raw = vec![
        PageRange::new(PageState::Free, pma(0x2000), pma(0x3000)),
        PageRange::new(PageState::Used, pma(0), pma(0x1000)),
        PageRange::new(PageState::Free, pma(0x1000), pma(0x2000)),
    ];
    let compact = get_compact_memory_map(raw);
    assert_eq!(compact.len(), 2);
    assert_eq!(compact[0].page_state, PageState::Used);
    assert_eq!(compact[0].start.to_platform_value(), 0);
    assert_eq!(compact[0].end.to_platform_value(), 0x1000);
    assert_eq!(compact[1].page_state, PageState::Free);
    assert_eq!(compact[1].start.to_platform_value(), 0x1000);
    assert_eq!(compact[1].end.to_platform_value(), 0x3000);
}

#[test]
fn compact_memory_map_keeps_state_changes_apart() {
    let raw = vec![
        PageRange::new(PageState::Used, pma(0x1000), pma(0x2000)),
        PageRange::new(PageState::Free, pma(0x2000), pma(0x4000)),
    ];
    let compact = get_compact_memory_map(raw);
    assert_eq!(compact.len(), 2);
    assert_eq!(compact[0].page_state, PageState::Used);
    assert_eq!(compact[1].page_state, PageState::Free);
}

#[test]
fn single_cpu_boot_brings_up_a_working_memory_subsystem() {
    // One usable gigabyte above 1 MiB, as the minimal boot map.
    let mut fa = boot_allocator();
    let mut mm = PlatformVirtualMemoryManager::new(0x1000, pma(0));
    let mut heap = KernelAllocator::init(&mut mm, &mut fa).unwrap();
    // A large allocation well into the map succeeds: 8 MiB of pages.
    let a = mm
        .allocate_contiguous(2048, None, FLAG_PRESENT | FLAG_WRITABLE, &mut fa)
        .unwrap();
    assert_eq!(a.to_platform_value() % 4096, 0);
    assert_eq!(
        mm.get_page_flags(pma(a.to_platform_value() + 2047 * 4096)),
        Some(FLAG_PRESENT | FLAG_WRITABLE)
    );
    // And the heap still grows on top of that.
    heap.extend_heap(64 * 1024, &mut mm, &mut fa).unwrap();
    assert!(heap.total_pages() > 128);
}

#[test]
fn allocate_size_zero_is_an_empty_success() {
    let mut pa = PageAllocator::instance();
    let map = vec![PageRange::new(PageState::Free, pma(0), pma(0x4000))];
    pa.initialize(&map);
    let before: Vec<bool> = (0..4).map(|i| pa.is_used(i)).collect();
    let a = pa.allocate_size(0).unwrap();
    assert_eq!(a.to_platform_value() % 4096, 0);
    let after: Vec<bool> = (0..4).map(|i| pa.is_used(i)).collect();
    assert_eq!(before, after);
}

#[test]
fn heap_growth_continues_at_the_heap_end() {
    let mut fa = boot_allocator();
    let mut mm = PlatformVirtualMemoryManager::new(0x1000, pma(0));
    let mut heap = KernelAllocator::init(&mut mm, &mut fa).unwrap();
    // Nothing else allocated in between: the new run starts exactly where
    // the first one ends, keeping the heap virtually contiguous.
    heap.extend_heap(4096, &mut mm, &mut fa).unwrap();
    let base = 0xF00000000000u64;
    assert!(heap.contains_address(base));
    assert!(heap.contains_address(base + 4096));
}

#[test]
fn compact_memory_map_keeps_separated_runs_apart() {
    let raw = vec![
        PageRange::new(PageState::Free, pma(0x1000), pma(0x2000)),
        PageRange::new(PageState::Free, pma(0x3000), pma(0x4000)),
    ];
    let compact = get_compact_memory_map(raw);
    assert_eq!(compact.len(), 2);
}
