//! The kernel heap's address-space management: a set of virtually-contiguous
//! runs mapped writable and non-executable, grown on demand through the
//! memory manager. The byte-granular free list over this space is the
//! embedding kernel's allocator; what is verified here is that every byte
//! the heap can hand out lies in a page mapped with the right flags.
use vstd::prelude::*;
use crate::addr::PAGE_SIZE;
use crate::addr::PlatformMemoryAddress;
use crate::frame_allocator::BootInfoFrameAllocator;
use crate::frame_allocator::spec_first_ordinary_page;
use crate::frame_allocator::spec_free_ordinary;
use crate::frame_allocator::spec_usable_covers;
use crate::memory_manager::DYNAMIC_RANGE_END_PAGE;
use crate::memory_manager::FLAG_NO_EXECUTE;
use crate::memory_manager::FLAG_PRESENT;
use crate::memory_manager::FLAG_WRITABLE;
use crate::memory_manager::MemoryManagerError;
use crate::memory_manager::PlatformVirtualMemoryManager;

verus! {

/// Lowest virtual address the kernel heap may use.
pub const KERNEL_HEAP_START: u64 = 0xF00000000000;

/// Pages in the initial heap run.
pub const KERNEL_HEAP_PAGES: u64 = 1;

/// Every heap page is mapped present, writable and non-executable.
pub const HEAP_FLAGS: u64 = FLAG_PRESENT | FLAG_WRITABLE | FLAG_NO_EXECUTE;

/// One virtually-contiguous run of heap pages.
#[derive(Clone, Copy, Debug, PartialEq, Eq, Structural)]
pub struct HeapRegion {
    pub start_page: u64,
    pub pages: u64,
}

/// The kernel heap's backing pages.
pub struct KernelAllocator {
    regions: Vec<HeapRegion>,
}

/// How many pages to request when the heap must grow: at least one page
/// more than the heap already has, and at least eight times the bytes that
/// were missing.
pub open spec fn spec_grow_amount(total_pages: int, needed_bytes: int) -> int {
    let by_size = total_pages + 1;
    let by_need = needed_bytes * 8 / (PAGE_SIZE as int) + 1;
    if by_size > by_need {
        by_size
    } else {
        by_need
    }
}

impl KernelAllocator {
    /// The heap's runs, in the order they were added.
    pub closed spec fn spec_regions(self) -> Seq<HeapRegion> {
        self.regions@
    }

    /// Total heap pages over all runs.
    pub open spec fn spec_total_pages(self) -> int {
        spec_sum_pages(self.spec_regions())
    }

    /// Every run lies inside the dynamic mapping window.
    pub open spec fn wf(self) -> bool {
        forall|i: int|
            0 <= i < self.spec_regions().len() ==> (#[trigger] self.spec_regions()[i]).start_page
                + self.spec_regions()[i].pages <= DYNAMIC_RANGE_END_PAGE + 1
    }

    /// The byte at `addr` lies in some heap run.
    pub open spec fn spec_contains_address(self, addr: u64) -> bool {
        exists|i: int|
            0 <= i < self.spec_regions().len() && (#[trigger] self.spec_regions()[i]).start_page
                <= addr / PAGE_SIZE < self.spec_regions()[i].start_page
                + self.spec_regions()[i].pages
    }

    /// Every page of every heap run is mapped with exactly the heap flags.
    pub open spec fn spec_heap_mapped(self, mm: PlatformVirtualMemoryManager) -> bool {
        forall|i: int, p: int|
            0 <= i < self.spec_regions().len() && (#[trigger] self.spec_regions()[i]).start_page
                <= p < self.spec_regions()[i].start_page + self.spec_regions()[i].pages ==> (
            #[trigger] mm.spec_map_view().contains_key(p as u64))
                && mm.spec_map_view()[p as u64].1 == HEAP_FLAGS
    }

    /// Bring the heap up: map its initial run at or above the configured
    /// heap base.
    pub fn init(
        mm: &mut PlatformVirtualMemoryManager,
        allocator: &mut BootInfoFrameAllocator,
    ) -> (r: Result<KernelAllocator, MemoryManagerError>)
        requires
            old(mm).wf(),
            old(allocator).wf(),
        ensures
            final(mm).wf(),
            final(allocator).wf(),
            match r {
                Ok(h) => {
                    &&& h.wf()
                    &&& h.spec_regions().len() == 1
                    &&& h.spec_regions()[0].pages == KERNEL_HEAP_PAGES
                    &&& h.spec_regions()[0].start_page >= KERNEL_HEAP_START / PAGE_SIZE
                    &&& h.spec_heap_mapped(*final(mm))
                },
                Err(MemoryManagerError::OutOfVirtualRange) => {
                    &&& final(mm).spec_map_view() == old(mm).spec_map_view()
                    &&& final(mm).spec_cursor() == old(mm).spec_cursor()
                    &&& final(allocator).spec_used() == old(allocator).spec_used()
                },
                Err(MemoryManagerError::FrameAllocationFailed) => {
                    &&& final(mm).spec_cursor() == old(mm).spec_cursor()
                    &&& ((final(mm).spec_map_view() == old(mm).spec_map_view() && final(allocator).spec_used() == old(allocator).spec_used() && spec_free_ordinary(
                        *old(allocator),
                    ) < KERNEL_HEAP_PAGES) || (forall|p: int|
                        spec_first_ordinary_page() <= p < final(allocator).spec_used().len()
                            && spec_usable_covers(final(allocator).spec_regions(), p) ==> final(allocator).spec_used()[p]))
                },
            },
    {
        let base = PlatformMemoryAddress::from(KERNEL_HEAP_START);
        let a = match mm.allocate_contiguous(
            KERNEL_HEAP_PAGES as usize,
            Some(base),
            HEAP_FLAGS,
            allocator,
        ) {
            Ok(a) => a,
            Err(e) => {
                return Err(e);
            },
        };
        let start_page = a.to_platform_value() / PAGE_SIZE;
        let mut regions: Vec<HeapRegion> = Vec::new();
        regions.push(HeapRegion { start_page, pages: KERNEL_HEAP_PAGES });
        let h = KernelAllocator { regions };
        proof {
            assert forall|i: int, p: int|
                0 <= i < h.spec_regions().len() && (#[trigger] h.spec_regions()[i]).start_page <= p
                    < h.spec_regions()[i].start_page + h.spec_regions()[i].pages implies (
            #[trigger] mm.spec_map_view().contains_key(p as u64)) && mm.spec_map_view()[p as u64].1
                == HEAP_FLAGS by {
                let k = p - start_page;
                assert(mm.spec_map_view().contains_key(
                    (a.spec_value() / PAGE_SIZE + k) as u64,
                ));
            }
        }
        Ok(h)
    }

    /// Grow the heap because `needed_bytes` could not be served: request a
    /// fresh contiguous run, anchored at the end of the last run, of
    /// [`spec_grow_amount`] pages, which always adds more bytes than were
    /// missing.
    pub fn extend_heap(
        &mut self,
        needed_bytes: usize,
        mm: &mut PlatformVirtualMemoryManager,
        allocator: &mut BootInfoFrameAllocator,
    ) -> (r: Result<(), MemoryManagerError>)
        requires
            old(self).wf(),
            old(mm).wf(),
            old(allocator).wf(),
            old(self).spec_heap_mapped(*old(mm)),
            needed_bytes * 8 <= usize::MAX,
            old(self).spec_total_pages() + 1 <= usize::MAX,
        ensures
            final(self).wf(),
            final(mm).wf(),
            final(allocator).wf(),
            match r {
                Ok(()) => {
                    &&& final(self).spec_regions().len() == old(self).spec_regions().len() + 1
                    &&& forall|i: int|
                        0 <= i < old(self).spec_regions().len() ==> final(self).spec_regions()[i]
                            == old(self).spec_regions()[i]
                    &&& final(self).spec_regions().last().pages == spec_grow_amount(
                        old(self).spec_total_pages(),
                        needed_bytes as int,
                    )
                    &&& final(self).spec_regions().last().pages * PAGE_SIZE > needed_bytes
                    &&& final(self).spec_heap_mapped(*final(mm))
                    &&& (old(self).spec_regions().len() > 0 && old(mm).spec_cursor() <= old(self).spec_regions().last().start_page + old(self).spec_regions().last().pages
                        && old(mm).spec_window_unmapped(
                        old(self).spec_regions().last().start_page + old(self).spec_regions().last().pages as int,
                        spec_grow_amount(old(self).spec_total_pages(), needed_bytes as int),
                    ) && old(self).spec_regions().last().start_page + old(self).spec_regions().last().pages + spec_grow_amount(
                        old(self).spec_total_pages(),
                        needed_bytes as int,
                    ) <= DYNAMIC_RANGE_END_PAGE + 1) ==> final(self).spec_regions().last().start_page
                        == old(self).spec_regions().last().start_page + old(self).spec_regions().last().pages
                },
                Err(MemoryManagerError::OutOfVirtualRange) => {
                    &&& final(self).spec_regions() == old(self).spec_regions()
                    &&& final(mm).spec_map_view() == old(mm).spec_map_view()
                    &&& final(mm).spec_cursor() == old(mm).spec_cursor()
                    &&& final(allocator).spec_used() == old(allocator).spec_used()
                },
                Err(MemoryManagerError::FrameAllocationFailed) => {
                    &&& final(self).spec_regions() == old(self).spec_regions()
                    &&& final(mm).spec_cursor() == old(mm).spec_cursor()
                    &&& ((final(mm).spec_map_view() == old(mm).spec_map_view() && final(allocator).spec_used() == old(allocator).spec_used() && spec_free_ordinary(
                        *old(allocator),
                    ) < spec_grow_amount(old(self).spec_total_pages(), needed_bytes as int)) || (
                    forall|p: int|
                        spec_first_ordinary_page() <= p < final(allocator).spec_used().len()
                            && spec_usable_covers(final(allocator).spec_regions(), p) ==> final(allocator).spec_used()[p]))
                },
            },
    {
        let total = self.total_pages();
        let needed_pages = (needed_bytes * 8) / (PAGE_SIZE as usize) + 1;
        let by_size = total + 1;
        let n = if by_size > needed_pages {
            by_size
        } else {
            needed_pages
        };
        let anchor = match self.regions.len() {
            0 => PlatformMemoryAddress::from(KERNEL_HEAP_START),
            len => {
                let last = self.regions[len - 1];
                proof {
                    assert(self.spec_regions()[len - 1].start_page + self.spec_regions()[len
                        - 1].pages <= DYNAMIC_RANGE_END_PAGE + 1);
                }
                PlatformMemoryAddress::from((last.start_page + last.pages) * PAGE_SIZE)
            },
        };
        let ghost pre_mapped = self.spec_regions();
        let a = match mm.allocate_contiguous(n, Some(anchor), HEAP_FLAGS, allocator) {
            Ok(a) => a,
            Err(e) => {
                return Err(e);
            },
        };
        proof {
            // The anchor is page-aligned, so an allocation that lands on it
            // continues the heap exactly at its old end.
            if old(self).spec_regions().len() > 0 {
                vstd::arithmetic::div_mod::lemma_div_by_multiple(
                    (old(self).spec_regions().last().start_page + old(self).spec_regions().last().pages) as int,
                    PAGE_SIZE as int,
                );
            }
        }
        let start_page = a.to_platform_value() / PAGE_SIZE;
        let new_region = HeapRegion { start_page, pages: n as u64 };
        self.regions.push(new_region);
        proof {
            if old(self).spec_regions().len() > 0 && old(mm).spec_cursor() <= old(
                self,
            ).spec_regions().last().start_page + old(self).spec_regions().last().pages && old(
                mm,
            ).spec_window_unmapped(
                old(self).spec_regions().last().start_page + old(
                    self,
                ).spec_regions().last().pages as int,
                spec_grow_amount(old(self).spec_total_pages(), needed_bytes as int),
            ) && old(self).spec_regions().last().start_page + old(self).spec_regions().last().pages
                + spec_grow_amount(old(self).spec_total_pages(), needed_bytes as int)
                <= DYNAMIC_RANGE_END_PAGE + 1 {
                let end = old(self).spec_regions().last().start_page + old(
                    self,
                ).spec_regions().last().pages;
                assert(n == spec_grow_amount(old(self).spec_total_pages(), needed_bytes as int));
                assert(anchor.spec_value() / PAGE_SIZE == end);
                assert(old(mm).spec_cursor() <= anchor.spec_value() / PAGE_SIZE);
                assert(old(mm).spec_window_unmapped(
                    (anchor.spec_value() / PAGE_SIZE) as int,
                    n as int,
                ));
                assert(anchor.spec_value() / PAGE_SIZE + n <= DYNAMIC_RANGE_END_PAGE + 1);
                assert(a.spec_value() / PAGE_SIZE == anchor.spec_value() / PAGE_SIZE);
                assert(self.spec_regions().last().start_page == end);
            }
            lemma_grow_amount_covers(old(self).spec_total_pages(), needed_bytes as int);
            assert forall|i: int, p: int|
                0 <= i < self.spec_regions().len() && (#[trigger] self.spec_regions()[i]).start_page
                    <= p < self.spec_regions()[i].start_page + self.spec_regions()[i].pages implies (
            #[trigger] mm.spec_map_view().contains_key(p as u64)) && mm.spec_map_view()[p as u64].1
                == HEAP_FLAGS by {
                if i < self.spec_regions().len() - 1 {
                    // An old heap page: it was mapped before the growth, so
                    // it lay outside the freshly-claimed window and kept its
                    // entry.
                    assert(self.spec_regions()[i] == pre_mapped[i]);
                    assert(old(self).spec_regions()[i].start_page <= p < old(self).spec_regions()[i].start_page + old(self).spec_regions()[i].pages);
                    assert(old(mm).spec_map_view().contains_key(p as u64));
                    let c = a.spec_value() / PAGE_SIZE;
                    if c <= p < c + n {
                        let k = p - c;
                        assert(!old(mm).spec_map_view().contains_key((c + k) as u64));
                        assert(false);
                    }
                } else {
                    let k = p - start_page;
                    assert(mm.spec_map_view().contains_key(
                        (a.spec_value() / PAGE_SIZE + k) as u64,
                    ));
                }
            }
        }
        Ok(())
    }

    /// Total heap pages over all runs.
    pub fn total_pages(&self) -> (r: usize)
        requires
            self.wf(),
            self.spec_total_pages() <= usize::MAX,
        ensures
            r == self.spec_total_pages(),
    {
        proof {
            lemma_sum_pages_nonneg(self.spec_regions());
            assert(self.spec_regions().take(0) =~= Seq::<HeapRegion>::empty());
        }
        let mut sum: usize = 0;
        let mut i: usize = 0;
        while i < self.regions.len()
            invariant
                0 <= i <= self.spec_regions().len(),
                self.wf(),
                sum == spec_sum_pages(self.spec_regions().take(i as int)),
                spec_sum_pages(self.spec_regions().take(i as int)) <= self.spec_total_pages(),
                self.spec_total_pages() <= usize::MAX,
            decreases self.spec_regions().len() - i,
        {
            proof {
                assert(self.spec_regions().take(i + 1).drop_last() =~= self.spec_regions().take(
                    i as int,
                ));
                assert(self.spec_regions().take(i + 1).last() == self.spec_regions()[i as int]);
                lemma_sum_pages_prefix(self.spec_regions(), i + 1);
            }
            sum = sum + (self.regions[i].pages as usize);
            i = i + 1;
        }
        proof {
            assert(self.spec_regions().take(self.spec_regions().len() as int)
                =~= self.spec_regions());
        }
        sum
    }

    /// Whether the byte at `addr` lies in the heap.
    pub fn contains_address(&self, addr: u64) -> (r: bool)
        ensures
            r == self.spec_contains_address(addr),
    {
        let page = addr / PAGE_SIZE;
        let mut i: usize = 0;
        while i < self.regions.len()
            invariant
                0 <= i <= self.spec_regions().len(),
                page == addr / PAGE_SIZE,
                forall|j: int|
                    0 <= j < i ==> !((#[trigger] self.spec_regions()[j]).start_page <= addr
                        / PAGE_SIZE < self.spec_regions()[j].start_page
                        + self.spec_regions()[j].pages),
            decreases self.spec_regions().len() - i,
        {
            let region = self.regions[i];
            if region.start_page <= page && page - region.start_page < region.pages {
                proof {
                    assert(self.spec_regions()[i as int].start_page <= addr / PAGE_SIZE
                        < self.spec_regions()[i as int].start_page
                        + self.spec_regions()[i as int].pages);
                }
                return true;
            }
            proof {
                assert(!(self.spec_regions()[i as int].start_page <= addr / PAGE_SIZE
                    < self.spec_regions()[i as int].start_page
                    + self.spec_regions()[i as int].pages));
            }
            i = i + 1;
        }
        false
    }
}

/// Total pages of a run list.
pub open spec fn spec_sum_pages(s: Seq<HeapRegion>) -> int
    decreases s.len(),
{
    if s.len() == 0 {
        0
    } else {
        spec_sum_pages(s.drop_last()) + s.last().pages
    }
}

proof fn lemma_sum_pages_nonneg(s: Seq<HeapRegion>)
    ensures
        spec_sum_pages(s) >= 0,
    decreases s.len(),
{
    if s.len() > 0 {
        lemma_sum_pages_nonneg(s.drop_last());
    }
}

proof fn lemma_sum_pages_prefix(s: Seq<HeapRegion>, i: int)
    requires
        0 <= i <= s.len(),
    ensures
        spec_sum_pages(s.take(i)) <= spec_sum_pages(s),
    decreases s.len() - i,
{
    if i < s.len() {
        lemma_sum_pages_prefix(s, i + 1);
        assert(s.take(i + 1).drop_last() =~= s.take(i));
        assert(s.take(i + 1).last() == s[i]);
    } else {
        assert(s.take(i) =~= s);
    }
}

/// The growth policy always adds more bytes than were asked for.
proof fn lemma_grow_amount_covers(total_pages: int, needed_bytes: int)
    requires
        total_pages >= 0,
        needed_bytes >= 0,
    ensures
        spec_grow_amount(total_pages, needed_bytes) * PAGE_SIZE > needed_bytes,
{
    let by_need = needed_bytes * 8 / (PAGE_SIZE as int) + 1;
    let n = spec_grow_amount(total_pages, needed_bytes);
    vstd::arithmetic::div_mod::lemma_fundamental_div_mod(
        needed_bytes * 8,
        PAGE_SIZE as int,
    );
    assert(by_need * (PAGE_SIZE as int) > needed_bytes * 8 - (PAGE_SIZE as int)
        + (PAGE_SIZE as int)) by (nonlinear_arith)
        requires
            by_need == needed_bytes * 8 / (PAGE_SIZE as int) + 1,
            needed_bytes * 8 >= (PAGE_SIZE as int) * (needed_bytes * 8 / (PAGE_SIZE as int)),
            needed_bytes * 8 - (PAGE_SIZE as int) < (PAGE_SIZE as int) * (needed_bytes * 8
                / (PAGE_SIZE as int)),
    ;
    assert(n >= by_need);
    vstd::arithmetic::mul::lemma_mul_inequality(by_need, n, PAGE_SIZE as int);
    assert(needed_bytes * 8 >= needed_bytes) by (nonlinear_arith)
        requires
            needed_bytes >= 0,
    ;
}

/// Any pointer the heap hands out lies in a page whose leaf entry carries
/// PRESENT, WRITABLE and NO_EXECUTE: the heap maps every one of its pages
/// with exactly those flags.
pub proof fn lemma_heap_pointer_mapped(
    h: KernelAllocator,
    mm: PlatformVirtualMemoryManager,
    addr: u64,
)
    requires
        h.spec_heap_mapped(mm),
        h.spec_contains_address(addr),
    ensures
        mm.spec_map_view().contains_key(addr / PAGE_SIZE),
        mm.spec_map_view()[addr / PAGE_SIZE].1 & FLAG_PRESENT == FLAG_PRESENT,
        mm.spec_map_view()[addr / PAGE_SIZE].1 & FLAG_WRITABLE == FLAG_WRITABLE,
        mm.spec_map_view()[addr / PAGE_SIZE].1 & FLAG_NO_EXECUTE == FLAG_NO_EXECUTE,
{
    let i = choose|i: int|
        0 <= i < h.spec_regions().len() && (#[trigger] h.spec_regions()[i]).start_page <= addr
            / PAGE_SIZE < h.spec_regions()[i].start_page + h.spec_regions()[i].pages;
    assert(mm.spec_map_view().contains_key(((addr / PAGE_SIZE) as int) as u64));
    assert(mm.spec_map_view()[addr / PAGE_SIZE].1 == HEAP_FLAGS);
    assert(1u64 | 2u64 | 0x8000000000000000u64 == 0x8000000000000003u64) by (bit_vector);
    assert(HEAP_FLAGS == 0x8000000000000003u64);
    assert(0x8000000000000003u64 & 1u64 == 1u64) by (bit_vector);
    assert(0x8000000000000003u64 & 2u64 == 2u64) by (bit_vector);
    assert(0x8000000000000003u64 & 0x8000000000000000u64 == 0x8000000000000000u64)
        by (bit_vector);
}

} // verus!
