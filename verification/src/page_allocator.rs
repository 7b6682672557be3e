//! Page-granular physical allocator over a [`PageTracker`], fed once with
//! the firmware memory map.
use vstd::prelude::*;
use vstd::arithmetic::div_mod::lemma_div_is_ordered;
use crate::addr::PAGE_SIZE;
use crate::addr::PageRange;
use crate::addr::PageState;
use crate::addr::PlatformMemoryAddress;
use crate::page_tracker::PageTracker;
use crate::page_tracker::PageTrackerError;
use crate::page_tracker::spec_window_free;

verus! {

pub const ONE_MEGABYTE: u64 = 1024 * 1024;

pub const ONE_GIGABYTE: u64 = ONE_MEGABYTE * 1024;

pub const ONE_TERABYTE: u64 = ONE_GIGABYTE * 1024;

/// The largest physical address the allocator will track.
pub const MAX_SUPPORTED_MEMORY: u64 = ONE_TERABYTE * 8;

pub const MAX_SUPPORTED_PAGES: u64 = MAX_SUPPORTED_MEMORY / PAGE_SIZE;

/// The page span `[start_page, end_page)` of a firmware range.
pub open spec fn spec_covers_pages(r: PageRange, p: int) -> bool {
    r.start.spec_value() / PAGE_SIZE <= p < r.end.spec_value() / PAGE_SIZE
}

/// Whether page `p` is used after the ranges are applied in order; a later
/// range overrides an earlier one, and uncovered pages stay free.
pub open spec fn spec_used_after(ranges: Seq<PageRange>, p: int) -> bool
    decreases ranges.len(),
{
    if ranges.len() == 0 {
        false
    } else if spec_covers_pages(ranges.last(), p) {
        ranges.last().page_state == PageState::Used
    } else {
        spec_used_after(ranges.drop_last(), p)
    }
}

/// The highest `end` address among the ranges.
pub open spec fn spec_max_end_addr(ranges: Seq<PageRange>) -> u64
    decreases ranges.len(),
{
    if ranges.len() == 0 {
        0
    } else if ranges.last().end.spec_value() > spec_max_end_addr(ranges.drop_last()) {
        ranges.last().end.spec_value()
    } else {
        spec_max_end_addr(ranges.drop_last())
    }
}

/// A firmware range the allocator can digest: not inverted, and within the
/// supported physical address space.
pub open spec fn spec_range_ok(r: PageRange) -> bool {
    &&& r.start.spec_value() <= r.end.spec_value()
    &&& r.end.spec_value() <= MAX_SUPPORTED_MEMORY
}

/// Pages needed to hold `size` bytes.
pub open spec fn spec_pages_for_size(size: int) -> int {
    size / (PAGE_SIZE as int) + if size % (PAGE_SIZE as int) == 0 {
        0int
    } else {
        1int
    }
}

/// The kernel's physical page allocator.
pub struct PageAllocator {
    tracker: PageTracker,
}

impl View for PageAllocator {
    type V = Seq<bool>;

    closed spec fn view(&self) -> Seq<bool> {
        self.tracker@
    }
}

impl PageAllocator {
    /// The allocator covers at most the supported physical address space.
    pub open spec fn wf(self) -> bool {
        self@.len() <= MAX_SUPPORTED_PAGES + 1
    }

    /// A fresh allocator that tracks nothing yet; [`Self::initialize`] feeds
    /// it the firmware memory map.
    pub fn instance() -> (r: PageAllocator)
        ensures
            r@.len() == 0,
            r.wf(),
    {
        PageAllocator { tracker: PageTracker::new(0) }
    }

    /// Digest the firmware memory map: size the tracker to the highest
    /// address, mark each range in order, and reserve the zero page so it is
    /// never handed out.
    pub fn initialize(&mut self, memory_map: &Vec<PageRange>)
        requires
            old(self)@.len() == 0,
            memory_map@.len() > 0,
            forall|i: int| 0 <= i < memory_map@.len() ==> spec_range_ok(#[trigger] memory_map@[i]),
        ensures
            final(self)@.len() == spec_max_end_addr(memory_map@) / PAGE_SIZE + 1,
            final(self).wf(),
            forall|p: int|
                0 <= p < final(self)@.len() ==> final(self)@[p] == (p == 0 || spec_used_after(
                    memory_map@,
                    p,
                )),
    {
        let mut max_address: u64 = 0;
        let mut k: usize = 0;
        while k < memory_map.len()
            invariant
                0 <= k <= memory_map@.len(),
                max_address == spec_max_end_addr(memory_map@.take(k as int)),
                forall|i: int|
                    0 <= i < memory_map@.len() ==> spec_range_ok(#[trigger] memory_map@[i]),
            decreases memory_map@.len() - k,
        {
            let end = memory_map[k].end.to_platform_value();
            if end > max_address {
                max_address = end;
            }
            proof {
                assert(memory_map@.take(k + 1).drop_last() =~= memory_map@.take(k as int));
                assert(memory_map@.take(k + 1).last() == memory_map@[k as int]);
            }
            k = k + 1;
        }
        proof {
            assert(memory_map@.take(memory_map@.len() as int) =~= memory_map@);
            lemma_max_end_bounded(memory_map@);
        }
        let max_page = PlatformMemoryAddress::from(max_address).to_page_number();
        match self.tracker.resize(max_page + 1) {
            Ok(()) => {},
            Err(_) => {},
        }

        let ghost tracked_len = spec_max_end_addr(memory_map@) / PAGE_SIZE + 1;
        let mut k: usize = 0;
        while k < memory_map.len()
            invariant
                0 <= k <= memory_map@.len(),
                self@.len() == spec_max_end_addr(memory_map@) / PAGE_SIZE + 1,
                forall|i: int|
                    0 <= i < memory_map@.len() ==> spec_range_ok(#[trigger] memory_map@[i]),
                forall|p: int|
                    0 <= p < self@.len() ==> self@[p] == spec_used_after(
                        memory_map@.take(k as int),
                        p,
                    ),
            decreases memory_map@.len() - k,
        {
            let range = memory_map[k];
            proof {
                lemma_div_is_ordered(
                    range.start.spec_value() as int,
                    range.end.spec_value() as int,
                    PAGE_SIZE as int,
                );
                lemma_max_end_covers(memory_map@, k as int);
                lemma_div_is_ordered(
                    range.end.spec_value() as int,
                    spec_max_end_addr(memory_map@) as int,
                    PAGE_SIZE as int,
                );
            }
            let start_page = range.start.to_page_number();
            let end_page = range.end.to_page_number();
            let count = end_page - start_page;
            match range.page_state {
                PageState::Free => {
                    match self.tracker.free_range(start_page, count) {
                        Ok(()) => {},
                        Err(_) => {},
                    }
                },
                PageState::Used => {
                    match self.tracker.reserve_range(start_page, count) {
                        Ok(()) => {},
                        Err(_) => {},
                    }
                },
            }
            proof {
                assert(memory_map@.take(k + 1).drop_last() =~= memory_map@.take(k as int));
                assert(memory_map@.take(k + 1).last() == memory_map@[k as int]);
            }
            k = k + 1;
        }
        proof {
            assert(memory_map@.take(memory_map@.len() as int) =~= memory_map@);
        }
        match self.tracker.reserve(0) {
            Ok(()) => {},
            Err(_) => {},
        }
    }

    /// Allocate enough pages for `size` bytes, never from the zero page.
    /// Returns the start address of the run.
    pub fn allocate_size(&mut self, size: usize) -> (r: Result<
        PlatformMemoryAddress,
        PageTrackerError,
    >)
        requires
            old(self).wf(),
        ensures
            final(self).wf(),
            final(self)@.len() == old(self)@.len(),
            match r {
                Ok(a) => {
                    &&& a.spec_value() % PAGE_SIZE == 0
                    &&& a.spec_value() / PAGE_SIZE >= 1
                    &&& spec_window_free(
                        old(self)@,
                        (a.spec_value() / PAGE_SIZE) as int,
                        spec_pages_for_size(size as int),
                    ) || size == 0
                    &&& forall|j: int|
                        0 <= j < final(self)@.len() ==> final(self)@[j] == (old(self)@[j] || (
                        (a.spec_value() / PAGE_SIZE) as int <= j < (a.spec_value() / PAGE_SIZE) as int
                            + spec_pages_for_size(size as int)))
                },
                Err(_) => {
                    &&& final(self)@ == old(self)@
                    &&& spec_pages_for_size(size as int) > 0 ==> forall|i2: int|
                        i2 >= 1 ==> !spec_window_free(
                            old(self)@,
                            i2,
                            spec_pages_for_size(size as int),
                        )
                },
            },
    {
        let needs_extra_page: usize = if size % (PAGE_SIZE as usize) == 0 {
            0
        } else {
            1
        };
        let count = size / (PAGE_SIZE as usize) + needs_extra_page;
        let result = match self.tracker.find_free_range(1, count) {
            Ok(v) => v,
            Err(e) => {
                return Err(e);
            },
        };
        match self.tracker.reserve_range(result, count) {
            Ok(()) => {},
            Err(_) => {},
        }
        proof {
            assert(result <= 1 || result < old(self)@.len());
        }
        Ok(PlatformMemoryAddress::from_page_number(result))
    }

    /// Mark the `page_count` pages from `start_address` on as used, wherever
    /// they were before; used for memory the kernel claims outright.
    pub fn force_allocate_pages(
        &mut self,
        start_address: PlatformMemoryAddress,
        page_count: usize,
    ) -> (r: Result<(), PageTrackerError>)
        requires
            old(self).wf(),
            start_address.spec_value() / PAGE_SIZE + page_count <= usize::MAX,
        ensures
            final(self).wf(),
            final(self)@.len() == old(self)@.len(),
            forall|j: int|
                0 <= j < final(self)@.len() ==> final(self)@[j] == (old(self)@[j] || (
                (start_address.spec_value() / PAGE_SIZE) as int <= j < (start_address.spec_value() as int)
                    / (PAGE_SIZE as int) + page_count)),
            r is Ok <==> (page_count == 0 || (start_address.spec_value() / PAGE_SIZE) as int
                + page_count <= old(self)@.len()),
            r is Err ==> r == Err::<(), PageTrackerError>(PageTrackerError::NotFound),
    {
        self.tracker.reserve_range(start_address.to_page_number(), page_count)
    }

    /// Free the pages that held `size` bytes at `address`.
    pub fn free_size(&mut self, address: PlatformMemoryAddress, size: usize) -> (r: Result<
        (),
        PageTrackerError,
    >)
        requires
            old(self).wf(),
            address.spec_value() / PAGE_SIZE + spec_pages_for_size(size as int) <= usize::MAX,
        ensures
            final(self).wf(),
            final(self)@.len() == old(self)@.len(),
            forall|j: int|
                0 <= j < final(self)@.len() ==> final(self)@[j] == (old(self)@[j] && !(
                (address.spec_value() / PAGE_SIZE) as int <= j < (address.spec_value() as int)
                    / (PAGE_SIZE as int) + spec_pages_for_size(size as int))),
            r is Ok <==> (spec_pages_for_size(size as int) == 0 || (address.spec_value() as int)
                / (PAGE_SIZE as int) + spec_pages_for_size(size as int) <= old(self)@.len()),
            r is Err ==> r == Err::<(), PageTrackerError>(PageTrackerError::NotFound),
    {
        let needs_extra_page: usize = if size % (PAGE_SIZE as usize) == 0 {
            0
        } else {
            1
        };
        let count = size / (PAGE_SIZE as usize) + needs_extra_page;
        self.tracker.free_range(address.to_page_number(), count)
    }

    /// Allocate `page_count` consecutive pages at or after `start_address`.
    pub fn allocate_range(
        &mut self,
        start_address: PlatformMemoryAddress,
        page_count: usize,
    ) -> (r: Result<PlatformMemoryAddress, PageTrackerError>)
        requires
            old(self).wf(),
            start_address.spec_value() / PAGE_SIZE <= usize::MAX,
        ensures
            final(self).wf(),
            final(self)@.len() == old(self)@.len(),
            match r {
                Ok(a) => {
                    &&& a.spec_value() % PAGE_SIZE == 0
                    &&& a.spec_value() / PAGE_SIZE >= start_address.spec_value() / PAGE_SIZE
                    &&& page_count > 0 ==> spec_window_free(
                        old(self)@,
                        (a.spec_value() / PAGE_SIZE) as int,
                        page_count as int,
                    )
                    &&& forall|j: int|
                        0 <= j < final(self)@.len() ==> final(self)@[j] == (old(self)@[j] || (
                        (a.spec_value() / PAGE_SIZE) as int <= j < (a.spec_value() / PAGE_SIZE) as int
                            + page_count))
                },
                Err(_) => {
                    &&& final(self)@ == old(self)@
                    &&& page_count > 0 ==> forall|i2: int|
                        i2 >= start_address.spec_value() / PAGE_SIZE ==> !spec_window_free(
                            old(self)@,
                            i2,
                            page_count as int,
                        )
                },
            },
    {
        let start_page = start_address.to_page_number();
        let result = match self.tracker.find_free_range(start_page, page_count) {
            Ok(v) => v,
            Err(e) => {
                return Err(e);
            },
        };
        match self.tracker.reserve_range(result, page_count) {
            Ok(()) => {},
            Err(_) => {},
        }
        proof {
            lemma_div_is_ordered(
                start_address.spec_value() as int,
                u64::MAX as int,
                PAGE_SIZE as int,
            );
        }
        Ok(PlatformMemoryAddress::from_page_number(result))
    }

    /// Free `page_count` pages from `start_address` on.
    pub fn free_range(
        &mut self,
        start_address: PlatformMemoryAddress,
        page_count: usize,
    ) -> (r: Result<(), PageTrackerError>)
        requires
            old(self).wf(),
            start_address.spec_value() / PAGE_SIZE + page_count <= usize::MAX,
        ensures
            final(self).wf(),
            final(self)@.len() == old(self)@.len(),
            forall|j: int|
                0 <= j < final(self)@.len() ==> final(self)@[j] == (old(self)@[j] && !(
                (start_address.spec_value() / PAGE_SIZE) as int <= j < (start_address.spec_value() as int)
                    / (PAGE_SIZE as int) + page_count)),
            r is Ok <==> (page_count == 0 || (start_address.spec_value() / PAGE_SIZE) as int
                + page_count <= old(self)@.len()),
            r is Err ==> r == Err::<(), PageTrackerError>(PageTrackerError::NotFound),
    {
        self.tracker.free_range(start_address.to_page_number(), page_count)
    }

    /// Allocate a single page anywhere in tracked memory.
    pub fn allocate_frame(&mut self) -> (r: Option<PlatformMemoryAddress>)
        requires
            old(self).wf(),
        ensures
            final(self).wf(),
            final(self)@.len() == old(self)@.len(),
            match r {
                Some(a) => {
                    &&& a.spec_value() % PAGE_SIZE == 0
                    &&& spec_window_free(old(self)@, (a.spec_value() / PAGE_SIZE) as int, 1)
                    &&& final(self)@ == old(self)@.update(
                        (a.spec_value() / PAGE_SIZE) as int,
                        true,
                    )
                },
                None => final(self)@ == old(self)@ && forall|p: int|
                    0 <= p < old(self)@.len() ==> old(self)@[p],
            },
    {
        let ghost pre = self@;
        let result = match self.allocate_range(PlatformMemoryAddress::from(0), 1) {
            Err(_) => None,
            Ok(address) => Some(address),
        };
        proof {
            match result {
                Some(a) => {
                    assert(self@ =~= pre.update((a.spec_value() / PAGE_SIZE) as int, true));
                },
                None => {
                    assert forall|p: int| 0 <= p < pre.len() implies pre[p] by {
                        if !pre[p] {
                            assert(spec_window_free(pre, p, 1));
                        }
                    }
                },
            }
        }
        result
    }

    /// Whether page `index` is currently allocated or reserved.
    pub fn is_used(&self, index: usize) -> (r: bool)
        ensures
            r == (index < self@.len() && self@[index as int]),
    {
        self.tracker.is_used(index)
    }

    /// How many pages the allocator tracks.
    pub fn len(&self) -> (r: usize)
        ensures
            r == self@.len(),
    {
        self.tracker.len()
    }
}

/// Freeing a frame straight after allocating it returns the tracker to its
/// prior state: the allocation sets exactly one previously-clear bit, and
/// the free clears exactly that bit again.
pub proof fn lemma_allocate_free_round_trip(
    before: Seq<bool>,
    after_allocate: Seq<bool>,
    after_free: Seq<bool>,
    p: int,
)
    requires
        0 <= p < before.len(),
        !before[p],
        after_allocate == before.update(p, true),
        after_free.len() == after_allocate.len(),
        forall|j: int|
            0 <= j < after_free.len() ==> after_free[j] == (after_allocate[j] && !(p <= j < p
                + 1)),
    ensures
        after_free == before,
{
    assert(after_free =~= before);
}

/// The maximum end address bounds every range's end.
proof fn lemma_max_end_covers(ranges: Seq<PageRange>, i: int)
    requires
        0 <= i < ranges.len(),
    ensures
        ranges[i].end.spec_value() <= spec_max_end_addr(ranges),
    decreases ranges.len(),
{
    if i == ranges.len() - 1 {
    } else {
        lemma_max_end_covers(ranges.drop_last(), i);
    }
}

/// If every range ends within supported memory, so does the maximum.
proof fn lemma_max_end_bounded(ranges: Seq<PageRange>)
    requires
        forall|i: int| 0 <= i < ranges.len() ==> spec_range_ok(#[trigger] ranges[i]),
    ensures
        spec_max_end_addr(ranges) <= MAX_SUPPORTED_MEMORY,
    decreases ranges.len(),
{
    if ranges.len() > 0 {
        lemma_max_end_bounded(ranges.drop_last());
    }
}

} // verus!
