//! Physical frame allocator over the boot-time memory map. Non-usable
//! regions are reserved up front; ordinary allocation never hands out
//! conventional memory (below 1 MiB), which is kept for the AP trampoline.
use vstd::prelude::*;
use crate::addr::spec_is_conventional;
use crate::addr::PAGE_SIZE;
use crate::addr::PlatformMemoryAddress;
use crate::bits::BitSet;
use crate::bits::spec_bits;
use crate::page_allocator::MAX_SUPPORTED_MEMORY;
use crate::page_allocator::MAX_SUPPORTED_PAGES;

verus! {

/// What the loader reports a region of physical memory to be. Anything but
/// `Usable` belongs to the firmware or the loader and is never allocated.
#[derive(Clone, Copy, Debug, PartialEq, Eq, Structural)]
pub enum MemoryRegionKind {
    Usable,
    Bootloader,
    UnknownBios,
    UnknownUefi,
}

/// One region of the boot-time memory map: `[start, end)` bytes.
#[derive(Clone, Copy, Debug, PartialEq, Eq, Structural)]
pub struct MemoryRegion {
    pub start: u64,
    pub end: u64,
    pub kind: MemoryRegionKind,
}

/// Number of pages needed to cover addresses below `end`.
pub open spec fn spec_ceil_pages(end: u64) -> int {
    (end + PAGE_SIZE - 1) as int / (PAGE_SIZE as int)
}

/// Whether page `p` holds any byte of `r`.
pub open spec fn spec_region_covers_page(r: MemoryRegion, p: int) -> bool {
    (r.start as int) / (PAGE_SIZE as int) <= p < spec_ceil_pages(r.end)
}

/// Whether page `p` holds a byte of any non-usable region: memory the
/// firmware or loader owns.
pub open spec fn spec_firmware_reserved(map: Seq<MemoryRegion>, p: int) -> bool {
    exists|i: int|
        0 <= i < map.len() && (#[trigger] map[i]).kind != MemoryRegionKind::Usable
            && spec_region_covers_page(map[i], p)
}

/// Whether page `p` holds a byte of some usable region.
pub open spec fn spec_usable_covers(map: Seq<MemoryRegion>, p: int) -> bool {
    exists|i: int|
        0 <= i < map.len() && (#[trigger] map[i]).kind == MemoryRegionKind::Usable
            && spec_region_covers_page(map[i], p)
}

/// A region the allocator can digest.
pub open spec fn spec_region_wf(r: MemoryRegion) -> bool {
    &&& r.start <= r.end
    &&& r.end <= MAX_SUPPORTED_MEMORY
}

/// The highest `end` address in the map.
pub open spec fn spec_max_region_end(map: Seq<MemoryRegion>) -> u64
    decreases map.len(),
{
    if map.len() == 0 {
        0
    } else if map.last().end > spec_max_region_end(map.drop_last()) {
        map.last().end
    } else {
        spec_max_region_end(map.drop_last())
    }
}

/// The page number of the first frame outside conventional memory, 1 MiB.
pub open spec fn spec_first_ordinary_page() -> int {
    0x100000int / (PAGE_SIZE as int)
}

/// Frame allocator fed by the boot-time memory map.
pub struct BootInfoFrameAllocator {
    memory_map: Vec<MemoryRegion>,
    used_pages: BitSet,
}

impl BootInfoFrameAllocator {
    /// The memory map the allocator was initialised with.
    pub closed spec fn spec_regions(self) -> Seq<MemoryRegion> {
        self.memory_map@
    }

    /// The used/free bit per page; true means allocated or reserved.
    pub closed spec fn spec_used(self) -> Seq<bool> {
        spec_bits(self.used_pages)
    }

    /// Established by `init` and preserved by every method: the map is
    /// digestible and the bitmap covers it.
    pub open spec fn wf(self) -> bool {
        &&& forall|i: int|
            0 <= i < self.spec_regions().len() ==> spec_region_wf(#[trigger] self.spec_regions()[i])
        &&& self.spec_used().len() == spec_ceil_pages(spec_max_region_end(self.spec_regions()))
        &&& self.spec_used().len() <= MAX_SUPPORTED_PAGES + 1
    }

    /// An allocator that knows no memory yet; [`Self::init`] feeds it the
    /// loader's map.
    pub fn new() -> (r: BootInfoFrameAllocator)
        ensures
            r.wf(),
            r.spec_regions().len() == 0,
            r.spec_used().len() == 0,
    {
        BootInfoFrameAllocator { memory_map: Vec::new(), used_pages: BitSet::new() }
    }

    /// Digest the loader's memory map: size the bitmap to the highest
    /// address and reserve every page that holds a byte the firmware or
    /// loader owns.
    pub fn init(&mut self, memory_map: Vec<MemoryRegion>)
        requires
            old(self).spec_used().len() == 0,
            forall|i: int| 0 <= i < memory_map@.len() ==> spec_region_wf(#[trigger] memory_map@[i]),
        ensures
            final(self).wf(),
            final(self).spec_regions() == memory_map@,
            forall|p: int|
                0 <= p < final(self).spec_used().len() ==> final(self).spec_used()[p] == (p == 0
                    || spec_firmware_reserved(memory_map@, p)),
    {
        let mut max_end: u64 = 0;
        let mut k: usize = 0;
        while k < memory_map.len()
            invariant
                0 <= k <= memory_map@.len(),
                max_end == spec_max_region_end(memory_map@.take(k as int)),
                forall|i: int|
                    0 <= i < memory_map@.len() ==> spec_region_wf(#[trigger] memory_map@[i]),
            decreases memory_map@.len() - k,
        {
            let end = memory_map[k].end;
            if end > max_end {
                max_end = end;
            }
            proof {
                assert(memory_map@.take(k + 1).drop_last() =~= memory_map@.take(k as int));
                assert(memory_map@.take(k + 1).last() == memory_map@[k as int]);
            }
            k = k + 1;
        }
        proof {
            assert(memory_map@.take(memory_map@.len() as int) =~= memory_map@);
            lemma_max_region_end_wf(memory_map@);
        }
        let page_count = ((max_end + PAGE_SIZE - 1) / PAGE_SIZE) as usize;
        self.used_pages.resize(page_count, false);

        let mut k: usize = 0;
        while k < memory_map.len()
            invariant
                0 <= k <= memory_map@.len(),
                self.spec_regions() == old(self).spec_regions(),
                self.spec_used().len() == spec_ceil_pages(spec_max_region_end(memory_map@)),
                self.spec_used().len() <= MAX_SUPPORTED_PAGES + 1,
                forall|i: int|
                    0 <= i < memory_map@.len() ==> spec_region_wf(#[trigger] memory_map@[i]),
                forall|p: int|
                    0 <= p < self.spec_used().len() ==> self.spec_used()[p]
                        == spec_firmware_reserved(memory_map@.take(k as int), p),
            decreases memory_map@.len() - k,
        {
            let region = memory_map[k];
            proof {
                lemma_max_region_end_covers(memory_map@, k as int);
            }
            if !matches!(region.kind, MemoryRegionKind::Usable) {
                let start_page = (region.start / PAGE_SIZE) as usize;
                let end_page = ((region.end + PAGE_SIZE - 1) / PAGE_SIZE) as usize;
                let mut p = start_page;
                while p < end_page
                    invariant
                        start_page <= p <= end_page,
                        start_page == (region.start as int) / (PAGE_SIZE as int),
                        end_page == spec_ceil_pages(region.end),
                        end_page <= self.spec_used().len(),
                        self.spec_regions() == old(self).spec_regions(),
                        self.spec_used().len() == spec_ceil_pages(
                            spec_max_region_end(memory_map@),
                        ),
                        region.kind != MemoryRegionKind::Usable,
                        forall|q: int|
                            0 <= q < self.spec_used().len() ==> self.spec_used()[q]
                                == (spec_firmware_reserved(memory_map@.take(k as int), q) || (
                            start_page <= q < p)),
                    decreases end_page - p,
                {
                    self.used_pages.set(p, true);
                    p = p + 1;
                }
            }
            proof {
                assert(memory_map@.take(k + 1).drop_last() =~= memory_map@.take(k as int));
                assert(memory_map@.take(k + 1).last() == memory_map@[k as int]);
                assert forall|p: int| 0 <= p < self.spec_used().len() implies self.spec_used()[p]
                    == spec_firmware_reserved(memory_map@.take(k + 1), p) by {
                    if spec_firmware_reserved(memory_map@.take(k + 1), p) {
                        let i = choose|i: int|
                            0 <= i < memory_map@.take(k + 1).len() && (#[trigger] memory_map@.take(
                                k + 1,
                            )[i]).kind != MemoryRegionKind::Usable && spec_region_covers_page(
                                memory_map@.take(k + 1)[i],
                                p,
                            );
                        if i < k {
                            assert(spec_firmware_reserved(memory_map@.take(k as int), p));
                        }
                    }
                    if self.spec_used()[p] {
                        if spec_firmware_reserved(memory_map@.take(k as int), p) {
                            let i = choose|i: int|
                                0 <= i < memory_map@.take(k as int).len() && (
                                #[trigger] memory_map@.take(k as int)[i]).kind
                                    != MemoryRegionKind::Usable && spec_region_covers_page(
                                    memory_map@.take(k as int)[i],
                                    p,
                                );
                            assert(memory_map@.take(k + 1)[i] == memory_map@[i]);
                        }
                    }
                }
            }
            k = k + 1;
        }
        proof {
            assert(memory_map@.take(memory_map@.len() as int) =~= memory_map@);
        }
        if self.used_pages.len() > 0 {
            // The zero frame is never handed out in the ordinary way; only
            // the trampoline claims it, through force_allocate.
            self.used_pages.set(0, true);
        }
        self.memory_map = memory_map;
    }

    /// Whether some usable region covers page `page`: a scan of the map.
    fn usable_covers(&self, page: usize) -> (r: bool)
        requires
            self.wf(),
        ensures
            r == spec_usable_covers(self.spec_regions(), page as int),
    {
        let mut i: usize = 0;
        while i < self.memory_map.len()
            invariant
                self.wf(),
                0 <= i <= self.spec_regions().len(),
                forall|j: int|
                    0 <= j < i ==> !((#[trigger] self.spec_regions()[j]).kind
                        == MemoryRegionKind::Usable && spec_region_covers_page(
                        self.spec_regions()[j],
                        page as int,
                    )),
            decreases self.spec_regions().len() - i,
        {
            let region = self.memory_map[i];
            if matches!(region.kind, MemoryRegionKind::Usable) {
                let start_page = (region.start / PAGE_SIZE) as usize;
                let end_page = ((region.end + PAGE_SIZE - 1) / PAGE_SIZE) as usize;
                if start_page <= page && page < end_page {
                    proof {
                        assert(spec_region_covers_page(self.spec_regions()[i as int], page as int));
                        assert(spec_usable_covers(self.spec_regions(), page as int));
                    }
                    return true;
                }
            }
            i = i + 1;
        }
        false
    }

    /// Whether `page` could be handed out: it lies in a usable region and is
    /// not yet allocated or reserved.
    pub fn is_usable(&self, page: usize) -> (r: bool)
        requires
            self.wf(),
        ensures
            r == (page < self.spec_used().len() && !self.spec_used()[page as int]
                && spec_usable_covers(self.spec_regions(), page as int)),
    {
        if page >= self.used_pages.len() {
            return false;
        }
        if self.used_pages.get(page) {
            return false;
        }
        self.usable_covers(page)
    }

    /// Allocate any free frame of ordinary memory. Never returns a frame
    /// below 1 MiB: conventional memory is kept for the AP trampoline.
    pub fn allocate_frame(&mut self) -> (r: Option<PlatformMemoryAddress>)
        requires
            old(self).wf(),
        ensures
            final(self).wf(),
            final(self).spec_regions() == old(self).spec_regions(),
            match r {
                Some(a) => {
                    &&& a.spec_value() % PAGE_SIZE == 0
                    &&& !spec_is_conventional(a.spec_value())
                    &&& a.spec_value() / PAGE_SIZE < old(self).spec_used().len()
                    &&& spec_usable_covers(
                        old(self).spec_regions(),
                        (a.spec_value() / PAGE_SIZE) as int,
                    )
                    &&& !old(self).spec_used()[(a.spec_value() / PAGE_SIZE) as int]
                    &&& final(self).spec_used() == old(self).spec_used().update(
                        (a.spec_value() / PAGE_SIZE) as int,
                        true,
                    )
                },
                None => {
                    &&& final(self).spec_used() == old(self).spec_used()
                    &&& forall|p: int|
                        spec_first_ordinary_page() <= p < old(self).spec_used().len()
                            && spec_usable_covers(old(self).spec_regions(), p) ==> old(
                            self,
                        ).spec_used()[p]
                },
            },
    {
        let region_count = self.memory_map.len();
        let mut i: usize = 0;
        while i < region_count
            invariant
                self.wf(),
                region_count == self.spec_regions().len(),
                self == old(self),
                0 <= i <= region_count,
                forall|j: int, p: int|
                    #![trigger self.spec_regions()[j], self.spec_used()[p]]
                    0 <= j < i && self.spec_regions()[j].kind == MemoryRegionKind::Usable
                        && spec_region_covers_page(self.spec_regions()[j], p) && p
                        >= spec_first_ordinary_page() && 0 <= p < self.spec_used().len()
                        ==> self.spec_used()[p],
            decreases region_count - i,
        {
            let region = self.memory_map[i];
            if matches!(region.kind, MemoryRegionKind::Usable) {
                let start_page = (region.start / PAGE_SIZE) as usize;
                let end_page = ((region.end + PAGE_SIZE - 1) / PAGE_SIZE) as usize;
                let first_ordinary = (0x100000u64 / PAGE_SIZE) as usize;
                let mut p = if start_page > first_ordinary {
                    start_page
                } else {
                    first_ordinary
                };
                proof {
                    lemma_max_region_end_covers(self.spec_regions(), i as int);
                }
                while p < end_page
                    invariant
                        self.wf(),
                        self == old(self),
                        0 <= i < self.spec_regions().len(),
                        region == self.spec_regions()[i as int],
                        region.kind == MemoryRegionKind::Usable,
                        start_page <= end_page,
                        end_page <= self.spec_used().len(),
                        end_page == spec_ceil_pages(region.end),
                        start_page == (region.start as int) / (PAGE_SIZE as int),
                        p >= start_page,
                        p >= spec_first_ordinary_page(),
                        forall|q: int|
                            start_page <= q < p && q >= spec_first_ordinary_page()
                                ==> self.spec_used()[q],
                    decreases end_page - p,
                {
                    if !self.used_pages.get(p) {
                        self.used_pages.set(p, true);
                        proof {
                            lemma_page_address_bound(p as int);
                            vstd::arithmetic::div_mod::lemma_div_by_multiple(
                                p as int,
                                PAGE_SIZE as int,
                            );
                            vstd::arithmetic::div_mod::lemma_mod_multiples_basic(
                                p as int,
                                PAGE_SIZE as int,
                            );
                            assert(spec_region_covers_page(
                                self.spec_regions()[i as int],
                                p as int,
                            ));
                            assert(spec_usable_covers(self.spec_regions(), p as int));
                        }
                        return Some(PlatformMemoryAddress::from((p as u64) * PAGE_SIZE));
                    }
                    p = p + 1;
                }
            }
            i = i + 1;
        }
        proof {
            assert forall|p: int|
                spec_first_ordinary_page() <= p < self.spec_used().len() && spec_usable_covers(
                    self.spec_regions(),
                    p,
                ) implies self.spec_used()[p] by {
                let j = choose|j: int|
                    0 <= j < self.spec_regions().len() && (#[trigger] self.spec_regions()[j]).kind
                        == MemoryRegionKind::Usable && spec_region_covers_page(
                        self.spec_regions()[j],
                        p,
                    );
            }
        }
        None
    }

    /// Allocate a free usable frame below 1 MiB, for the AP trampoline.
    pub fn allocate_conventional_memory_frame(&mut self) -> (r: Option<PlatformMemoryAddress>)
        requires
            old(self).wf(),
        ensures
            final(self).wf(),
            final(self).spec_regions() == old(self).spec_regions(),
            match r {
                Some(a) => {
                    &&& a.spec_value() % PAGE_SIZE == 0
                    &&& spec_is_conventional(a.spec_value())
                    &&& a.spec_value() / PAGE_SIZE < old(self).spec_used().len()
                    &&& spec_usable_covers(
                        old(self).spec_regions(),
                        (a.spec_value() / PAGE_SIZE) as int,
                    )
                    &&& !old(self).spec_used()[(a.spec_value() / PAGE_SIZE) as int]
                    &&& final(self).spec_used() == old(self).spec_used().update(
                        (a.spec_value() / PAGE_SIZE) as int,
                        true,
                    )
                },
                None => {
                    &&& final(self).spec_used() == old(self).spec_used()
                    &&& forall|p: int|
                        0 <= p < spec_first_ordinary_page() && p < old(self).spec_used().len()
                            && spec_usable_covers(old(self).spec_regions(), p) ==> old(
                            self,
                        ).spec_used()[p]
                },
            },
    {
        let region_count = self.memory_map.len();
        let mut i: usize = 0;
        while i < region_count
            invariant
                self.wf(),
                region_count == self.spec_regions().len(),
                self == old(self),
                0 <= i <= region_count,
                forall|j: int, p: int|
                    #![trigger self.spec_regions()[j], self.spec_used()[p]]
                    0 <= j < i && self.spec_regions()[j].kind == MemoryRegionKind::Usable
                        && spec_region_covers_page(self.spec_regions()[j], p) && 0 <= p
                        < spec_first_ordinary_page() && p < self.spec_used().len()
                        ==> self.spec_used()[p],
            decreases region_count - i,
        {
            let region = self.memory_map[i];
            if matches!(region.kind, MemoryRegionKind::Usable) {
                let start_page = (region.start / PAGE_SIZE) as usize;
                let end_page = ((region.end + PAGE_SIZE - 1) / PAGE_SIZE) as usize;
                let first_ordinary = (0x100000u64 / PAGE_SIZE) as usize;
                let stop = if end_page < first_ordinary {
                    end_page
                } else {
                    first_ordinary
                };
                let mut p = start_page;
                proof {
                    lemma_max_region_end_covers(self.spec_regions(), i as int);
                }
                while p < stop
                    invariant
                        self.wf(),
                        self == old(self),
                        0 <= i < self.spec_regions().len(),
                        region == self.spec_regions()[i as int],
                        region.kind == MemoryRegionKind::Usable,
                        start_page == (region.start as int) / (PAGE_SIZE as int),
                        stop <= end_page,
                        end_page == spec_ceil_pages(region.end),
                        end_page <= self.spec_used().len(),
                        stop <= spec_first_ordinary_page(),
                        stop == if end_page < spec_first_ordinary_page() {
                            end_page as int
                        } else {
                            spec_first_ordinary_page()
                        },
                        p >= start_page,
                        forall|q: int| start_page <= q < p ==> self.spec_used()[q],
                    decreases stop - p,
                {
                    if !self.used_pages.get(p) {
                        self.used_pages.set(p, true);
                        proof {
                            lemma_page_address_bound(p as int);
                            vstd::arithmetic::div_mod::lemma_div_by_multiple(
                                p as int,
                                PAGE_SIZE as int,
                            );
                            vstd::arithmetic::div_mod::lemma_mod_multiples_basic(
                                p as int,
                                PAGE_SIZE as int,
                            );
                            assert(spec_region_covers_page(
                                self.spec_regions()[i as int],
                                p as int,
                            ));
                            assert(spec_usable_covers(self.spec_regions(), p as int));
                        }
                        return Some(PlatformMemoryAddress::from((p as u64) * PAGE_SIZE));
                    }
                    p = p + 1;
                }
            }
            i = i + 1;
        }
        proof {
            assert forall|p: int|
                0 <= p < spec_first_ordinary_page() && p < self.spec_used().len()
                    && spec_usable_covers(self.spec_regions(), p) implies self.spec_used()[p] by {
                let j = choose|j: int|
                    0 <= j < self.spec_regions().len() && (#[trigger] self.spec_regions()[j]).kind
                        == MemoryRegionKind::Usable && spec_region_covers_page(
                        self.spec_regions()[j],
                        p,
                    );
            }
        }
        None
    }

    /// Mark a specific frame allocated, whatever the firmware said about it.
    /// Fails only when the kernel itself already allocated the frame: a used
    /// bit inside a usable region. A firmware-reserved frame (such as the
    /// zero frame the trampoline needs) is handed over anyway.
    pub fn force_allocate(&mut self, frame: PlatformMemoryAddress) -> (r: Option<
        PlatformMemoryAddress,
    >)
        requires
            old(self).wf(),
            frame.spec_value() / PAGE_SIZE < old(self).spec_used().len(),
        ensures
            final(self).wf(),
            final(self).spec_regions() == old(self).spec_regions(),
            match r {
                Some(f) => {
                    &&& f == frame
                    &&& final(self).spec_used() == old(self).spec_used().update(
                        (frame.spec_value() / PAGE_SIZE) as int,
                        true,
                    )
                },
                None => final(self).spec_used() == old(self).spec_used(),
            },
            r is Some <==> !(old(self).spec_used()[(frame.spec_value() / PAGE_SIZE) as int]
                && spec_usable_covers(
                old(self).spec_regions(),
                (frame.spec_value() / PAGE_SIZE) as int,
            )),
    {
        let page = frame.to_page_number();
        if self.used_pages.get(page) && self.usable_covers(page) {
            return None;
        }
        self.used_pages.set(page, true);
        Some(frame)
    }

    /// Mark the frame at `frame` free again.
    pub fn free(&mut self, frame: PlatformMemoryAddress)
        requires
            old(self).wf(),
            frame.spec_value() / PAGE_SIZE < old(self).spec_used().len(),
        ensures
            final(self).wf(),
            final(self).spec_regions() == old(self).spec_regions(),
            final(self).spec_used() == old(self).spec_used().update(
                (frame.spec_value() / PAGE_SIZE) as int,
                false,
            ),
    {
        let page = frame.to_page_number();
        self.used_pages.set(page, false);
    }

    /// How many ordinary usable frames are still free: what a request for
    /// fresh frames can draw on.
    pub fn count_free_ordinary(&self) -> (r: usize)
        requires
            self.wf(),
        ensures
            r == spec_free_ordinary(*self),
    {
        let len = self.used_pages.len();
        let mut count: usize = 0;
        let mut p: usize = 0;
        while p < len
            invariant
                self.wf(),
                len == self.spec_used().len(),
                0 <= p <= len,
                count == spec_free_ordinary_up_to(*self, p as int),
                count <= p,
            decreases len - p,
        {
            if p >= 256 && !self.used_pages.get(p) && self.usable_covers(p) {
                count = count + 1;
            }
            p = p + 1;
        }
        count
    }

    /// The memory map the allocator holds.
    pub fn get_memory_regions(&self) -> (r: &Vec<MemoryRegion>)
        ensures
            r@ == self.spec_regions(),
    {
        &self.memory_map
    }
}

/// Total bytes the memory map's regions span.
pub open spec fn spec_total_region_bytes(map: Seq<MemoryRegion>) -> int
    decreases map.len(),
{
    if map.len() == 0 {
        0
    } else {
        spec_total_region_bytes(map.drop_last()) + (map.last().end - map.last().start)
    }
}

proof fn lemma_total_region_bytes_prefix(map: Seq<MemoryRegion>, i: int)
    requires
        forall|j: int| 0 <= j < map.len() ==> spec_region_wf(#[trigger] map[j]),
        0 <= i <= map.len(),
    ensures
        0 <= spec_total_region_bytes(map.take(i)) <= spec_total_region_bytes(map),
    decreases map.len() - i,
{
    if i < map.len() {
        lemma_total_region_bytes_prefix(map, i + 1);
        assert(map.take(i + 1).drop_last() =~= map.take(i));
        assert(map.take(i + 1).last() == map[i]);
        assert(forall|j: int|
            0 <= j < map.take(i).len() ==> spec_region_wf(#[trigger] map.take(i)[j]));
        lemma_total_region_bytes_nonneg(map.take(i));
    } else {
        assert(map.take(i) =~= map);
        lemma_total_region_bytes_nonneg(map);
    }
}

proof fn lemma_total_region_bytes_nonneg(map: Seq<MemoryRegion>)
    requires
        forall|j: int| 0 <= j < map.len() ==> spec_region_wf(#[trigger] map[j]),
    ensures
        spec_total_region_bytes(map) >= 0,
    decreases map.len(),
{
    if map.len() > 0 {
        assert(forall|j: int|
            0 <= j < map.drop_last().len() ==> spec_region_wf(#[trigger] map.drop_last()[j]));
        lemma_total_region_bytes_nonneg(map.drop_last());
    }
}

/// Total bytes the memory map's regions span: what the boot console
/// reports as the machine's memory.
pub fn total_region_bytes(map: &Vec<MemoryRegion>) -> (r: u64)
    requires
        forall|i: int| 0 <= i < map@.len() ==> spec_region_wf(#[trigger] map@[i]),
        spec_total_region_bytes(map@) <= u64::MAX,
    ensures
        r == spec_total_region_bytes(map@),
{
    let mut total: u64 = 0;
    let mut i: usize = 0;
    while i < map.len()
        invariant
            0 <= i <= map@.len(),
            forall|j: int| 0 <= j < map@.len() ==> spec_region_wf(#[trigger] map@[j]),
            spec_total_region_bytes(map@) <= u64::MAX,
            total == spec_total_region_bytes(map@.take(i as int)),
        decreases map@.len() - i,
    {
        proof {
            assert(map@.take(i + 1).drop_last() =~= map@.take(i as int));
            assert(map@.take(i + 1).last() == map@[i as int]);
            lemma_total_region_bytes_prefix(map@, i + 1);
        }
        total = total + (map[i].end - map[i].start);
        i = i + 1;
    }
    proof {
        assert(map@.take(map@.len() as int) =~= map@);
    }
    total
}

/// Free ordinary frames below index `n`: pages of usable regions at or
/// above 1 MiB whose used bit is clear.
pub open spec fn spec_free_ordinary_up_to(fa: BootInfoFrameAllocator, n: int) -> int
    decreases n,
{
    if n <= 0 {
        0
    } else {
        spec_free_ordinary_up_to(fa, n - 1) + if n - 1 >= spec_first_ordinary_page()
            && spec_usable_covers(fa.spec_regions(), n - 1) && !fa.spec_used()[n - 1] {
            1int
        } else {
            0int
        }
    }
}

/// How many ordinary usable frames are still free.
pub open spec fn spec_free_ordinary(fa: BootInfoFrameAllocator) -> int {
    spec_free_ordinary_up_to(fa, fa.spec_used().len() as int)
}

proof fn lemma_free_ordinary_bounds(fa: BootInfoFrameAllocator, n: int)
    requires
        n >= 0,
    ensures
        0 <= spec_free_ordinary_up_to(fa, n) <= n,
    decreases n,
{
    if n > 0 {
        lemma_free_ordinary_bounds(fa, n - 1);
    }
}

proof fn lemma_free_ordinary_update_up_to(
    fa0: BootInfoFrameAllocator,
    fa1: BootInfoFrameAllocator,
    p: int,
    n: int,
)
    requires
        fa1.spec_regions() == fa0.spec_regions(),
        fa1.spec_used() == fa0.spec_used().update(p, true),
        0 <= p < fa0.spec_used().len(),
        p >= spec_first_ordinary_page(),
        spec_usable_covers(fa0.spec_regions(), p),
        !fa0.spec_used()[p],
        0 <= n <= fa0.spec_used().len(),
    ensures
        spec_free_ordinary_up_to(fa1, n) == spec_free_ordinary_up_to(fa0, n) - if p < n {
            1int
        } else {
            0int
        },
    decreases n,
{
    if n > 0 {
        lemma_free_ordinary_update_up_to(fa0, fa1, p, n - 1);
    }
}

/// The free count depends only on the map and the used bits.
pub proof fn lemma_free_ordinary_congruent(
    fa0: BootInfoFrameAllocator,
    fa1: BootInfoFrameAllocator,
    n: int,
)
    requires
        fa1.spec_regions() == fa0.spec_regions(),
        fa1.spec_used() == fa0.spec_used(),
    ensures
        spec_free_ordinary_up_to(fa1, n) == spec_free_ordinary_up_to(fa0, n),
    decreases n,
{
    if n > 0 {
        lemma_free_ordinary_congruent(fa0, fa1, n - 1);
    }
}

/// Marking one free ordinary frame used lowers the free count by one.
pub proof fn lemma_free_ordinary_update(
    fa0: BootInfoFrameAllocator,
    fa1: BootInfoFrameAllocator,
    p: int,
)
    requires
        fa1.spec_regions() == fa0.spec_regions(),
        fa1.spec_used() == fa0.spec_used().update(p, true),
        0 <= p < fa0.spec_used().len(),
        p >= spec_first_ordinary_page(),
        spec_usable_covers(fa0.spec_regions(), p),
        !fa0.spec_used()[p],
    ensures
        spec_free_ordinary(fa1) == spec_free_ordinary(fa0) - 1,
{
    lemma_free_ordinary_update_up_to(fa0, fa1, p, fa0.spec_used().len() as int);
}

/// A positive free count exhibits a free ordinary frame.
pub proof fn lemma_free_ordinary_pos(fa: BootInfoFrameAllocator, n: int)
    requires
        0 <= n <= fa.spec_used().len(),
        spec_free_ordinary_up_to(fa, n) > 0,
    ensures
        exists|p: int|
            spec_first_ordinary_page() <= p < n && spec_usable_covers(fa.spec_regions(), p)
                && !(#[trigger] fa.spec_used()[p]),
    decreases n,
{
    if n > 0 {
        if n - 1 >= spec_first_ordinary_page() && spec_usable_covers(fa.spec_regions(), n - 1)
            && !fa.spec_used()[n - 1] {
            assert(!fa.spec_used()[n - 1]);
        } else {
            lemma_free_ordinary_pos(fa, n - 1);
        }
    }
}

/// Every region's end is bounded by the maximum end.
proof fn lemma_max_region_end_covers(map: Seq<MemoryRegion>, i: int)
    requires
        0 <= i < map.len(),
    ensures
        map[i].end <= spec_max_region_end(map),
    decreases map.len(),
{
    if i == map.len() - 1 {
    } else {
        lemma_max_region_end_covers(map.drop_last(), i);
    }
}

/// If every region is well-formed, the maximum end is within supported
/// memory.
proof fn lemma_max_region_end_wf(map: Seq<MemoryRegion>)
    requires
        forall|i: int| 0 <= i < map.len() ==> spec_region_wf(#[trigger] map[i]),
    ensures
        spec_max_region_end(map) <= MAX_SUPPORTED_MEMORY,
    decreases map.len(),
{
    if map.len() > 0 {
        lemma_max_region_end_wf(map.drop_last());
    }
}

/// A page number inside the supported range yields an address that fits.
proof fn lemma_page_address_bound(p: int)
    requires
        0 <= p <= MAX_SUPPORTED_PAGES + 1,
    ensures
        p * PAGE_SIZE <= u64::MAX,
{
}

} // verus!
