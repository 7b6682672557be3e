//! Physical/virtual addresses, page arithmetic, and firmware memory ranges.
use vstd::prelude::*;

verus! {

/// The only page size this kernel maps: 4 KiB.
pub const PAGE_SIZE: u64 = 4096;

/// An address on the platform, physical or virtual depending on context.
/// The kernel's address arithmetic is all done on this 64-bit value.
#[derive(Clone, Copy, Debug, PartialEq, Eq, Structural)]
pub struct PlatformMemoryAddress(pub u64);

impl PlatformMemoryAddress {
    /// The raw 64-bit address.
    pub open spec fn spec_value(self) -> u64 {
        self.0
    }

    pub fn from(address: u64) -> (r: Self)
        ensures
            r.spec_value() == address,
    {
        PlatformMemoryAddress(address)
    }

    /// The address as a physical address value.
    pub fn to_physical_address(&self) -> (r: u64)
        ensures
            r == self.spec_value(),
    {
        self.0
    }

    /// The address as a virtual address value.
    pub fn to_virtual_address(&self) -> (r: u64)
        ensures
            r == self.spec_value(),
    {
        self.0
    }

    pub fn to_platform_value(&self) -> (r: u64)
        ensures
            r == self.spec_value(),
    {
        self.0
    }

    /// The start address of the page with the given page number.
    pub fn from_page_number(page_number: usize) -> (r: Self)
        requires
            page_number * PAGE_SIZE <= u64::MAX,
        ensures
            r.spec_value() == page_number * PAGE_SIZE,
    {
        PlatformMemoryAddress((page_number as u64) * PAGE_SIZE)
    }

    /// The number of the page this address falls in.
    pub fn to_page_number(&self) -> (r: usize)
        requires
            self.spec_value() / PAGE_SIZE <= usize::MAX,
        ensures
            r == self.spec_value() / PAGE_SIZE,
    {
        (self.0 / PAGE_SIZE) as usize
    }

    /// Whether the address is a page boundary.
    pub fn is_page_aligned(&self) -> (r: bool)
        ensures
            r == (self.spec_value() % PAGE_SIZE == 0),
    {
        self.0 % PAGE_SIZE == 0
    }
}

/// Whether a page of physical memory lies in conventional (real-mode
/// reachable) memory, below 1 MiB. The AP trampoline must live there.
pub open spec fn spec_is_conventional(address: u64) -> bool {
    address < 0x100000
}

/// State of a page range in the firmware memory map, after folding the
/// firmware's region kinds down to what the allocator needs to know.
#[derive(Clone, Copy, Debug, PartialEq, Eq, Structural)]
pub enum PageState {
    Used,
    Free,
}

/// A run of pages in the firmware memory map, `[start, end)`.
#[derive(Clone, Copy, Debug, PartialEq, Eq, Structural)]
pub struct PageRange {
    pub page_state: PageState,
    pub start: PlatformMemoryAddress,
    pub end: PlatformMemoryAddress,
}

impl PageRange {
    pub fn new(state: PageState, start: PlatformMemoryAddress, end: PlatformMemoryAddress) -> (r:
        Self)
        ensures
            r.page_state == state,
            r.start == start,
            r.end == end,
    {
        Self { page_state: state, start, end }
    }

    /// Whether the byte at `address` lies in this range.
    pub open spec fn spec_covers(self, address: u64) -> bool {
        self.start.spec_value() <= address < self.end.spec_value()
    }

    /// A range that does not end before it starts.
    pub open spec fn spec_wf(self) -> bool {
        self.start.spec_value() <= self.end.spec_value()
    }

    /// A range that covers at least one byte.
    pub open spec fn spec_proper(self) -> bool {
        self.start.spec_value() < self.end.spec_value()
    }

    /// Whether two ranges could be fused into one: same state, and one
    /// starts exactly where the other ends.
    pub open spec fn spec_fusable(self, other: PageRange) -> bool {
        self.page_state == other.page_state && (self.end == other.start || self.start
            == other.end)
    }
}

/// Whether some range of `ranges` with state `state` covers `address`.
pub open spec fn spec_covered_with(ranges: Seq<PageRange>, address: u64, state: PageState) -> bool {
    exists|i: int| 0 <= i < ranges.len() && ranges[i].spec_covers(address) && ranges[i].page_state == state
}

proof fn lemma_covered_remove(ranges: Seq<PageRange>, i: int, address: u64, state: PageState)
    requires
        0 <= i < ranges.len(),
    ensures
        spec_covered_with(ranges, address, state) <==> (spec_covered_with(
            ranges.remove(i),
            address,
            state,
        ) || (ranges[i].spec_covers(address) && ranges[i].page_state == state)),
{
    let removed = ranges.remove(i);
    if spec_covered_with(ranges, address, state) {
        let j = choose|j: int|
            0 <= j < ranges.len() && ranges[j].spec_covers(address) && ranges[j].page_state
                == state;
        if j < i {
            assert(removed[j] == ranges[j]);
        } else if j > i {
            assert(removed[j - 1] == ranges[j]);
        }
    }
    if spec_covered_with(removed, address, state) {
        let j = choose|j: int|
            0 <= j < removed.len() && removed[j].spec_covers(address) && removed[j].page_state
                == state;
        if j < i {
            assert(ranges[j] == removed[j]);
        } else {
            assert(ranges[j + 1] == removed[j]);
        }
    }
}

proof fn lemma_covered_push(ranges: Seq<PageRange>, r: PageRange, address: u64, state: PageState)
    ensures
        spec_covered_with(ranges.push(r), address, state) <==> (spec_covered_with(
            ranges,
            address,
            state,
        ) || (r.spec_covers(address) && r.page_state == state)),
{
    let pushed = ranges.push(r);
    if spec_covered_with(ranges, address, state) {
        let j = choose|j: int|
            0 <= j < ranges.len() && ranges[j].spec_covers(address) && ranges[j].page_state
                == state;
        assert(pushed[j] == ranges[j]);
    }
    if r.spec_covers(address) && r.page_state == state {
        assert(pushed[pushed.len() - 1] == r);
    }
    if spec_covered_with(pushed, address, state) {
        let j = choose|j: int|
            0 <= j < pushed.len() && pushed[j].spec_covers(address) && pushed[j].page_state
                == state;
        if j < ranges.len() {
            assert(ranges[j] == pushed[j]);
        }
    }
}

/// The firmware hands the memory map over in arbitrary order and in many
/// small pieces. Sort it by start address and fuse neighbouring ranges of
/// the same state, so the allocators digest one range per contiguous run.
/// The result covers exactly the addresses of the input, with the same
/// states, and is sorted by start address.
pub fn get_compact_memory_map(raw: Vec<PageRange>) -> (r: Vec<PageRange>)
    requires
        forall|i: int| 0 <= i < raw@.len() ==> (#[trigger] raw@[i]).spec_proper(),
    ensures
        forall|address: u64, state: PageState|
            spec_covered_with(r@, address, state) <==> spec_covered_with(raw@, address, state),
        forall|j: int, k: int|
            0 <= j < k < r@.len() ==> r@[j].start.spec_value() <= r@[k].start.spec_value(),
        forall|j: int| 0 <= j < r@.len() - 1 ==> !(#[trigger] r@[j]).spec_fusable(r@[j + 1]),
{
    let ghost unsorted = raw@;
    let mut work = raw;
    let mut sorted: Vec<PageRange> = Vec::new();
    while work.len() > 0
        invariant
            forall|i: int| 0 <= i < work@.len() ==> (#[trigger] work@[i]).spec_proper(),
            forall|i: int| 0 <= i < sorted@.len() ==> (#[trigger] sorted@[i]).spec_proper(),
            forall|address: u64, state: PageState|
                (spec_covered_with(work@, address, state) || spec_covered_with(
                    sorted@,
                    address,
                    state,
                )) <==> spec_covered_with(unsorted, address, state),
            forall|j: int, k: int|
                0 <= j < k < sorted@.len() ==> sorted@[j].start.spec_value()
                    <= sorted@[k].start.spec_value(),
            forall|j: int, k: int|
                0 <= j < sorted@.len() && 0 <= k < work@.len() ==> sorted@[j].start.spec_value()
                    <= work@[k].start.spec_value(),
        decreases work@.len(),
    {
        let mut m: usize = 0;
        let mut j: usize = 1;
        while j < work.len()
            invariant
                0 <= m < j <= work@.len(),
                forall|k: int|
                    0 <= k < j ==> work@[m as int].start.spec_value() <= (#[trigger] work@[k]).start.spec_value(),
            decreases work@.len() - j,
        {
            if work[j].start.to_platform_value() < work[m].start.to_platform_value() {
                m = j;
            }
            j = j + 1;
        }
        let ghost pre_work = work@;
        let ghost pre_sorted = sorted@;
        let next = work.remove(m);
        sorted.push(next);
        proof {
            assert forall|address: u64, state: PageState|
                (spec_covered_with(work@, address, state) || spec_covered_with(
                    sorted@,
                    address,
                    state,
                )) <==> spec_covered_with(unsorted, address, state) by {
                lemma_covered_remove(pre_work, m as int, address, state);
                lemma_covered_push(pre_sorted, next, address, state);
            }
            assert forall|j2: int, k: int|
                0 <= j2 < k < sorted@.len() implies sorted@[j2].start.spec_value()
                <= sorted@[k].start.spec_value() by {
                if k == sorted@.len() - 1 {
                    assert(sorted@[j2] == pre_sorted[j2]);
                    assert(pre_work[m as int] == next);
                }
            }
            assert forall|j2: int, k: int|
                0 <= j2 < sorted@.len() && 0 <= k < work@.len() implies sorted@[j2].start.spec_value()
                <= work@[k].start.spec_value() by {
                if k < m {
                    assert(work@[k] == pre_work[k]);
                } else {
                    assert(work@[k] == pre_work[k + 1]);
                }
                if j2 < sorted@.len() - 1 {
                    assert(sorted@[j2] == pre_sorted[j2]);
                } else {
                    assert(sorted@[j2] == next);
                }
            }
            assert forall|i2: int| 0 <= i2 < work@.len() implies (
            #[trigger] work@[i2]).spec_proper() by {
                if i2 < m {
                    assert(work@[i2] == pre_work[i2]);
                } else {
                    assert(work@[i2] == pre_work[i2 + 1]);
                }
            }
            assert forall|i2: int| 0 <= i2 < sorted@.len() implies (
            #[trigger] sorted@[i2]).spec_proper() by {
                if i2 < sorted@.len() - 1 {
                    assert(sorted@[i2] == pre_sorted[i2]);
                } else {
                    assert(sorted@[i2] == next);
                }
            }
        }
    }
    proof {
        assert(work@.len() == 0);
        assert forall|address: u64, state: PageState|
            spec_covered_with(sorted@, address, state) <==> spec_covered_with(
                unsorted,
                address,
                state,
            ) by {
            if spec_covered_with(work@, address, state) {
                let j = choose|j: int|
                    0 <= j < work@.len() && work@[j].spec_covers(address) && work@[j].page_state
                        == state;
                assert(false);
            }
        }
    }
    let mut compacted: Vec<PageRange> = Vec::new();
    let ghost fused_input = sorted@;
    let mut i: usize = 0;
    while i < sorted.len()
        invariant
            0 <= i <= sorted@.len(),
            sorted@ == fused_input,
            forall|address: u64, state: PageState|
                spec_covered_with(compacted@, address, state) <==> spec_covered_with(
                    fused_input.take(i as int),
                    address,
                    state,
                ),
            forall|j: int, k: int|
                0 <= j < k < compacted@.len() ==> compacted@[j].start.spec_value()
                    <= compacted@[k].start.spec_value(),
            compacted@.len() > 0 ==> i > 0 && compacted@.last().start.spec_value()
                <= fused_input[i - 1].start.spec_value(),
            forall|j: int| 0 <= j < compacted@.len() ==> (#[trigger] compacted@[j]).spec_proper(),
            forall|j: int|
                0 <= j < compacted@.len() - 1 ==> !(#[trigger] compacted@[j]).spec_fusable(
                    compacted@[j + 1],
                ),
            forall|j: int, k: int|
                0 <= j < k < fused_input.len() ==> fused_input[j].start.spec_value()
                    <= fused_input[k].start.spec_value(),
            forall|j: int| 0 <= j < fused_input.len() ==> (#[trigger] fused_input[j]).spec_proper(),
        decreases sorted@.len() - i,
    {
        let current = sorted[i];
        let ghost pre = compacted@;
        proof {
            assert(fused_input.take(i + 1).drop_last() =~= fused_input.take(i as int));
            assert(fused_input.take(i + 1).last() == fused_input[i as int]);
        }
        if compacted.len() == 0 {
            compacted.push(current);
            proof {
                assert forall|address: u64, state: PageState|
                    spec_covered_with(compacted@, address, state) <==> spec_covered_with(
                        fused_input.take(i + 1),
                        address,
                        state,
                    ) by {
                    lemma_covered_push(pre, current, address, state);
                    lemma_covered_push(fused_input.take(i as int), current, address, state);
                    assert(fused_input.take(i as int).push(current) =~= fused_input.take(i + 1));
                }
            }
        } else {
            let last_index = compacted.len() - 1;
            let last = compacted[last_index];
            let fused: Option<PageRange> = if last.page_state == current.page_state
                && last.end.to_platform_value() == current.start.to_platform_value() {
                Some(
                    PageRange {
                        page_state: last.page_state,
                        start: last.start,
                        end: current.end,
                    },
                )
            } else if last.page_state == current.page_state && last.start.to_platform_value()
                == current.end.to_platform_value() {
                Some(
                    PageRange {
                        page_state: last.page_state,
                        start: current.start,
                        end: last.end,
                    },
                )
            } else {
                None
            };
            match fused {
                Some(f) => {
                    compacted[last_index] = f;
                    proof {
                        assert(pre.last() == pre[last_index as int]);
                        assert(fused_input[i - 1].start.spec_value()
                            <= fused_input[i as int].start.spec_value());
                        assert(pre[last_index as int].start.spec_value()
                            <= current.start.spec_value());
                        if last.start.spec_value() == current.end.spec_value() {
                            // Sorted processing makes a backward fuse possible
                            // only for an empty range starting exactly at the
                            // last range's start.
                            assert(current.start.spec_value() == last.start.spec_value());
                        }
                        assert forall|address: u64, state: PageState|
                            spec_covered_with(compacted@, address, state) <==> spec_covered_with(
                                fused_input.take(i + 1),
                                address,
                                state,
                            ) by {
                            lemma_covered_push(fused_input.take(i as int), current, address, state);
                            assert(fused_input.take(i as int).push(current) =~= fused_input.take(
                                i + 1,
                            ));
                            lemma_covered_fuse_last(pre, last_index as int, current, address, state);
                        }
                        assert forall|j2: int, k: int|
                            0 <= j2 < k < compacted@.len() implies compacted@[j2].start.spec_value()
                            <= compacted@[k].start.spec_value() by {
                            if k == compacted@.len() - 1 {
                                assert(compacted@[j2] == pre[j2]);
                            }
                        }
                        assert forall|j2: int|
                            0 <= j2 < compacted@.len() implies (
                        #[trigger] compacted@[j2]).spec_wf() by {
                            if j2 < compacted@.len() - 1 {
                                assert(compacted@[j2] == pre[j2]);
                            }
                        }
                    }
                },
                None => {
                    compacted.push(current);
                    proof {
                        assert forall|address: u64, state: PageState|
                            spec_covered_with(compacted@, address, state) <==> spec_covered_with(
                                fused_input.take(i + 1),
                                address,
                                state,
                            ) by {
                            lemma_covered_push(pre, current, address, state);
                            lemma_covered_push(fused_input.take(i as int), current, address, state);
                            assert(fused_input.take(i as int).push(current) =~= fused_input.take(
                                i + 1,
                            ));
                        }
                        assert(fused_input[i - 1].start.spec_value()
                            <= fused_input[i as int].start.spec_value());
                        assert forall|j2: int, k: int|
                            0 <= j2 < k < compacted@.len() implies compacted@[j2].start.spec_value()
                            <= compacted@[k].start.spec_value() by {
                            if k == compacted@.len() - 1 {
                                assert(compacted@[j2] == pre[j2]);
                                assert(pre.last() == pre[pre.len() - 1]);
                            } else {
                                assert(compacted@[j2] == pre[j2]);
                                assert(compacted@[k] == pre[k]);
                            }
                        }
                        assert forall|j2: int|
                            0 <= j2 < compacted@.len() implies (
                        #[trigger] compacted@[j2]).spec_wf() by {
                            if j2 < compacted@.len() - 1 {
                                assert(compacted@[j2] == pre[j2]);
                            }
                        }
                    }
                },
            }
        }
        i = i + 1;
    }
    proof {
        assert(fused_input.take(fused_input.len() as int) =~= fused_input);
    }
    compacted
}

/// Fusing a contiguous same-state range into the last element covers
/// exactly what the two covered separately.
proof fn lemma_covered_fuse_last(
    ranges: Seq<PageRange>,
    last_index: int,
    current: PageRange,
    address: u64,
    state: PageState,
)
    requires
        last_index == ranges.len() - 1,
        0 <= last_index,
        ranges[last_index].page_state == current.page_state,
        ranges[last_index].spec_wf(),
        current.spec_wf(),
        ranges[last_index].end == current.start || ranges[last_index].start == current.end,
    ensures
        ranges[last_index].end == current.start ==> (spec_covered_with(
            ranges.update(
                last_index,
                PageRange {
                    page_state: ranges[last_index].page_state,
                    start: ranges[last_index].start,
                    end: current.end,
                },
            ),
            address,
            state,
        ) <==> (spec_covered_with(ranges, address, state) || (current.spec_covers(address)
            && current.page_state == state))),
        ranges[last_index].start == current.end ==> (spec_covered_with(
            ranges.update(
                last_index,
                PageRange {
                    page_state: ranges[last_index].page_state,
                    start: current.start,
                    end: ranges[last_index].end,
                },
            ),
            address,
            state,
        ) <==> (spec_covered_with(ranges, address, state) || (current.spec_covers(address)
            && current.page_state == state))),
{
    let last = ranges[last_index];
    if last.end == current.start {
        let fused = PageRange { page_state: last.page_state, start: last.start, end: current.end };
        let updated = ranges.update(last_index, fused);
        if spec_covered_with(updated, address, state) {
            let j = choose|j: int|
                0 <= j < updated.len() && updated[j].spec_covers(address) && updated[j].page_state
                    == state;
            if j < last_index {
                assert(ranges[j] == updated[j]);
            } else {
                if last.spec_covers(address) {
                } else if current.spec_covers(address) {
                }
            }
        }
        if spec_covered_with(ranges, address, state) {
            let j = choose|j: int|
                0 <= j < ranges.len() && ranges[j].spec_covers(address) && ranges[j].page_state
                    == state;
            if j < last_index {
                assert(updated[j] == ranges[j]);
            } else {
                assert(updated[last_index].spec_covers(address));
            }
        }
        if current.spec_covers(address) && current.page_state == state {
            assert(updated[last_index].spec_covers(address));
        }
    } else {
        let fused = PageRange { page_state: last.page_state, start: current.start, end: last.end };
        let updated = ranges.update(last_index, fused);
        if spec_covered_with(updated, address, state) {
            let j = choose|j: int|
                0 <= j < updated.len() && updated[j].spec_covers(address) && updated[j].page_state
                    == state;
            if j < last_index {
                assert(ranges[j] == updated[j]);
            }
        }
        if spec_covered_with(ranges, address, state) {
            let j = choose|j: int|
                0 <= j < ranges.len() && ranges[j].spec_covers(address) && ranges[j].page_state
                    == state;
            if j < last_index {
                assert(updated[j] == ranges[j]);
            } else {
                assert(updated[last_index].spec_covers(address));
            }
        }
        if current.spec_covers(address) && current.page_state == state {
            assert(updated[last_index].spec_covers(address));
        }
    }
}

#[derive(Debug, Clone, Copy, PartialEq, Eq, Structural)]
pub enum MemoryRangeError {
    StartAddressGreaterThanEndAddress,
    EmptyRange,
    RangeNotPageAligned,
}

/// A non-empty, page-granular span of memory `[start_address, end_address)`.
#[derive(Debug, Clone, Copy)]
pub struct MemoryRange {
    start_address: u64,
    end_address: u64,
}

impl MemoryRange {
    /// What `new` establishes and every method may rely on.
    pub closed spec fn wf(self) -> bool {
        &&& self.start_address < self.end_address
        &&& (self.end_address - self.start_address) % (PAGE_SIZE as int) == 0
    }

    pub closed spec fn spec_start(self) -> u64 {
        self.start_address
    }

    pub closed spec fn spec_end(self) -> u64 {
        self.end_address
    }

    /// Accepts exactly the start/end pairs that delimit a non-empty,
    /// page-multiple span; reports which requirement failed otherwise.
    pub fn new(start_address: u64, end_address: u64) -> (r: Result<Self, MemoryRangeError>)
        ensures
            match r {
                Ok(range) => {
                    &&& range.wf()
                    &&& range.spec_start() == start_address
                    &&& range.spec_end() == end_address
                    &&& start_address < end_address
                    &&& (end_address - start_address) % (PAGE_SIZE as int) == 0
                },
                Err(MemoryRangeError::StartAddressGreaterThanEndAddress) => start_address
                    > end_address,
                Err(MemoryRangeError::EmptyRange) => start_address == end_address,
                Err(MemoryRangeError::RangeNotPageAligned) => {
                    &&& start_address < end_address
                    &&& (end_address - start_address) % (PAGE_SIZE as int) != 0
                },
            },
    {
        if start_address > end_address {
            return Err(MemoryRangeError::StartAddressGreaterThanEndAddress);
        } else if start_address == end_address {
            return Err(MemoryRangeError::EmptyRange);
        } else if (end_address - start_address) % PAGE_SIZE != 0 {
            return Err(MemoryRangeError::RangeNotPageAligned);
        }
        Ok(Self { start_address, end_address })
    }

    /// Size of the range in bytes.
    pub fn size(&self) -> (r: u64)
        requires
            self.wf(),
        ensures
            r == self.spec_end() - self.spec_start(),
    {
        self.end_address - self.start_address
    }

    /// Size of the range in pages.
    pub fn pages(&self) -> (r: u64)
        requires
            self.wf(),
        ensures
            r == (self.spec_end() - self.spec_start()) / (PAGE_SIZE as int),
    {
        self.size() / self.page_size()
    }

    /// The page granularity the range is measured in. Only 4 KiB pages are
    /// valid on this platform, and `new` admits only multiples of it.
    pub fn page_size(&self) -> (r: u64)
        ensures
            r == PAGE_SIZE,
    {
        PAGE_SIZE
    }
}

} // verus!
