//! Application-processor startup: the real-mode trampoline payload, the
//! per-CPU online/booting bitmaps, and the bring-up bookkeeping. The
//! INIT/SIPI delivery and the spin-wait for each AP are the embedding
//! kernel's work; the decisions and the state live here.
use vstd::prelude::*;
use crate::addr::spec_is_conventional;
use crate::addr::PAGE_SIZE;
use crate::addr::PlatformMemoryAddress;
use crate::bits::BitSet;
use crate::bits::spec_bits;
use crate::bits::spec_count_ones;
use crate::frame_allocator::spec_first_ordinary_page;
use crate::frame_allocator::spec_usable_covers;
use crate::frame_allocator::BootInfoFrameAllocator;
use crate::memory_manager::FLAG_PRESENT;
use crate::memory_manager::FLAG_WRITABLE;
use crate::memory_manager::PlatformVirtualMemoryManager;

verus! {

/// Pages in each AP's kernel stack.
pub const CPU_STACK_PAGES: usize = 256;

/// APIC ids the status bitmaps can describe.
pub const MAX_APIC_ID_COUNT: usize = 512;

/// Flags the trampoline frame is identity-mapped with.
pub const TRAMPOLINE_FLAGS: u64 = FLAG_PRESENT | FLAG_WRITABLE;

#[derive(Clone, Copy, Debug, PartialEq, Eq, Structural)]
pub enum ApStartupError {
    TrampolineFrameUnavailable,
    TrampolineMapFailed,
}

/// The three 8-byte slots at the end of the trampoline blob, in the order
/// they sit in memory.
#[derive(Clone, Copy, Debug, PartialEq, Eq, Structural)]
pub enum TrampolineSlot {
    PageTableRoot,
    StackEnd,
    EntryPoint,
}

/// Distance from the end of the blob to each slot, in bytes.
pub open spec fn spec_slot_back_offset(slot: TrampolineSlot) -> int {
    match slot {
        TrampolineSlot::PageTableRoot => 32,
        TrampolineSlot::StackEnd => 24,
        TrampolineSlot::EntryPoint => 16,
    }
}

/// The trampoline payload: a conventional-memory frame that holds the
/// real-mode startup blob and, at fixed offsets from its end, the page-table
/// root, the stack top and the 64-bit entry point for the next AP. The
/// actual bytes live in the identity-mapped frame; this records where they
/// go and what was written.
pub struct InterProcessorInterruptPayload {
    base: u64,
    code_len: usize,
    page_table_root: Option<u64>,
    stack_end: Option<u64>,
    entry_point: Option<u64>,
}

impl InterProcessorInterruptPayload {
    /// Physical (and, identity-mapped, virtual) address of the frame.
    pub closed spec fn spec_base(self) -> u64 {
        self.base
    }

    /// Length of the startup blob placed in the frame.
    pub closed spec fn spec_code_len(self) -> usize {
        self.code_len
    }

    pub closed spec fn spec_page_table_root(self) -> Option<u64> {
        self.page_table_root
    }

    pub closed spec fn spec_stack_end(self) -> Option<u64> {
        self.stack_end
    }

    pub closed spec fn spec_entry_point(self) -> Option<u64> {
        self.entry_point
    }

    /// The blob leaves room for the three slots and stays in one frame.
    pub open spec fn wf(self) -> bool {
        &&& 32 <= self.spec_code_len() <= PAGE_SIZE
        &&& self.spec_base() + PAGE_SIZE <= u64::MAX
    }

    /// A payload over the frame at `page`, holding a blob of `code_len`
    /// bytes; no slot is written yet.
    pub fn new(page: PlatformMemoryAddress, code_len: usize) -> (r: Self)
        requires
            32 <= code_len <= PAGE_SIZE,
            page.spec_value() + PAGE_SIZE <= u64::MAX,
        ensures
            r.wf(),
            r.spec_base() == page.spec_value(),
            r.spec_code_len() == code_len,
            r.spec_page_table_root() is None,
            r.spec_stack_end() is None,
            r.spec_entry_point() is None,
    {
        InterProcessorInterruptPayload {
            base: page.to_platform_value(),
            code_len,
            page_table_root: None,
            stack_end: None,
            entry_point: None,
        }
    }

    /// Where `slot` sits: at its fixed distance back from the end of the
    /// blob.
    pub fn slot_address(&self, slot: TrampolineSlot) -> (r: u64)
        requires
            self.wf(),
        ensures
            r == self.spec_base() + self.spec_code_len() - spec_slot_back_offset(slot),
    {
        let end = self.base + self.code_len as u64;
        match slot {
            TrampolineSlot::PageTableRoot => end - 32,
            TrampolineSlot::StackEnd => end - 24,
            TrampolineSlot::EntryPoint => end - 16,
        }
    }

    /// Record the page-table root the AP will load: the BSP's own root.
    pub fn set_page_table(&mut self, page_table: u64)
        ensures
            final(self).spec_page_table_root() == Some(page_table),
            final(self).spec_base() == old(self).spec_base(),
            final(self).spec_code_len() == old(self).spec_code_len(),
            final(self).spec_stack_end() == old(self).spec_stack_end(),
            final(self).spec_entry_point() == old(self).spec_entry_point(),
    {
        self.page_table_root = Some(page_table);
    }

    /// Record the AP's long-mode entry routine.
    pub fn set_entry_point(&mut self, ap_entry: u64)
        ensures
            final(self).spec_entry_point() == Some(ap_entry),
            final(self).spec_base() == old(self).spec_base(),
            final(self).spec_code_len() == old(self).spec_code_len(),
            final(self).spec_page_table_root() == old(self).spec_page_table_root(),
            final(self).spec_stack_end() == old(self).spec_stack_end(),
    {
        self.entry_point = Some(ap_entry);
    }

    /// Record the AP's stack: both ends must be 16-byte aligned, and the
    /// recorded stack top is one byte past the highest stack byte.
    pub fn set_stack(&mut self, stack: u64, stack_length: u64)
        requires
            stack % 16 == 0,
            (stack + stack_length) % 16 == 0,
            stack + stack_length <= u64::MAX,
        ensures
            final(self).spec_stack_end() == Some((stack + stack_length) as u64),
            final(self).spec_base() == old(self).spec_base(),
            final(self).spec_code_len() == old(self).spec_code_len(),
            final(self).spec_page_table_root() == old(self).spec_page_table_root(),
            final(self).spec_entry_point() == old(self).spec_entry_point(),
    {
        self.stack_end = Some(stack + stack_length);
    }

    /// The startup-IPI vector segment: bits 12 to 19 of the frame address,
    /// as the SIPI message carries it.
    pub fn get_code_segment(&self) -> (r: u16)
        ensures
            r == ((self.spec_base() >> 12) & 0xFF),
    {
        let b = self.base;
        let shifted = b >> 12;
        proof {
            assert((b >> 12) & 0xFF < 0x100u64) by (bit_vector);
        }
        (shifted & 0xFF) as u16
    }

    /// Every slot the AP reads has been written.
    pub open spec fn spec_ready_to_boot(self) -> bool {
        &&& self.spec_page_table_root() is Some
        &&& self.spec_stack_end() is Some
        &&& self.spec_entry_point() is Some
    }

    /// Whether every slot the AP reads has been written; no SIPI should go
    /// out before this holds.
    pub fn is_ready_to_boot(&self) -> (r: bool)
        ensures
            r == self.spec_ready_to_boot(),
    {
        self.page_table_root.is_some() && self.stack_end.is_some() && self.entry_point.is_some()
    }
}

/// Claim the trampoline frame at physical zero and identity-map it, so the
/// frame's physical and virtual addresses coincide in conventional memory.
/// The zero frame is firmware-reserved, and `force_allocate` hands it over
/// anyway; only a frame the kernel itself already allocated is refused.
pub fn prepare_trampoline_frame(
    allocator: &mut BootInfoFrameAllocator,
    mm: &mut PlatformVirtualMemoryManager,
) -> (r: Result<PlatformMemoryAddress, ApStartupError>)
    requires
        old(allocator).wf(),
        old(mm).wf(),
        old(allocator).spec_used().len() > 0,
    ensures
        final(allocator).wf(),
        final(mm).wf(),
        match r {
            Ok(frame) => {
                &&& frame.spec_value() == 0
                &&& spec_is_conventional(frame.spec_value())
                &&& final(mm).spec_map_view().contains_key(frame.spec_value() / PAGE_SIZE)
                &&& final(mm).spec_map_view()[frame.spec_value() / PAGE_SIZE] == (
                    frame.spec_value(),
                    TRAMPOLINE_FLAGS,
                )
                &&& final(allocator).spec_used()[(frame.spec_value() / PAGE_SIZE) as int]
            },
            Err(ApStartupError::TrampolineFrameUnavailable) => {
                &&& final(allocator).spec_used() == old(allocator).spec_used()
                &&& final(mm).spec_map_view() == old(mm).spec_map_view()
            },
            Err(ApStartupError::TrampolineMapFailed) => {
                &&& final(mm).spec_map_view() == old(mm).spec_map_view()
                &&& forall|p: int|
                    spec_first_ordinary_page() <= p < final(allocator).spec_used().len()
                        && spec_usable_covers(final(allocator).spec_regions(), p) ==> final(allocator).spec_used()[p]
            },
        },
        r == Err::<PlatformMemoryAddress, ApStartupError>(
            ApStartupError::TrampolineFrameUnavailable,
        ) <==> (old(allocator).spec_used()[0] && spec_usable_covers(
            old(allocator).spec_regions(),
            0,
        )),
{
    let zero = PlatformMemoryAddress::from(0);
    let frame = match allocator.force_allocate(zero) {
        Some(f) => f,
        None => {
            return Err(ApStartupError::TrampolineFrameUnavailable);
        },
    };
    match mm.identity_map(frame, TRAMPOLINE_FLAGS, allocator) {
        Ok(()) => {},
        Err(_) => {
            return Err(ApStartupError::TrampolineMapFailed);
        },
    }
    Ok(frame)
}

/// The spin gap the BSP grants an AP before the watchdog acts: the 10 ms
/// the architecture asks between INIT and startup, plus 200 us of slack.
pub const AP_RETRY_GAP_MICROS: u64 = 10 * 1000 + 200;

/// What the AP-boot watchdog does when the gap elapses without the AP
/// announcing itself.
#[derive(Clone, Copy, Debug, PartialEq, Eq, Structural)]
pub enum ApBootAction {
    /// One more startup IPI is allowed.
    ResendStartupIpi,
    /// Two attempts are spent: partial multiprocessor operation is not
    /// supported, so the BSP panics naming this AP.
    Fatal,
}

/// The per-AP boot watchdog: how many startup IPIs have gone to the AP.
/// An AP that stays silent after two gets the bring-up aborted.
pub struct ApBootWatchdog {
    cpu_id: usize,
    startup_attempts: u64,
}

impl ApBootWatchdog {
    pub closed spec fn spec_cpu_id(self) -> usize {
        self.cpu_id
    }

    pub closed spec fn spec_startup_attempts(self) -> u64 {
        self.startup_attempts
    }

    /// Start watching `cpu_id` right after its first startup IPI.
    pub fn new(cpu_id: usize) -> (r: ApBootWatchdog)
        ensures
            r.spec_cpu_id() == cpu_id,
            r.spec_startup_attempts() == 1,
    {
        ApBootWatchdog { cpu_id, startup_attempts: 1 }
    }

    /// The APIC id being watched; a fatal outcome names it.
    pub fn cpu_id(&self) -> (r: usize)
        ensures
            r == self.spec_cpu_id(),
    {
        self.cpu_id
    }

    /// The AP missed its gap: resend the startup IPI if only one was sent,
    /// else give up fatally.
    pub fn on_timeout(&mut self) -> (r: ApBootAction)
        ensures
            final(self).spec_cpu_id() == old(self).spec_cpu_id(),
            old(self).spec_startup_attempts() < 2 ==> r == ApBootAction::ResendStartupIpi
                && final(self).spec_startup_attempts() == old(self).spec_startup_attempts() + 1,
            old(self).spec_startup_attempts() >= 2 ==> r == ApBootAction::Fatal && final(self).spec_startup_attempts() == old(self).spec_startup_attempts(),
    {
        if self.startup_attempts < 2 {
            self.startup_attempts = self.startup_attempts + 1;
            ApBootAction::ResendStartupIpi
        } else {
            ApBootAction::Fatal
        }
    }
}

/// Which CPUs have announced themselves, one bit per APIC id.
pub struct CpuStatusBits {
    bits: BitSet,
}

impl View for CpuStatusBits {
    type V = Seq<bool>;

    closed spec fn view(&self) -> Seq<bool> {
        spec_bits(self.bits)
    }
}

impl CpuStatusBits {
    /// A bitmap with every CPU offline.
    pub fn new() -> (r: CpuStatusBits)
        ensures
            r@.len() == MAX_APIC_ID_COUNT,
            forall|i: int| 0 <= i < r@.len() ==> !r@[i],
    {
        let mut bits = BitSet::new();
        bits.resize(MAX_APIC_ID_COUNT, false);
        CpuStatusBits { bits }
    }

    /// Whether the CPU with APIC id `cpu_id` has set its bit.
    pub fn is_set(&self, cpu_id: usize) -> (r: bool)
        ensures
            r == (cpu_id < self@.len() && self@[cpu_id as int]),
    {
        self.bits.len() > cpu_id && self.bits.get(cpu_id)
    }

    /// Set the bit of APIC id `cpu_id`: the CPU announces itself.
    pub fn mark(&mut self, cpu_id: usize)
        requires
            cpu_id < old(self)@.len(),
        ensures
            final(self)@ == old(self)@.update(cpu_id as int, true),
    {
        self.bits.set(cpu_id, true);
    }

    /// How many CPUs have their bit set.
    pub fn popcount(&self) -> (r: usize)
        ensures
            r == spec_count_ones(self@),
    {
        self.bits.count_ones()
    }

    /// Mark a whole list of CPUs, in order.
    pub fn mark_all(&mut self, cpu_ids: &Vec<usize>)
        requires
            forall|i: int| 0 <= i < cpu_ids@.len() ==> (#[trigger] cpu_ids@[i]) < old(self)@.len(),
        ensures
            final(self)@ == spec_mark_seq(old(self)@, cpu_ids@),
    {
        let mut i: usize = 0;
        while i < cpu_ids.len()
            invariant
                0 <= i <= cpu_ids@.len(),
                forall|j: int| 0 <= j < cpu_ids@.len() ==> (#[trigger] cpu_ids@[j]) < old(self)@.len(),
                self@ == spec_mark_seq(old(self)@, cpu_ids@.take(i as int)),
                self@.len() == old(self)@.len(),
            decreases cpu_ids@.len() - i,
        {
            proof {
                assert(cpu_ids@.take(i + 1).drop_last() =~= cpu_ids@.take(i as int));
                assert(cpu_ids@.take(i + 1).last() == cpu_ids@[i as int]);
            }
            self.mark(cpu_ids[i]);
            i = i + 1;
        }
        proof {
            assert(cpu_ids@.take(cpu_ids@.len() as int) =~= cpu_ids@);
        }
    }
}

/// The bitmap after marking each id of `ids`, in order.
pub open spec fn spec_mark_seq(s: Seq<bool>, ids: Seq<usize>) -> Seq<bool>
    decreases ids.len(),
{
    if ids.len() == 0 {
        s
    } else {
        spec_mark_seq(s, ids.drop_last()).update(ids.last() as int, true)
    }
}

/// Setting one clear bit raises the popcount by one; setting a set bit
/// leaves it alone.
proof fn lemma_count_ones_update(s: Seq<bool>, i: int)
    requires
        0 <= i < s.len(),
    ensures
        spec_count_ones(s.update(i, true)) == spec_count_ones(s) + if s[i] {
            0int
        } else {
            1int
        },
    decreases s.len(),
{
    if i == s.len() - 1 {
        assert(s.update(i, true).drop_last() =~= s.drop_last());
        assert(s.update(i, true).last());
    } else {
        assert(s.update(i, true).drop_last() =~= s.drop_last().update(i, true));
        assert(s.update(i, true).last() == s.last());
        lemma_count_ones_update(s.drop_last(), i);
    }
}

/// Marking stays inside the bitmap's length.
proof fn lemma_mark_seq_len(s: Seq<bool>, ids: Seq<usize>)
    requires
        forall|i: int| 0 <= i < ids.len() ==> (#[trigger] ids[i]) < s.len(),
    ensures
        spec_mark_seq(s, ids).len() == s.len(),
    decreases ids.len(),
{
    if ids.len() > 0 {
        assert(forall|i: int|
            0 <= i < ids.drop_last().len() ==> (#[trigger] ids.drop_last()[i]) < s.len());
        lemma_mark_seq_len(s, ids.drop_last());
    }
}

/// Marked ids read as set; other positions keep their old bit.
proof fn lemma_mark_seq_bits(s: Seq<bool>, ids: Seq<usize>, p: int)
    requires
        forall|i: int| 0 <= i < ids.len() ==> (#[trigger] ids[i]) < s.len(),
        0 <= p < s.len(),
    ensures
        spec_mark_seq(s, ids)[p] == (s[p] || exists|i: int|
            0 <= i < ids.len() && (#[trigger] ids[i]) == p),
    decreases ids.len(),
{
    lemma_mark_seq_len(s, ids);
    if ids.len() > 0 {
        assert(forall|i: int|
            0 <= i < ids.drop_last().len() ==> (#[trigger] ids.drop_last()[i]) < s.len());
        lemma_mark_seq_len(s, ids.drop_last());
        lemma_mark_seq_bits(s, ids.drop_last(), p);
        if ids.last() == p {
            assert(ids[ids.len() - 1] == p);
        } else {
            if exists|i: int| 0 <= i < ids.len() && (#[trigger] ids[i]) == p {
                let i = choose|i: int| 0 <= i < ids.len() && (#[trigger] ids[i]) == p;
                assert(ids.drop_last()[i] == p);
            }
        }
    }
}

/// After the boot-strap processor and every application processor have
/// announced themselves, the number of online CPUs is exactly one more than
/// the number of application processors: starting from an all-offline
/// bitmap, marking the BSP and each distinct AP id sets one bit each.
pub proof fn lemma_online_popcount(s: Seq<bool>, ids: Seq<usize>)
    requires
        forall|i: int| 0 <= i < ids.len() ==> (#[trigger] ids[i]) < s.len(),
        forall|i: int, j: int| 0 <= i < j < ids.len() ==> ids[i] != ids[j],
        forall|i: int| 0 <= i < ids.len() ==> !s[ids[i] as int],
    ensures
        spec_count_ones(spec_mark_seq(s, ids)) == spec_count_ones(s) + ids.len(),
    decreases ids.len(),
{
    if ids.len() > 0 {
        let prefix = ids.drop_last();
        assert(forall|i: int|
            0 <= i < prefix.len() ==> (#[trigger] prefix[i]) < s.len());
        assert(forall|i: int, j: int| 0 <= i < j < prefix.len() ==> prefix[i] != prefix[j]);
        assert(forall|i: int| 0 <= i < prefix.len() ==> !s[prefix[i] as int]);
        lemma_online_popcount(s, prefix);
        lemma_mark_seq_len(s, prefix);
        let last = ids.last() as int;
        lemma_mark_seq_bits(s, prefix, last);
        assert(!s[last]);
        if exists|i: int| 0 <= i < prefix.len() && (#[trigger] prefix[i]) == last as usize {
            let i = choose|i: int| 0 <= i < prefix.len() && (#[trigger] prefix[i]) == last as usize;
            assert(ids[i] == ids[ids.len() - 1]);
            assert(false);
        }
        assert(!spec_mark_seq(s, prefix)[last]);
        lemma_count_ones_update(spec_mark_seq(s, prefix), last);
    }
}

} // verus!
