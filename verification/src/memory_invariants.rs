//! The invariant tying the frame allocator's used-page set to the page
//! table: a page is marked used exactly when something refers to it — a
//! leaf entry maps to it, an intermediate table or the root lives in it,
//! the firmware owns it, or it is the zero frame.
use vstd::prelude::*;
use crate::addr::PAGE_SIZE;
use crate::frame_allocator::BootInfoFrameAllocator;
use crate::frame_allocator::spec_firmware_reserved;
use crate::memory_manager::PlatformVirtualMemoryManager;

verus! {

/// Whether the page table refers to physical page `p`: some leaf maps to
/// it, some intermediate table occupies it, or the root does.
pub open spec fn spec_frame_referenced(mm: PlatformVirtualMemoryManager, p: int) -> bool {
    ||| (mm.spec_root() / PAGE_SIZE) as int == p
    ||| exists|vp: u64|
        (#[trigger] mm.spec_map_view().contains_key(vp)) && (mm.spec_map_view()[vp].0
            / PAGE_SIZE) as int == p
    ||| exists|j: int|
        0 <= j < mm.spec_tables().len() && ((#[trigger] mm.spec_tables()[j]).frame
            / PAGE_SIZE) as int == p
}

/// The cross-component invariant: every tracked page is used exactly when
/// the page table refers to it, the firmware reserved it, or it is the
/// zero frame.
pub open spec fn spec_tracker_invariant(
    fa: BootInfoFrameAllocator,
    mm: PlatformVirtualMemoryManager,
) -> bool {
    forall|p: int|
        0 <= p < fa.spec_used().len() ==> (#[trigger] fa.spec_used()[p] == (
        spec_frame_referenced(mm, p) || spec_firmware_reserved(fa.spec_regions(), p) || p == 0))
}

/// The invariant holds at the moment the memory subsystem comes up: the
/// allocator has digested the memory map, the manager has adopted a root
/// that lives in firmware-owned memory, and nothing is mapped yet.
pub proof fn lemma_tracker_invariant_initial(
    fa: BootInfoFrameAllocator,
    mm: PlatformVirtualMemoryManager,
)
    requires
        forall|p: int|
            0 <= p < fa.spec_used().len() ==> (#[trigger] fa.spec_used()[p]) == (p == 0
                || spec_firmware_reserved(fa.spec_regions(), p)),
        mm.spec_map_view() == Map::<u64, (u64, u64)>::empty(),
        mm.spec_tables().len() == 0,
        spec_firmware_reserved(fa.spec_regions(), (mm.spec_root() / PAGE_SIZE) as int) || (
        mm.spec_root() / PAGE_SIZE) as int >= fa.spec_used().len(),
    ensures
        spec_tracker_invariant(fa, mm),
{
    assert forall|p: int| 0 <= p < fa.spec_used().len() implies (#[trigger] fa.spec_used()[p] == (
    spec_frame_referenced(mm, p) || spec_firmware_reserved(fa.spec_regions(), p) || p == 0)) by {
        if spec_frame_referenced(mm, p) {
            if exists|vp: u64|
                (#[trigger] mm.spec_map_view().contains_key(vp)) && (mm.spec_map_view()[vp].0
                    / PAGE_SIZE) as int == p {
                let vp = choose|vp: u64| #[trigger] mm.spec_map_view().contains_key(vp);
                assert(false);
            }
        }
    }
}

/// Mapping one fresh page preserves the invariant. The hypotheses are
/// exactly what `map_page` ensures on success, plus what its caller knows:
/// the virtual page was not mapped before (nothing is orphaned) and the
/// target frame was already marked used (its caller allocated or force-
/// allocated it).
pub proof fn lemma_tracker_invariant_preserved_by_map(
    fa0: BootInfoFrameAllocator,
    mm0: PlatformVirtualMemoryManager,
    fa1: BootInfoFrameAllocator,
    mm1: PlatformVirtualMemoryManager,
    vp: u64,
    phys: u64,
    flags: u64,
)
    requires
        spec_tracker_invariant(fa0, mm0),
        // What map_page ensures:
        mm1.spec_map_view() == mm0.spec_map_view().insert(vp, (phys, flags)),
        mm1.spec_root() == mm0.spec_root(),
        fa1.spec_regions() == fa0.spec_regions(),
        fa1.spec_used().len() == fa0.spec_used().len(),
        mm1.spec_tables().len() >= mm0.spec_tables().len(),
        forall|j: int|
            0 <= j < mm0.spec_tables().len() ==> mm1.spec_tables()[j] == mm0.spec_tables()[j],
        forall|j: int|
            mm0.spec_tables().len() <= j < mm1.spec_tables().len() ==> (
            #[trigger] mm1.spec_tables()[j]).frame / PAGE_SIZE < fa0.spec_used().len(),
        forall|q: int|
            0 <= q < fa1.spec_used().len() ==> fa1.spec_used()[q] == (fa0.spec_used()[q]
                || exists|j: int|
                mm0.spec_tables().len() <= j < mm1.spec_tables().len() && ((
                #[trigger] mm1.spec_tables()[j]).frame / PAGE_SIZE) as int == q),
        // What the caller knows:
        !mm0.spec_map_view().contains_key(vp),
        ((phys / PAGE_SIZE) as int) < fa0.spec_used().len() ==> fa0.spec_used()[(phys
            / PAGE_SIZE) as int],
    ensures
        spec_tracker_invariant(fa1, mm1),
{
    assert forall|p: int| 0 <= p < fa1.spec_used().len() implies (#[trigger] fa1.spec_used()[p]
        == (spec_frame_referenced(mm1, p) || spec_firmware_reserved(fa1.spec_regions(), p) || p
        == 0)) by {
        if fa1.spec_used()[p] {
            // Every used page is accounted for.
            if fa0.spec_used()[p] {
                if spec_frame_referenced(mm0, p) {
                    if exists|vp0: u64|
                        (#[trigger] mm0.spec_map_view().contains_key(vp0)) && (
                        mm0.spec_map_view()[vp0].0 / PAGE_SIZE) as int == p {
                        let vp0 = choose|vp0: u64|
                            (#[trigger] mm0.spec_map_view().contains_key(vp0)) && (
                            mm0.spec_map_view()[vp0].0 / PAGE_SIZE) as int == p;
                        assert(vp0 != vp);
                        assert(mm1.spec_map_view().contains_key(vp0));
                        assert((mm1.spec_map_view()[vp0].0 / PAGE_SIZE) as int == p);
                    } else if exists|j: int|
                        0 <= j < mm0.spec_tables().len() && ((#[trigger] mm0.spec_tables()[j]).frame
                            / PAGE_SIZE) as int == p {
                        let j = choose|j: int|
                            0 <= j < mm0.spec_tables().len() && ((
                            #[trigger] mm0.spec_tables()[j]).frame / PAGE_SIZE) as int == p;
                        assert(mm1.spec_tables()[j] == mm0.spec_tables()[j]);
                        assert(((mm1.spec_tables()[j]).frame / PAGE_SIZE) as int == p);
                    }
                }
            } else {
                // A fresh table frame.
                let j = choose|j: int|
                    mm0.spec_tables().len() <= j < mm1.spec_tables().len() && ((
                    #[trigger] mm1.spec_tables()[j]).frame / PAGE_SIZE) as int == p;
                assert(spec_frame_referenced(mm1, p));
            }
        } else {
            // Every unreferenced page stays unused: nothing new refers to a
            // page that is not marked.
            if spec_frame_referenced(mm1, p) {
                if (mm1.spec_root() / PAGE_SIZE) as int == p {
                    assert(fa0.spec_used()[p]);
                } else if exists|vp1: u64|
                    (#[trigger] mm1.spec_map_view().contains_key(vp1)) && (
                    mm1.spec_map_view()[vp1].0 / PAGE_SIZE) as int == p {
                    let vp1 = choose|vp1: u64|
                        (#[trigger] mm1.spec_map_view().contains_key(vp1)) && (
                        mm1.spec_map_view()[vp1].0 / PAGE_SIZE) as int == p;
                    if vp1 == vp {
                        assert(fa0.spec_used()[p]);
                    } else {
                        assert(mm0.spec_map_view().contains_key(vp1));
                        assert(spec_frame_referenced(mm0, p));
                        assert(fa0.spec_used()[p]);
                    }
                } else {
                    let j = choose|j: int|
                        0 <= j < mm1.spec_tables().len() && ((#[trigger] mm1.spec_tables()[j]).frame
                            / PAGE_SIZE) as int == p;
                    if j < mm0.spec_tables().len() {
                        assert(mm0.spec_tables()[j] == mm1.spec_tables()[j]);
                        assert(spec_frame_referenced(mm0, p));
                        assert(fa0.spec_used()[p]);
                    }
                }
                assert(false);
            }
        }
    }
}

} // verus!
