//! Virtual address-space management: the kernel's view of its 4-level page
//! table. Leaf entries live in an association list keyed by virtual page
//! number; the intermediate tables the walk would create are tracked as
//! (depth, prefix) paths so that re-mapping an already-mapped page provably
//! allocates nothing.
use vstd::prelude::*;
use crate::addr::PAGE_SIZE;
use crate::addr::PlatformMemoryAddress;
use crate::frame_allocator::lemma_free_ordinary_congruent;
use crate::frame_allocator::lemma_free_ordinary_pos;
use crate::frame_allocator::lemma_free_ordinary_update;
use crate::frame_allocator::spec_first_ordinary_page;
use crate::frame_allocator::spec_free_ordinary;
use crate::frame_allocator::spec_free_ordinary_up_to;
use crate::frame_allocator::spec_usable_covers;
use crate::frame_allocator::BootInfoFrameAllocator;

verus! {

pub const FLAG_PRESENT: u64 = 1;

pub const FLAG_WRITABLE: u64 = 2;

pub const FLAG_USER_ACCESSIBLE: u64 = 4;

pub const FLAG_WRITE_THROUGH: u64 = 8;

pub const FLAG_NO_CACHE: u64 = 16;

pub const FLAG_ACCESSED: u64 = 32;

pub const FLAG_DIRTY: u64 = 64;

pub const FLAG_HUGE_PAGE: u64 = 128;

pub const FLAG_GLOBAL: u64 = 256;

pub const FLAG_NO_EXECUTE: u64 = 0x8000000000000000;

/// Start of the kernel's dynamic mapping window.
pub const KERNEL_ADDRESS_RANGE_START: u64 = 0x100000;

/// Last byte of the kernel's dynamic mapping window.
pub const KERNEL_ADDRESS_RANGE_END: u64 = 0xFFFFFFFFFFFF;

/// Last virtual page the bump cursor may hand out.
pub const DYNAMIC_RANGE_END_PAGE: u64 = KERNEL_ADDRESS_RANGE_END / PAGE_SIZE;

#[derive(Clone, Copy, Debug, PartialEq, Eq, Structural)]
pub enum MemoryManagerError {
    FrameAllocationFailed,
    OutOfVirtualRange,
}

/// One leaf page-table entry: virtual page `virt_page` maps to physical
/// address `phys` with `flags`.
#[derive(Clone, Copy, Debug, PartialEq, Eq, Structural)]
pub struct MappedPage {
    pub virt_page: u64,
    pub phys: u64,
    pub flags: u64,
}

/// One intermediate page table, named by how deep under the root it sits
/// (1 to 3) and by the virtual-page prefix it serves.
#[derive(Clone, Copy, Debug, PartialEq, Eq, Structural)]
pub struct TablePath {
    pub depth: u64,
    pub prefix: u64,
    pub frame: u64,
}

/// The prefix of virtual page `vp` that selects the table at `depth`.
pub open spec fn spec_prefix_at(vp: u64, depth: int) -> u64 {
    if depth == 1 {
        vp / 0x8000000
    } else if depth == 2 {
        vp / 0x40000
    } else {
        vp / 0x200
    }
}

/// The leaf map an association list denotes; later entries override.
pub open spec fn seq_to_map(s: Seq<MappedPage>) -> Map<u64, (u64, u64)>
    decreases s.len(),
{
    if s.len() == 0 {
        Map::empty()
    } else {
        seq_to_map(s.drop_last()).insert(s.last().virt_page, (s.last().phys, s.last().flags))
    }
}

/// No virtual page appears twice.
pub open spec fn spec_unique_pages(s: Seq<MappedPage>) -> bool {
    forall|j: int, k: int| 0 <= j < k < s.len() ==> s[j].virt_page != s[k].virt_page
}

/// Some table in `s` serves `prefix` at `depth`.
pub open spec fn spec_tables_has(s: Seq<TablePath>, depth: int, prefix: u64) -> bool {
    exists|j: int|
        0 <= j < s.len() && (#[trigger] s[j]).depth == depth && s[j].prefix == prefix
}

proof fn lemma_tables_has_push(s: Seq<TablePath>, t: TablePath)
    ensures
        forall|d: int, pfx: u64|
            spec_tables_has(s, d, pfx) ==> spec_tables_has(s.push(t), d, pfx),
        spec_tables_has(s.push(t), t.depth as int, t.prefix),
{
    assert forall|d: int, pfx: u64| spec_tables_has(s, d, pfx) implies spec_tables_has(
        s.push(t),
        d,
        pfx,
    ) by {
        let j = choose|j: int|
            0 <= j < s.len() && (#[trigger] s[j]).depth == d && s[j].prefix == pfx;
        assert(s.push(t)[j].depth == d && s.push(t)[j].prefix == pfx);
    }
    assert(s.push(t)[s.len() as int].depth == t.depth as int);
}

/// No (depth, prefix) pair appears twice.
pub open spec fn spec_unique_tables(s: Seq<TablePath>) -> bool {
    forall|j: int, k: int|
        0 <= j < k < s.len() ==> !(s[j].depth == s[k].depth && s[j].prefix == s[k].prefix)
}

proof fn lemma_seq_to_map_contains(s: Seq<MappedPage>, vp: u64)
    ensures
        seq_to_map(s).contains_key(vp) <==> exists|j: int|
            0 <= j < s.len() && (#[trigger] s[j]).virt_page == vp,
    decreases s.len(),
{
    if s.len() > 0 {
        lemma_seq_to_map_contains(s.drop_last(), vp);
        if s.last().virt_page == vp {
            assert(s[s.len() - 1].virt_page == vp);
        }
        if exists|j: int| 0 <= j < s.len() && (#[trigger] s[j]).virt_page == vp {
            let j = choose|j: int| 0 <= j < s.len() && (#[trigger] s[j]).virt_page == vp;
            if j < s.len() - 1 {
                assert(s.drop_last()[j].virt_page == vp);
            }
        }
    }
}

proof fn lemma_seq_to_map_get(s: Seq<MappedPage>, j: int)
    requires
        spec_unique_pages(s),
        0 <= j < s.len(),
    ensures
        seq_to_map(s).contains_key(s[j].virt_page),
        seq_to_map(s)[s[j].virt_page] == (s[j].phys, s[j].flags),
    decreases s.len(),
{
    if j == s.len() - 1 {
    } else {
        assert(spec_unique_pages(s.drop_last()));
        assert(s.drop_last()[j] == s[j]);
        lemma_seq_to_map_get(s.drop_last(), j);
        assert(s[j].virt_page != s.last().virt_page);
    }
}

proof fn lemma_seq_to_map_push(s: Seq<MappedPage>, m: MappedPage)
    ensures
        seq_to_map(s.push(m)) == seq_to_map(s).insert(m.virt_page, (m.phys, m.flags)),
{
    assert(s.push(m).drop_last() =~= s);
    assert(s.push(m).last() == m);
}

proof fn lemma_seq_to_map_update(s: Seq<MappedPage>, j: int, m: MappedPage)
    requires
        spec_unique_pages(s),
        0 <= j < s.len(),
        s[j].virt_page == m.virt_page,
    ensures
        seq_to_map(s.update(j, m)) == seq_to_map(s).insert(m.virt_page, (m.phys, m.flags)),
    decreases s.len(),
{
    let lhs = seq_to_map(s.update(j, m));
    let rhs = seq_to_map(s).insert(m.virt_page, (m.phys, m.flags));
    if j == s.len() - 1 {
        assert(s.update(j, m).drop_last() =~= s.drop_last());
        assert(s.update(j, m).last() == m);
        assert(lhs =~= rhs);
    } else {
        assert(s.update(j, m).drop_last() =~= s.drop_last().update(j, m));
        assert(s.update(j, m).last() == s.last());
        assert(spec_unique_pages(s.drop_last()));
        assert(s.drop_last()[j] == s[j]);
        lemma_seq_to_map_update(s.drop_last(), j, m);
        assert(s[j].virt_page != s.last().virt_page);
        assert(lhs =~= rhs);
    }
}

/// The kernel's memory manager: one page-table root, the physical-memory
/// window offset, and a bump cursor for fresh kernel mappings.
pub struct PlatformVirtualMemoryManager {
    mappings: Vec<MappedPage>,
    tables: Vec<TablePath>,
    root_frame: u64,
    physical_memory_offset: u64,
    next_free_kernel_virtual_page: u64,
}

impl PlatformVirtualMemoryManager {
    /// The association list of leaf entries.
    pub closed spec fn spec_mappings(self) -> Seq<MappedPage> {
        self.mappings@
    }

    /// The intermediate tables the walk has created.
    pub closed spec fn spec_tables(self) -> Seq<TablePath> {
        self.tables@
    }

    /// What the page table maps: virtual page to (physical address, flags).
    pub open spec fn spec_map_view(self) -> Map<u64, (u64, u64)> {
        seq_to_map(self.spec_mappings())
    }

    pub closed spec fn spec_offset(self) -> u64 {
        self.physical_memory_offset
    }

    pub closed spec fn spec_root(self) -> u64 {
        self.root_frame
    }

    pub closed spec fn spec_cursor(self) -> u64 {
        self.next_free_kernel_virtual_page
    }

    /// A table exists for `prefix` at `depth`.
    pub open spec fn spec_has_table(self, depth: int, prefix: u64) -> bool {
        spec_tables_has(self.spec_tables(), depth, prefix)
    }

    /// All three intermediate tables on the walk to `vp` exist.
    pub open spec fn spec_has_all_tables(self, vp: u64) -> bool {
        &&& self.spec_has_table(1, spec_prefix_at(vp, 1))
        &&& self.spec_has_table(2, spec_prefix_at(vp, 2))
        &&& self.spec_has_table(3, spec_prefix_at(vp, 3))
    }

    /// `pages` consecutive virtual pages from `c` on, none of them mapped.
    pub open spec fn spec_window_unmapped(self, c: int, pages: int) -> bool {
        forall|k: int|
            0 <= k < pages ==> !(#[trigger] self.spec_map_view().contains_key((c + k) as u64))
    }

    pub open spec fn wf(self) -> bool {
        &&& spec_unique_pages(self.spec_mappings())
        &&& spec_unique_tables(self.spec_tables())
        &&& self.spec_cursor() <= DYNAMIC_RANGE_END_PAGE + 1
    }

    /// A manager for the adopted page-table root: nothing mapped through it
    /// yet, cursor at the start of the dynamic window.
    pub fn new(page_table_root: u64, physical_offset: PlatformMemoryAddress) -> (r: Self)
        ensures
            r.wf(),
            r.spec_map_view() == Map::<u64, (u64, u64)>::empty(),
            r.spec_tables().len() == 0,
            r.spec_root() == page_table_root,
            r.spec_offset() == physical_offset.spec_value(),
            r.spec_cursor() == KERNEL_ADDRESS_RANGE_START / PAGE_SIZE,
    {
        PlatformVirtualMemoryManager {
            mappings: Vec::new(),
            tables: Vec::new(),
            root_frame: page_table_root,
            physical_memory_offset: physical_offset.to_platform_value(),
            next_free_kernel_virtual_page: KERNEL_ADDRESS_RANGE_START / PAGE_SIZE,
        }
    }

    /// Where physical memory shows through in virtual space: every physical
    /// address is visible at itself plus the boot-time offset.
    pub fn translate(&self, phys: PlatformMemoryAddress) -> (r: PlatformMemoryAddress)
        requires
            phys.spec_value() + self.spec_offset() <= u64::MAX,
        ensures
            r.spec_value() == phys.spec_value() + self.spec_offset(),
    {
        PlatformMemoryAddress::from(phys.to_platform_value() + self.physical_memory_offset)
    }

    /// Index of the leaf entry for `vp`, if one exists.
    fn find_mapping(&self, vp: u64) -> (r: Option<usize>)
        ensures
            match r {
                Some(j) => j < self.spec_mappings().len() && self.spec_mappings()[j as int].virt_page
                    == vp,
                None => forall|j: int|
                    0 <= j < self.spec_mappings().len() ==> (#[trigger] self.spec_mappings()[j]).virt_page
                        != vp,
            },
    {
        let mut j: usize = 0;
        while j < self.mappings.len()
            invariant
                0 <= j <= self.spec_mappings().len(),
                forall|k: int|
                    0 <= k < j ==> (#[trigger] self.spec_mappings()[k]).virt_page != vp,
            decreases self.spec_mappings().len() - j,
        {
            if self.mappings[j].virt_page == vp {
                return Some(j);
            }
            j = j + 1;
        }
        None
    }

    /// Whether a leaf entry for `vp` exists.
    fn is_mapped(&self, vp: u64) -> (r: bool)
        ensures
            r == self.spec_map_view().contains_key(vp),
    {
        proof {
            lemma_seq_to_map_contains(self.spec_mappings(), vp);
        }
        match self.find_mapping(vp) {
            Some(_) => true,
            None => false,
        }
    }

    /// Whether the table at `depth` for `prefix` exists.
    fn has_table(&self, depth: u64, prefix: u64) -> (r: bool)
        ensures
            r == self.spec_has_table(depth as int, prefix),
    {
        let mut j: usize = 0;
        while j < self.tables.len()
            invariant
                0 <= j <= self.spec_tables().len(),
                forall|k: int|
                    0 <= k < j ==> !((#[trigger] self.spec_tables()[k]).depth == depth
                        && self.spec_tables()[k].prefix == prefix),
            decreases self.spec_tables().len() - j,
        {
            if self.tables[j].depth == depth && self.tables[j].prefix == prefix {
                return true;
            }
            j = j + 1;
        }
        false
    }

    /// Walk towards `vp`, creating the intermediate tables that are missing;
    /// each new table costs one frame. Nothing is allocated when all three
    /// tables already exist.
    fn ensure_tables(&mut self, vp: u64, allocator: &mut BootInfoFrameAllocator) -> (r: Result<
        (),
        MemoryManagerError,
    >)
        requires
            old(self).wf(),
            old(allocator).wf(),
        ensures
            final(self).wf(),
            final(allocator).wf(),
            final(self).spec_mappings() == old(self).spec_mappings(),
            final(self).spec_root() == old(self).spec_root(),
            final(self).spec_offset() == old(self).spec_offset(),
            final(self).spec_cursor() == old(self).spec_cursor(),
            final(allocator).spec_regions() == old(allocator).spec_regions(),
            forall|q: int|
                0 <= q < old(allocator).spec_used().len() && old(allocator).spec_used()[q]
                    ==> final(allocator).spec_used()[q],
            final(allocator).spec_used().len() == old(allocator).spec_used().len(),
            forall|d: int, pfx: u64|
                old(self).spec_has_table(d, pfx) ==> final(self).spec_has_table(d, pfx),
            old(self).spec_has_all_tables(vp) ==> final(self).spec_tables() == old(self).spec_tables() && final(allocator).spec_used() == old(allocator).spec_used(),
            r is Ok ==> final(self).spec_has_all_tables(vp),
            r is Err ==> r == Err::<(), MemoryManagerError>(
                MemoryManagerError::FrameAllocationFailed,
            ),
            old(self).spec_has_all_tables(vp) ==> r is Ok,
            r is Err ==> forall|p: int|
                spec_first_ordinary_page() <= p < final(allocator).spec_used().len()
                    && spec_usable_covers(final(allocator).spec_regions(), p) ==> final(allocator).spec_used()[p],
            final(self).spec_tables().len() >= old(self).spec_tables().len(),
            forall|j: int|
                0 <= j < old(self).spec_tables().len() ==> final(self).spec_tables()[j] == old(self).spec_tables()[j],
            forall|j: int|
                old(self).spec_tables().len() <= j < final(self).spec_tables().len() ==> (
                #[trigger] final(self).spec_tables()[j]).frame % PAGE_SIZE == 0 && final(self).spec_tables()[j].frame / PAGE_SIZE < old(allocator).spec_used().len() && !old(allocator).spec_used()[(final(self).spec_tables()[j].frame / PAGE_SIZE) as int],
            forall|q: int|
                0 <= q < final(allocator).spec_used().len() ==> final(allocator).spec_used()[q]
                    == (old(allocator).spec_used()[q] || exists|j: int|
                    old(self).spec_tables().len() <= j < final(self).spec_tables().len() && ((
                    #[trigger] final(self).spec_tables()[j]).frame / PAGE_SIZE) as int == q),
    {
        let mut depth: u64 = 1;
        while depth <= 3
            invariant
                1 <= depth <= 4,
                self.wf(),
                allocator.wf(),
                self.spec_mappings() == old(self).spec_mappings(),
                self.spec_root() == old(self).spec_root(),
                self.spec_offset() == old(self).spec_offset(),
                self.spec_cursor() == old(self).spec_cursor(),
                allocator.spec_regions() == old(allocator).spec_regions(),
                allocator.spec_used().len() == old(allocator).spec_used().len(),
                forall|q: int|
                    0 <= q < old(allocator).spec_used().len() && old(allocator).spec_used()[q]
                        ==> allocator.spec_used()[q],
                forall|d: int, pfx: u64|
                    old(self).spec_has_table(d, pfx) ==> self.spec_has_table(d, pfx),
                old(self).spec_has_all_tables(vp) ==> self.spec_tables() == old(self).spec_tables() && allocator.spec_used() == old(allocator).spec_used(),
                forall|d: int| 1 <= d < depth ==> self.spec_has_table(d, spec_prefix_at(vp, d)),
                self.spec_tables().len() >= old(self).spec_tables().len(),
                forall|j: int|
                    0 <= j < old(self).spec_tables().len() ==> self.spec_tables()[j] == old(self).spec_tables()[j],
                forall|j: int|
                    old(self).spec_tables().len() <= j < self.spec_tables().len() ==> (
                    #[trigger] self.spec_tables()[j]).frame % PAGE_SIZE == 0
                        && self.spec_tables()[j].frame / PAGE_SIZE < old(allocator).spec_used().len() && !old(allocator).spec_used()[(self.spec_tables()[j].frame
                        / PAGE_SIZE) as int],
                forall|q: int|
                    0 <= q < allocator.spec_used().len() ==> allocator.spec_used()[q] == (old(allocator).spec_used()[q] || exists|j: int|
                        old(self).spec_tables().len() <= j < self.spec_tables().len() && ((
                        #[trigger] self.spec_tables()[j]).frame / PAGE_SIZE) as int == q),
            decreases 4 - depth,
        {
            let prefix = if depth == 1 {
                vp / 0x8000000
            } else if depth == 2 {
                vp / 0x40000
            } else {
                vp / 0x200
            };
            if !self.has_table(depth, prefix) {
                proof {
                    // With the whole walk already present this branch cannot
                    // be taken: the missing table would be one of the three.
                    if old(self).spec_has_all_tables(vp) {
                        assert(self.spec_has_table(depth as int, spec_prefix_at(vp, depth as int)));
                        assert(prefix == spec_prefix_at(vp, depth as int));
                        assert(false);
                    }
                }
                let frame = match allocator.allocate_frame() {
                    Some(f) => f,
                    None => {
                        return Err(MemoryManagerError::FrameAllocationFailed);
                    },
                };
                let ghost pre = self.spec_tables();
                let ghost pre_used = allocator.spec_used();
                let new_path = TablePath { depth, prefix, frame: frame.to_platform_value() };
                self.tables.push(new_path);
                proof {
                    assert forall|j: int, k: int|
                        0 <= j < k < self.spec_tables().len() implies !(self.spec_tables()[j].depth
                        == self.spec_tables()[k].depth && self.spec_tables()[j].prefix
                        == self.spec_tables()[k].prefix) by {
                        if k == self.spec_tables().len() - 1 {
                            assert(!(pre[j].depth == depth && pre[j].prefix == prefix));
                        }
                    }
                    lemma_tables_has_push(pre, new_path);
                    let base = old(self).spec_tables().len();
                    let fp = (frame.spec_value() / PAGE_SIZE) as int;
                    assert forall|q: int|
                        0 <= q < allocator.spec_used().len() implies allocator.spec_used()[q] == (
                    old(allocator).spec_used()[q] || exists|j: int|
                        base <= j < self.spec_tables().len() && ((#[trigger] self.spec_tables()[j]).frame
                            / PAGE_SIZE) as int == q) by {
                        if allocator.spec_used()[q] {
                            if !old(allocator).spec_used()[q] {
                                if q == fp {
                                    assert(self.spec_tables().last().frame == frame.spec_value());
                                    assert((self.spec_tables()[self.spec_tables().len()
                                        - 1].frame / PAGE_SIZE) as int == q);
                                } else {
                                    assert(pre_used[q]);
                                    let j = choose|j: int|
                                        base <= j < pre.len() && ((#[trigger] pre[j]).frame
                                            / PAGE_SIZE) as int == q;
                                    assert(self.spec_tables()[j] == pre[j]);
                                }
                            }
                        } else {
                            if exists|j: int|
                                base <= j < self.spec_tables().len() && ((
                                #[trigger] self.spec_tables()[j]).frame / PAGE_SIZE) as int == q {
                                let j = choose|j: int|
                                    base <= j < self.spec_tables().len() && ((
                                    #[trigger] self.spec_tables()[j]).frame / PAGE_SIZE) as int
                                        == q;
                                if j < pre.len() {
                                    assert(pre[j] == self.spec_tables()[j]);
                                    assert(pre_used[q]);
                                } else {
                                    assert(q == fp);
                                }
                                assert(false);
                            }
                        }
                    }
                }
            }
            proof {
                assert forall|d: int| 1 <= d < depth + 1 implies self.spec_has_table(
                    d,
                    spec_prefix_at(vp, d),
                ) by {
                    if d == depth {
                        assert(self.spec_has_table(depth as int, spec_prefix_at(vp, d)));
                    }
                }
            }
            depth = depth + 1;
        }
        Ok(())
    }

    /// Map the page at `virtual_address` to `physical_address` with `flags`,
    /// creating intermediate tables on demand. When the walk and a leaf
    /// already exist, nothing is allocated.
    #[verifier::rlimit(30)]
    pub fn map_page(
        &mut self,
        physical_address: PlatformMemoryAddress,
        virtual_address: PlatformMemoryAddress,
        flags: u64,
        allocator: &mut BootInfoFrameAllocator,
    ) -> (r: Result<(), MemoryManagerError>)
        requires
            old(self).wf(),
            old(allocator).wf(),
        ensures
            final(self).wf(),
            final(allocator).wf(),
            final(self).spec_root() == old(self).spec_root(),
            final(self).spec_offset() == old(self).spec_offset(),
            final(self).spec_cursor() == old(self).spec_cursor(),
            final(allocator).spec_regions() == old(allocator).spec_regions(),
            final(allocator).spec_used().len() == old(allocator).spec_used().len(),
            forall|q: int|
                0 <= q < old(allocator).spec_used().len() && old(allocator).spec_used()[q]
                    ==> final(allocator).spec_used()[q],
            forall|d: int, pfx: u64|
                old(self).spec_has_table(d, pfx) ==> final(self).spec_has_table(d, pfx),
            match r {
                Ok(()) => {
                    &&& final(self).spec_map_view() == old(self).spec_map_view().insert(
                        virtual_address.spec_value() / PAGE_SIZE,
                        (physical_address.spec_value(), flags),
                    )
                    &&& final(self).spec_has_all_tables(virtual_address.spec_value() / PAGE_SIZE)
                },
                Err(MemoryManagerError::FrameAllocationFailed) => final(self).spec_map_view()
                    == old(self).spec_map_view(),
                Err(MemoryManagerError::OutOfVirtualRange) => false,
            },
            old(self).spec_has_all_tables(virtual_address.spec_value() / PAGE_SIZE) ==> final(self).spec_tables() == old(self).spec_tables() && final(allocator).spec_used() == old(allocator).spec_used(),
            old(self).spec_has_all_tables((virtual_address.spec_value() / PAGE_SIZE)) ==> r is Ok,
            r is Err ==> forall|p: int|
                spec_first_ordinary_page() <= p < final(allocator).spec_used().len()
                    && spec_usable_covers(final(allocator).spec_regions(), p) ==> final(allocator).spec_used()[p],
            final(self).spec_tables().len() >= old(self).spec_tables().len(),
            forall|j: int|
                0 <= j < old(self).spec_tables().len() ==> final(self).spec_tables()[j] == old(self).spec_tables()[j],
            forall|j: int|
                old(self).spec_tables().len() <= j < final(self).spec_tables().len() ==> (
                #[trigger] final(self).spec_tables()[j]).frame % PAGE_SIZE == 0 && final(self).spec_tables()[j].frame / PAGE_SIZE < old(allocator).spec_used().len() && !old(allocator).spec_used()[(final(self).spec_tables()[j].frame / PAGE_SIZE) as int],
            forall|q: int|
                0 <= q < final(allocator).spec_used().len() ==> final(allocator).spec_used()[q]
                    == (old(allocator).spec_used()[q] || exists|j: int|
                    old(self).spec_tables().len() <= j < final(self).spec_tables().len() && ((
                    #[trigger] final(self).spec_tables()[j]).frame / PAGE_SIZE) as int == q),
    {
        let vp = virtual_address.to_platform_value() / PAGE_SIZE;
        match self.ensure_tables(vp, allocator) {
            Ok(()) => {},
            Err(e) => {
                return Err(e);
            },
        }
        let ghost mid_tables = self.spec_tables();
        let ghost mid_used = allocator.spec_used();
        let m = MappedPage { virt_page: vp, phys: physical_address.to_platform_value(), flags };
        let ghost pre = self.spec_mappings();
        match self.find_mapping(vp) {
            Some(j) => {
                self.mappings[j] = m;
                proof {
                    lemma_seq_to_map_update(pre, j as int, m);
                    assert(spec_unique_pages(self.spec_mappings()));
                }
            },
            None => {
                self.mappings.push(m);
                proof {
                    lemma_seq_to_map_push(pre, m);
                    assert forall|a: int, b: int|
                        0 <= a < b < self.spec_mappings().len() implies self.spec_mappings()[a].virt_page
                        != self.spec_mappings()[b].virt_page by {
                        if b == self.spec_mappings().len() - 1 {
                            assert(pre[a].virt_page != vp);
                        }
                    }
                }
            },
        }
        proof {
            // Writing the leaf touches neither the allocator nor the table
            // list, so the table-frame accounting carries over unchanged.
            assert(self.spec_tables() == mid_tables);
            assert(allocator.spec_used() == mid_used);
            assert forall|q: int|
                0 <= q < allocator.spec_used().len() implies allocator.spec_used()[q] == (old(allocator).spec_used()[q] || exists|j: int|
                old(self).spec_tables().len() <= j < self.spec_tables().len() && ((
                #[trigger] self.spec_tables()[j]).frame / PAGE_SIZE) as int == q) by {
                if allocator.spec_used()[q] && !old(allocator).spec_used()[q] {
                    assert(mid_used[q]);
                    let j = choose|j: int|
                        old(self).spec_tables().len() <= j < mid_tables.len() && ((
                        #[trigger] mid_tables[j]).frame / PAGE_SIZE) as int == q;
                    assert(self.spec_tables()[j] == mid_tables[j]);
                }
                if !allocator.spec_used()[q] {
                    if exists|j: int|
                        old(self).spec_tables().len() <= j < self.spec_tables().len() && ((
                        #[trigger] self.spec_tables()[j]).frame / PAGE_SIZE) as int == q {
                        let j = choose|j: int|
                            old(self).spec_tables().len() <= j < self.spec_tables().len() && ((
                            #[trigger] self.spec_tables()[j]).frame / PAGE_SIZE) as int == q;
                        assert(mid_tables[j] == self.spec_tables()[j]);
                        assert(mid_used[q]);
                        assert(false);
                    }
                }
            }
        }
        Ok(())
    }

    /// Map a frame at its own address, so that the virtual address equals
    /// the physical one: what the AP trampoline and MMIO windows need.
    /// Identity-mapping an already-identity-mapped frame with the same flags
    /// changes nothing and allocates nothing.
    pub fn identity_map(
        &mut self,
        frame: PlatformMemoryAddress,
        flags: u64,
        allocator: &mut BootInfoFrameAllocator,
    ) -> (r: Result<(), MemoryManagerError>)
        requires
            old(self).wf(),
            old(allocator).wf(),
        ensures
            final(self).wf(),
            final(allocator).wf(),
            final(self).spec_root() == old(self).spec_root(),
            final(self).spec_offset() == old(self).spec_offset(),
            final(self).spec_cursor() == old(self).spec_cursor(),
            final(allocator).spec_regions() == old(allocator).spec_regions(),
            final(allocator).spec_used().len() == old(allocator).spec_used().len(),
            forall|q: int|
                0 <= q < old(allocator).spec_used().len() && old(allocator).spec_used()[q]
                    ==> final(allocator).spec_used()[q],
            match r {
                Ok(()) => final(self).spec_map_view() == old(self).spec_map_view().insert(
                    frame.spec_value() / PAGE_SIZE,
                    (frame.spec_value(), flags),
                ),
                Err(MemoryManagerError::FrameAllocationFailed) => final(self).spec_map_view()
                    == old(self).spec_map_view(),
                Err(MemoryManagerError::OutOfVirtualRange) => false,
            },
            (old(self).spec_has_all_tables(frame.spec_value() / PAGE_SIZE) && old(self).spec_map_view().contains_key(frame.spec_value() / PAGE_SIZE) && old(self).spec_map_view()[frame.spec_value() / PAGE_SIZE] == (frame.spec_value(), flags) && r
                is Ok) ==> final(self).spec_map_view() == old(self).spec_map_view() && final(self).spec_tables() == old(self).spec_tables() && final(allocator).spec_used() == old(allocator).spec_used(),
            old(self).spec_has_all_tables((frame.spec_value() / PAGE_SIZE)) ==> r is Ok,
            r is Err ==> forall|p: int|
                spec_first_ordinary_page() <= p < final(allocator).spec_used().len()
                    && spec_usable_covers(final(allocator).spec_regions(), p) ==> final(allocator).spec_used()[p],
    {
        let ghost pre_view = self.spec_map_view();
        let r = self.map_page(frame, frame, flags, allocator);
        proof {
            let vp = frame.spec_value() / PAGE_SIZE;
            if r is Ok && pre_view.contains_key(vp) && pre_view[vp] == (frame.spec_value(), flags) {
                assert(self.spec_map_view() =~= pre_view);
            }
        }
        r
    }

    /// Rewrite the flags of the leaf for `virtual_address`, creating the
    /// walk (and an otherwise empty leaf) if none exists yet.
    pub fn set_page_flags(
        &mut self,
        virtual_address: PlatformMemoryAddress,
        flags: u64,
        allocator: &mut BootInfoFrameAllocator,
    ) -> (r: Result<(), MemoryManagerError>)
        requires
            old(self).wf(),
            old(allocator).wf(),
        ensures
            final(self).wf(),
            final(allocator).wf(),
            final(self).spec_root() == old(self).spec_root(),
            final(self).spec_offset() == old(self).spec_offset(),
            final(self).spec_cursor() == old(self).spec_cursor(),
            final(allocator).spec_regions() == old(allocator).spec_regions(),
            match r {
                Ok(()) => final(self).spec_map_view() == old(self).spec_map_view().insert(
                    virtual_address.spec_value() / PAGE_SIZE,
                    (
                        if old(self).spec_map_view().contains_key(
                            virtual_address.spec_value() / PAGE_SIZE,
                        ) {
                            old(self).spec_map_view()[virtual_address.spec_value() / PAGE_SIZE].0
                        } else {
                            0
                        },
                        flags,
                    ),
                ),
                Err(MemoryManagerError::FrameAllocationFailed) => final(self).spec_map_view()
                    == old(self).spec_map_view(),
                Err(MemoryManagerError::OutOfVirtualRange) => false,
            },
            old(self).spec_has_all_tables((virtual_address.spec_value() / PAGE_SIZE)) ==> r is Ok,
            r is Err ==> forall|p: int|
                spec_first_ordinary_page() <= p < final(allocator).spec_used().len()
                    && spec_usable_covers(final(allocator).spec_regions(), p) ==> final(allocator).spec_used()[p],
    {
        let vp = virtual_address.to_platform_value() / PAGE_SIZE;
        match self.ensure_tables(vp, allocator) {
            Ok(()) => {},
            Err(e) => {
                return Err(e);
            },
        }
        let ghost pre = self.spec_mappings();
        proof {
            lemma_seq_to_map_contains(pre, vp);
        }
        match self.find_mapping(vp) {
            Some(j) => {
                let m = MappedPage { virt_page: vp, phys: self.mappings[j].phys, flags };
                proof {
                    lemma_seq_to_map_get(pre, j as int);
                }
                self.mappings[j] = m;
                proof {
                    lemma_seq_to_map_update(pre, j as int, m);
                    assert(spec_unique_pages(self.spec_mappings()));
                }
            },
            None => {
                let m = MappedPage { virt_page: vp, phys: 0, flags };
                self.mappings.push(m);
                proof {
                    lemma_seq_to_map_push(pre, m);
                    assert forall|a: int, b: int|
                        0 <= a < b < self.spec_mappings().len() implies self.spec_mappings()[a].virt_page
                        != self.spec_mappings()[b].virt_page by {
                        if b == self.spec_mappings().len() - 1 {
                            assert(pre[a].virt_page != vp);
                        }
                    }
                }
            },
        }
        Ok(())
    }

    /// The flags of the leaf for `virtual_address`, if one exists.
    pub fn get_page_flags(&self, virtual_address: PlatformMemoryAddress) -> (r: Option<u64>)
        requires
            self.wf(),
        ensures
            match r {
                Some(f) => self.spec_map_view().contains_key(
                    virtual_address.spec_value() / PAGE_SIZE,
                ) && self.spec_map_view()[virtual_address.spec_value() / PAGE_SIZE].1 == f,
                None => !self.spec_map_view().contains_key(
                    virtual_address.spec_value() / PAGE_SIZE,
                ),
            },
    {
        let vp = virtual_address.to_platform_value() / PAGE_SIZE;
        proof {
            lemma_seq_to_map_contains(self.spec_mappings(), vp);
        }
        match self.find_mapping(vp) {
            Some(j) => {
                proof {
                    lemma_seq_to_map_get(self.spec_mappings(), j as int);
                }
                Some(self.mappings[j].flags)
            },
            None => None,
        }
    }

    /// One pass over every leaf, run at early init before any AP starts: set
    /// GLOBAL and clear USER_ACCESSIBLE, establishing the kernel/user split.
    /// Afterwards every leaf is global and inaccessible from user mode.
    pub fn protect_kernel_space(&mut self)
        requires
            old(self).wf(),
        ensures
            final(self).wf(),
            final(self).spec_root() == old(self).spec_root(),
            final(self).spec_offset() == old(self).spec_offset(),
            final(self).spec_cursor() == old(self).spec_cursor(),
            final(self).spec_tables() == old(self).spec_tables(),
            forall|vp: u64|
                #![trigger final(self).spec_map_view().contains_key(vp)]
                #![trigger old(self).spec_map_view().contains_key(vp)]
                final(self).spec_map_view().contains_key(vp) <==> old(self).spec_map_view().contains_key(vp),
            forall|vp: u64|
                #[trigger] old(self).spec_map_view().contains_key(vp) ==> final(self).spec_map_view()[vp].0 == old(self).spec_map_view()[vp].0 && final(self).spec_map_view()[vp].1 == ((old(self).spec_map_view()[vp].1 | FLAG_GLOBAL)
                    & !FLAG_USER_ACCESSIBLE),
            forall|vp: u64|
                #[trigger] final(self).spec_map_view().contains_key(vp) ==> final(self).spec_map_view()[vp].1 & FLAG_GLOBAL == FLAG_GLOBAL && final(self).spec_map_view()[vp].1 & FLAG_USER_ACCESSIBLE == 0,
    {
        let count = self.mappings.len();
        let mut i: usize = 0;
        while i < count
            invariant
                0 <= i <= count,
                count == self.spec_mappings().len(),
                self.spec_mappings().len() == old(self).spec_mappings().len(),
                self.wf(),
                self.spec_root() == old(self).spec_root(),
                self.spec_offset() == old(self).spec_offset(),
                self.spec_cursor() == old(self).spec_cursor(),
                self.spec_tables() == old(self).spec_tables(),
                forall|j: int|
                    0 <= j < self.spec_mappings().len() ==> (#[trigger] self.spec_mappings()[j]).virt_page
                        == old(self).spec_mappings()[j].virt_page,
                forall|j: int|
                    0 <= j < i ==> (#[trigger] self.spec_mappings()[j]).phys == old(self).spec_mappings()[j].phys && self.spec_mappings()[j].flags == ((old(self).spec_mappings()[j].flags | FLAG_GLOBAL) & !FLAG_USER_ACCESSIBLE),
                forall|j: int|
                    i <= j < self.spec_mappings().len() ==> (#[trigger] self.spec_mappings()[j])
                        == old(self).spec_mappings()[j],
            decreases count - i,
        {
            let m = self.mappings[i];
            let updated = MappedPage {
                virt_page: m.virt_page,
                phys: m.phys,
                flags: (m.flags | FLAG_GLOBAL) & !FLAG_USER_ACCESSIBLE,
            };
            self.mappings[i] = updated;
            i = i + 1;
        }
        let ghost fin = self.spec_mappings();
        proof {
            lemma_pointwise_map_views(old(self).spec_mappings(), fin);
            assert forall|vp: u64|
                #[trigger] old(self).spec_map_view().contains_key(vp) implies seq_to_map(fin)[vp].0
                == old(self).spec_map_view()[vp].0 && seq_to_map(fin)[vp].1 == ((old(self).spec_map_view()[vp].1 | FLAG_GLOBAL) & !FLAG_USER_ACCESSIBLE) by {
                lemma_seq_to_map_contains(old(self).spec_mappings(), vp);
                let j = choose|j: int|
                    0 <= j < old(self).spec_mappings().len() && (#[trigger] old(self).spec_mappings()[j]).virt_page == vp;
                lemma_seq_to_map_get(old(self).spec_mappings(), j);
                lemma_seq_to_map_get(fin, j);
            }
            assert forall|vp: u64|
                #[trigger] seq_to_map(fin).contains_key(vp) implies seq_to_map(fin)[vp].1
                & FLAG_GLOBAL == FLAG_GLOBAL && seq_to_map(fin)[vp].1 & FLAG_USER_ACCESSIBLE
                == 0 by {
                lemma_seq_to_map_contains(fin, vp);
                lemma_seq_to_map_contains(old(self).spec_mappings(), vp);
                lemma_protect_bits(old(self).spec_map_view()[vp].1);
            }
        }
    }

    /// Find, allocate and map `pages` consecutive virtual pages, starting no
    /// earlier than the bump cursor and `earliest`. On success the pages of
    /// the returned range are all freshly mapped with `flags` to
    /// frame-aligned physical memory, everything else is untouched, and the
    /// cursor moves past the range. Asking from beyond the dynamic window
    /// fails with `OutOfVirtualRange`; a request for zero pages succeeds
    /// without touching anything.
    pub fn allocate_contiguous(
        &mut self,
        pages: usize,
        earliest: Option<PlatformMemoryAddress>,
        flags: u64,
        allocator: &mut BootInfoFrameAllocator,
    ) -> (r: Result<PlatformMemoryAddress, MemoryManagerError>)
        requires
            old(self).wf(),
            old(allocator).wf(),
        ensures
            final(self).wf(),
            final(allocator).wf(),
            final(self).spec_root() == old(self).spec_root(),
            final(self).spec_offset() == old(self).spec_offset(),
            final(allocator).spec_regions() == old(allocator).spec_regions(),
            final(allocator).spec_used().len() == old(allocator).spec_used().len(),
            match r {
                Ok(a) => {
                    &&& a.spec_value() % PAGE_SIZE == 0
                    &&& a.spec_value() / PAGE_SIZE >= old(self).spec_cursor()
                    &&& (earliest matches Some(e) ==> a.spec_value() / PAGE_SIZE >= e.spec_value()
                        / PAGE_SIZE)
                    &&& a.spec_value() / PAGE_SIZE + pages <= DYNAMIC_RANGE_END_PAGE + 1
                    &&& forall|k: int|
                        0 <= k < pages ==> !(#[trigger] old(self).spec_map_view().contains_key(
                            (a.spec_value() / PAGE_SIZE + k) as u64,
                        ))
                    &&& forall|k: int|
                        0 <= k < pages ==> (#[trigger] final(self).spec_map_view().contains_key(
                            (a.spec_value() / PAGE_SIZE + k) as u64,
                        )) && final(self).spec_map_view()[(a.spec_value() / PAGE_SIZE
                            + k) as u64].1 == flags && final(self).spec_map_view()[(a.spec_value()
                            / PAGE_SIZE + k) as u64].0 % PAGE_SIZE == 0
                    &&& forall|vp: u64|
                        #![trigger final(self).spec_map_view().contains_key(vp)]
                        #![trigger old(self).spec_map_view().contains_key(vp)]
                        !(a.spec_value() / PAGE_SIZE <= vp < a.spec_value() / PAGE_SIZE + pages)
                            ==> (final(self).spec_map_view().contains_key(vp) <==> old(self).spec_map_view().contains_key(vp)) && (old(self).spec_map_view().contains_key(vp) ==> final(self).spec_map_view()[vp]
                            == old(self).spec_map_view()[vp])
                    &&& (pages > 0 ==> final(self).spec_cursor() == a.spec_value() / PAGE_SIZE
                        + pages)
                    &&& (pages == 0 ==> final(self).spec_cursor() == old(self).spec_cursor()
                        && final(self).spec_map_view() == old(self).spec_map_view() && final(allocator).spec_used() == old(allocator).spec_used())
                    &&& (earliest is Some && old(self).spec_cursor() <= (earliest->Some_0).spec_value()
                        / PAGE_SIZE && old(self).spec_window_unmapped(
                        ((earliest->Some_0).spec_value() / PAGE_SIZE) as int,
                        pages as int,
                    ) && (earliest->Some_0).spec_value() / PAGE_SIZE + pages
                        <= DYNAMIC_RANGE_END_PAGE + 1) ==> a.spec_value() / PAGE_SIZE == (
                    earliest->Some_0).spec_value() / PAGE_SIZE
                },
                Err(MemoryManagerError::OutOfVirtualRange) => {
                    &&& final(self).spec_map_view() == old(self).spec_map_view()
                    &&& final(self).spec_cursor() == old(self).spec_cursor()
                    &&& final(self).spec_tables() == old(self).spec_tables()
                    &&& final(allocator).spec_used() == old(allocator).spec_used()
                    &&& pages > 0 ==> forall|i2: int|
                        i2 >= old(self).spec_cursor() && (earliest matches Some(e) ==> i2
                            >= e.spec_value() / PAGE_SIZE) && i2 + pages
                            <= DYNAMIC_RANGE_END_PAGE + 1 ==> !old(self).spec_window_unmapped(
                            i2,
                            pages as int,
                        )
                },
                Err(MemoryManagerError::FrameAllocationFailed) => {
                    &&& final(self).spec_cursor() == old(self).spec_cursor()
                    &&& ((final(self).spec_map_view() == old(self).spec_map_view() && final(self).spec_tables() == old(self).spec_tables() && final(allocator).spec_used()
                        == old(allocator).spec_used() && spec_free_ordinary(*old(allocator))
                        < pages) || (forall|p: int|
                        spec_first_ordinary_page() <= p < final(allocator).spec_used().len()
                            && spec_usable_covers(final(allocator).spec_regions(), p) ==> final(allocator).spec_used()[p]))
                },
            },
            (earliest matches Some(e) && e.spec_value() / PAGE_SIZE > DYNAMIC_RANGE_END_PAGE) ==> r
                == Err::<PlatformMemoryAddress, MemoryManagerError>(
                MemoryManagerError::OutOfVirtualRange,
            ),
    {
        let epage: u64 = match earliest {
            Some(e) => e.to_platform_value() / PAGE_SIZE,
            None => 0,
        };
        let start = if self.next_free_kernel_virtual_page > epage {
            self.next_free_kernel_virtual_page
        } else {
            epage
        };
        let c = match self.find_window(start, pages) {
            Ok(c) => c,
            Err(e) => {
                return Err(e);
            },
        };
        if pages == 0 {
            proof {
                vstd::arithmetic::div_mod::lemma_div_by_multiple(c as int, PAGE_SIZE as int);
                vstd::arithmetic::div_mod::lemma_mod_multiples_basic(c as int, PAGE_SIZE as int);
            }
            return Ok(PlatformMemoryAddress::from(c * PAGE_SIZE));
        }
        let frames = match claim_frames(allocator, pages) {
            Ok(v) => v,
            Err(e) => {
                return Err(e);
            },
        };
        let mut i: usize = 0;
        while i < pages
            invariant
                0 <= i <= pages,
                frames@.len() == pages,
                c + pages <= DYNAMIC_RANGE_END_PAGE + 1,
                forall|k: int| 0 <= k < pages ==> (#[trigger] frames@[k]).spec_value() % PAGE_SIZE == 0,
                self.wf(),
                allocator.wf(),
                self.spec_root() == old(self).spec_root(),
                self.spec_offset() == old(self).spec_offset(),
                self.spec_cursor() == old(self).spec_cursor(),
                allocator.spec_regions() == old(allocator).spec_regions(),
                allocator.spec_used().len() == old(allocator).spec_used().len(),
                epage <= c,
                match earliest {
                    Some(e) => epage == e.spec_value() / PAGE_SIZE,
                    None => epage == 0,
                },
                pages > 0,
                forall|k: int|
                    0 <= k < i ==> (#[trigger] self.spec_map_view().contains_key((c + k) as u64))
                        && self.spec_map_view()[(c + k) as u64].1 == flags
                        && self.spec_map_view()[(c + k) as u64].0 % PAGE_SIZE == 0,
                forall|vp: u64|
                    #![trigger old(self).spec_map_view().contains_key(vp)]
                    #![trigger self.spec_map_view().contains_key(vp)]
                    !(c <= vp < c + i) ==> ((self.spec_map_view().contains_key(vp) <==> old(self).spec_map_view().contains_key(vp)) && (old(self).spec_map_view().contains_key(
                        vp,
                    ) ==> self.spec_map_view()[vp] == old(self).spec_map_view()[vp])),
            decreases pages - i,
        {
            let virt = PlatformMemoryAddress::from((c + i as u64) * PAGE_SIZE);
            proof {
                vstd::arithmetic::div_mod::lemma_div_by_multiple(
                    (c + i as u64) as int,
                    PAGE_SIZE as int,
                );
            }
            let ghost view_before = self.spec_map_view();
            match self.map_page(frames[i], virt, flags, allocator) {
                Ok(()) => {},
                Err(_) => {
                    return Err(MemoryManagerError::FrameAllocationFailed);
                },
            }
            proof {
                let key: u64 = (c + i as u64) as u64;
                assert(self.spec_map_view() == view_before.insert(
                    key,
                    (frames@[i as int].spec_value(), flags),
                ));
                assert forall|vp: u64| !(c <= vp < c + i + 1) implies ((
                self.spec_map_view().contains_key(vp) <==> old(self).spec_map_view().contains_key(
                    vp,
                )) && (old(self).spec_map_view().contains_key(vp)
                    ==> self.spec_map_view()[vp] == old(self).spec_map_view()[vp])) by {
                    assert(vp != key);
                    assert(view_before.contains_key(vp) <==> old(self).spec_map_view().contains_key(vp));
                }
                assert forall|k: int| 0 <= k < i + 1 implies (
                #[trigger] self.spec_map_view().contains_key((c + k) as u64))
                    && self.spec_map_view()[(c + k) as u64].1 == flags
                    && self.spec_map_view()[(c + k) as u64].0 % PAGE_SIZE == 0 by {
                    if k < i {
                        assert((c + k) as u64 != key);
                        assert(view_before.contains_key((c + k) as u64));
                    } else {
                        assert((c + k) as u64 == key);
                    }
                }
            }
            i = i + 1;
        }
        let ghost exit_view = self.spec_map_view();
        self.next_free_kernel_virtual_page = c + pages as u64;
        proof {
            assert(self.spec_map_view() == exit_view);
            vstd::arithmetic::div_mod::lemma_div_by_multiple(c as int, PAGE_SIZE as int);
            vstd::arithmetic::div_mod::lemma_mod_multiples_basic(c as int, PAGE_SIZE as int);
            assert forall|vp: u64| !(c <= vp < c + pages) implies ((
            self.spec_map_view().contains_key(vp) <==> old(self).spec_map_view().contains_key(vp))
                && (old(self).spec_map_view().contains_key(vp) ==> self.spec_map_view()[vp] == old(self).spec_map_view()[vp])) by {
                assert(exit_view.contains_key(vp) <==> old(self).spec_map_view().contains_key(vp));
                assert(old(self).spec_map_view().contains_key(vp) ==> exit_view[vp] == old(self).spec_map_view()[vp]);
            }
            assert forall|k: int| 0 <= k < pages implies (
            #[trigger] self.spec_map_view().contains_key((c + k) as u64))
                && self.spec_map_view()[(c + k) as u64].1 == flags
                && self.spec_map_view()[(c + k) as u64].0 % PAGE_SIZE == 0 by {
                assert(exit_view.contains_key((c + k) as u64));
            }
        }
        Ok(PlatformMemoryAddress::from(c * PAGE_SIZE))
    }

    /// Scan forward from `start` for `pages` consecutive unmapped virtual
    /// pages inside the dynamic window. On hitting a mapped page the window
    /// restarts just past it; the scan never backtracks.
    fn find_window(&self, start: u64, pages: usize) -> (r: Result<u64, MemoryManagerError>)
        requires
            self.wf(),
        ensures
            match r {
                Ok(c) => {
                    &&& c >= start
                    &&& c + pages <= DYNAMIC_RANGE_END_PAGE + 1
                    &&& c * PAGE_SIZE <= u64::MAX
                    &&& self.spec_window_unmapped(c as int, pages as int)
                    &&& (self.spec_window_unmapped(start as int, pages as int) && start + pages
                        <= DYNAMIC_RANGE_END_PAGE + 1) ==> c == start
                },
                Err(MemoryManagerError::OutOfVirtualRange) => pages > 0 ==> forall|i2: int|
                    start <= i2 && i2 + pages <= DYNAMIC_RANGE_END_PAGE + 1
                        ==> !self.spec_window_unmapped(i2, pages as int),
                Err(MemoryManagerError::FrameAllocationFailed) => false,
            },
            start > DYNAMIC_RANGE_END_PAGE ==> r is Err,
            (pages == 0 && start <= DYNAMIC_RANGE_END_PAGE) ==> r is Ok,
    {
        let mut c = start;
        loop
            invariant
                self.wf(),
                c >= start,
                pages == 0 ==> c == start,
                forall|i2: int|
                    start <= i2 < c ==> !self.spec_window_unmapped(i2, pages as int),
                (self.spec_window_unmapped(start as int, pages as int) && start + pages
                    <= DYNAMIC_RANGE_END_PAGE + 1) ==> c == start,
            decreases DYNAMIC_RANGE_END_PAGE + 2 - c,
        {
            if c > DYNAMIC_RANGE_END_PAGE {
                proof {
                    if pages > 0 {
                        assert forall|i2: int|
                            start <= i2 && i2 + pages <= DYNAMIC_RANGE_END_PAGE + 1
                                implies !self.spec_window_unmapped(i2, pages as int) by {
                            assert(i2 < c);
                        }
                    }
                }
                return Err(MemoryManagerError::OutOfVirtualRange);
            }
            if pages as u64 > DYNAMIC_RANGE_END_PAGE + 1 - c {
                proof {
                    if pages > 0 {
                        assert forall|i2: int|
                            start <= i2 && i2 + pages <= DYNAMIC_RANGE_END_PAGE + 1
                                implies !self.spec_window_unmapped(i2, pages as int) by {
                            assert(i2 < c);
                        }
                    }
                }
                return Err(MemoryManagerError::OutOfVirtualRange);
            }
            let mut k: usize = 0;
            let mut conflict: Option<u64> = None;
            while k < pages && matches!(conflict, None)
                invariant
                    self.wf(),
                    0 <= k <= pages,
                    c + pages <= DYNAMIC_RANGE_END_PAGE + 1,
                    match conflict {
                        Some(q) => c <= q < c + pages && self.spec_map_view().contains_key(q),
                        None => forall|k2: int|
                            0 <= k2 < k ==> !(#[trigger] self.spec_map_view().contains_key(
                                (c + k2) as u64,
                            )),
                    },
                decreases pages - k + (if conflict is None { 1int } else { 0int }),
            {
                if self.is_mapped(c + k as u64) {
                    conflict = Some(c + k as u64);
                } else {
                    k = k + 1;
                }
            }
            match conflict {
                None => {
                    return Ok(c);
                },
                Some(q) => {
                    proof {
                        // Every window starting at or before the mapped page
                        // `q` still contains it; in particular an unmapped
                        // window at `start` rules this conflict out, so the
                        // anchor-hit claim is safe.
                        assert forall|i2: int| c <= i2 <= q implies !self.spec_window_unmapped(
                            i2,
                            pages as int,
                        ) by {
                            let k = q - i2;
                            assert(0 <= k < pages);
                            assert(self.spec_map_view().contains_key((i2 + k) as u64));
                        }
                        assert(!self.spec_window_unmapped(c as int, pages as int));
                    }
                    c = q + 1;
                },
            }
        }
    }
}

/// Claim `n` frames from the allocator, after checking that it has that
/// many free ordinary frames; with fewer the allocator is left untouched
/// and the request fails.
fn claim_frames(allocator: &mut BootInfoFrameAllocator, n: usize) -> (r: Result<
    Vec<PlatformMemoryAddress>,
    MemoryManagerError,
>)
    requires
        old(allocator).wf(),
    ensures
        final(allocator).wf(),
        final(allocator).spec_regions() == old(allocator).spec_regions(),
        final(allocator).spec_used().len() == old(allocator).spec_used().len(),
        match r {
            Ok(v) => {
                &&& v@.len() == n
                &&& forall|i: int|
                    0 <= i < n ==> (#[trigger] v@[i]).spec_value() % PAGE_SIZE == 0
                        && v@[i].spec_value() >= 0x100000 && v@[i].spec_value() / PAGE_SIZE < old(allocator).spec_used().len() && !old(allocator).spec_used()[(v@[i].spec_value()
                        / PAGE_SIZE) as int]
                &&& forall|i: int, j: int| 0 <= i < j < n ==> v@[i] != v@[j]
                &&& forall|q: int|
                    0 <= q < final(allocator).spec_used().len() ==> final(allocator).spec_used()[q]
                        == (old(allocator).spec_used()[q] || exists|i: int|
                        0 <= i < n && ((#[trigger] v@[i]).spec_value() / PAGE_SIZE) as int == q)
            },
            Err(MemoryManagerError::FrameAllocationFailed) => {
                &&& final(allocator).spec_used() == old(allocator).spec_used()
                &&& spec_free_ordinary(*old(allocator)) < n
            },
            Err(MemoryManagerError::OutOfVirtualRange) => false,
        },
{
    if allocator.count_free_ordinary() < n {
        return Err(MemoryManagerError::FrameAllocationFailed);
    }
    let mut frames: Vec<PlatformMemoryAddress> = Vec::new();
    let mut k: usize = 0;
    while k < n
        invariant
            0 <= k <= n,
            frames@.len() == k,
            allocator.wf(),
            allocator.spec_regions() == old(allocator).spec_regions(),
            allocator.spec_used().len() == old(allocator).spec_used().len(),
            spec_free_ordinary(*allocator) == spec_free_ordinary(*old(allocator)) - k,
            n <= spec_free_ordinary(*old(allocator)),
            forall|i: int|
                0 <= i < k ==> (#[trigger] frames@[i]).spec_value() % PAGE_SIZE == 0
                    && frames@[i].spec_value() >= 0x100000 && frames@[i].spec_value() / PAGE_SIZE
                    < old(allocator).spec_used().len() && !old(allocator).spec_used()[(
                frames@[i].spec_value() / PAGE_SIZE) as int],
            forall|i: int, j: int| 0 <= i < j < k ==> frames@[i] != frames@[j],
            forall|q: int|
                0 <= q < allocator.spec_used().len() ==> allocator.spec_used()[q] == (old(allocator).spec_used()[q] || exists|i: int|
                    0 <= i < k && ((#[trigger] frames@[i]).spec_value() / PAGE_SIZE) as int == q),
        decreases n - k,
    {
        let ghost pre = frames@;
        let ghost pre_alloc = *allocator;
        match allocator.allocate_frame() {
            Some(f) => {
                frames.push(f);
                proof {
                    vstd::arithmetic::div_mod::lemma_div_is_ordered(
                        0x100000,
                        f.spec_value() as int,
                        PAGE_SIZE as int,
                    );
                    lemma_free_ordinary_update(
                        pre_alloc,
                        *allocator,
                        (f.spec_value() / PAGE_SIZE) as int,
                    );
                    assert forall|q: int|
                        0 <= q < allocator.spec_used().len() implies allocator.spec_used()[q] == (
                    old(allocator).spec_used()[q] || exists|i: int|
                        0 <= i < k + 1 && ((#[trigger] frames@[i]).spec_value()
                            / PAGE_SIZE) as int == q) by {
                        if allocator.spec_used()[q] {
                            if !old(allocator).spec_used()[q] {
                                if (f.spec_value() / PAGE_SIZE) as int == q {
                                    assert(frames@[k as int] == f);
                                } else {
                                    let i = choose|i: int|
                                        0 <= i < k && ((#[trigger] pre[i]).spec_value()
                                            / PAGE_SIZE) as int == q;
                                    assert(frames@[i] == pre[i]);
                                }
                            }
                        } else {
                            if exists|i: int|
                                0 <= i < k + 1 && ((#[trigger] frames@[i]).spec_value()
                                    / PAGE_SIZE) as int == q {
                                let i = choose|i: int|
                                    0 <= i < k + 1 && ((#[trigger] frames@[i]).spec_value()
                                        / PAGE_SIZE) as int == q;
                                if i < k {
                                    assert(pre[i] == frames@[i]);
                                }
                                assert(false);
                            }
                        }
                    }
                }
            },
            None => {
                proof {
                    // The pre-check left at least one free ordinary frame,
                    // so an empty-handed scan is impossible.
                    lemma_free_ordinary_congruent(
                        pre_alloc,
                        *allocator,
                        allocator.spec_used().len() as int,
                    );
                    lemma_free_ordinary_pos(
                        *allocator,
                        allocator.spec_used().len() as int,
                    );
                    assert(false);
                }
                return Err(MemoryManagerError::FrameAllocationFailed);
            },
        }
        k = k + 1;
    }
    Ok(frames)
}

/// Two page-aligned addresses on the same page are the same address.
proof fn lemma_frame_eq_from_page(a: u64, b: u64)
    requires
        a % PAGE_SIZE == 0,
        b % PAGE_SIZE == 0,
        a / PAGE_SIZE == b / PAGE_SIZE,
    ensures
        a == b,
{
    vstd::arithmetic::div_mod::lemma_fundamental_div_mod(a as int, PAGE_SIZE as int);
    vstd::arithmetic::div_mod::lemma_fundamental_div_mod(b as int, PAGE_SIZE as int);
}

/// Two association lists with pointwise equal keys denote maps with the
/// same domain.
proof fn lemma_pointwise_map_views(s1: Seq<MappedPage>, s2: Seq<MappedPage>)
    requires
        s1.len() == s2.len(),
        forall|j: int| 0 <= j < s1.len() ==> (#[trigger] s1[j]).virt_page == s2[j].virt_page,
    ensures
        forall|vp: u64|
            seq_to_map(s1).contains_key(vp) <==> seq_to_map(s2).contains_key(vp),
{
    assert forall|vp: u64|
        seq_to_map(s1).contains_key(vp) <==> seq_to_map(s2).contains_key(vp) by {
        lemma_seq_to_map_contains(s1, vp);
        lemma_seq_to_map_contains(s2, vp);
        if exists|j: int| 0 <= j < s1.len() && (#[trigger] s1[j]).virt_page == vp {
            let j = choose|j: int| 0 <= j < s1.len() && (#[trigger] s1[j]).virt_page == vp;
            assert(s2[j].virt_page == vp);
        }
        if exists|j: int| 0 <= j < s2.len() && (#[trigger] s2[j]).virt_page == vp {
            let j = choose|j: int| 0 <= j < s2.len() && (#[trigger] s2[j]).virt_page == vp;
            assert(s1[j].virt_page == vp);
        }
    }
}

/// Bits after the kernel-space pass: GLOBAL is set, USER_ACCESSIBLE clear.
proof fn lemma_protect_bits(f: u64)
    ensures
        ((f | FLAG_GLOBAL) & !FLAG_USER_ACCESSIBLE) & FLAG_GLOBAL == FLAG_GLOBAL,
        ((f | FLAG_GLOBAL) & !FLAG_USER_ACCESSIBLE) & FLAG_USER_ACCESSIBLE == 0,
{
    assert(((f | 0x100u64) & !0x4u64) & 0x100u64 == 0x100u64) by (bit_vector);
    assert(((f | 0x100u64) & !0x4u64) & 0x4u64 == 0u64) by (bit_vector);
}

} // verus!
