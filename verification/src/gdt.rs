//! Per-CPU descriptor tables: the fixed selector layout every CPU's GDT
//! uses, the interrupt-stack arithmetic for the TSS, and the raw pointers
//! the startup code passes around. Loading the tables into the CPU is the
//! embedding kernel's two instructions; the layout is decided here.
use vstd::prelude::*;

verus! {

pub const INTERRUPT_STACK_SIZE_PAGES: usize = 4;

pub const INTERRUPT_STACK_SIZE: usize = 4096 * INTERRUPT_STACK_SIZE_PAGES;

pub const MAX_CPU_COUNT: usize = 256;

/// Double faults switch to the first interrupt stack.
pub const DOUBLE_FAULT_IST_INDEX: u16 = 0;

/// The context-switch stub runs on the second interrupt stack.
pub const CONTEXT_SWITCH_IST_INDEX: u16 = 1;

/// A segment selector value: descriptor index shifted past the table bit,
/// plus the requested privilege level.
pub open spec fn spec_selector(index: u16, rpl: u16) -> u16 {
    (index * 8 + rpl) as u16
}

/// Whether a GDT uses the standard layout laid down by
/// [`GdtInformation::new`].
pub open spec fn spec_standard_gdt(g: GdtInformation) -> bool {
    &&& g.spec_kernel_code_selector() == spec_selector(1, 0)
    &&& g.spec_kernel_data_selector() == spec_selector(2, 0)
    &&& g.spec_task_state_segment_selector() == spec_selector(3, 0)
    &&& g.spec_user_data_selector() == spec_selector(5, 3)
    &&& g.spec_user_code_selector() == spec_selector(6, 3)
}

/// One CPU's GDT, by the selectors of the entries it holds. Every CPU gets
/// the same layout: kernel code, kernel data, the TSS (which spans two
/// descriptor slots), user data and user code.
#[derive(Clone, Copy, Debug, PartialEq, Eq, Structural)]
pub struct GdtInformation {
    kernel_code_selector: u16,
    kernel_data_selector: u16,
    task_state_segment_selector: u16,
    user_data_selector: u16,
    user_code_selector: u16,
}

impl GdtInformation {
    /// The fixed layout: descriptors in order after the null entry, with
    /// ring 0 for the kernel segments and the TSS, ring 3 for user ones.
    pub fn new() -> (r: GdtInformation)
        ensures
            r.spec_kernel_code_selector() == spec_selector(1, 0),
            r.spec_kernel_data_selector() == spec_selector(2, 0),
            r.spec_task_state_segment_selector() == spec_selector(3, 0),
            r.spec_user_data_selector() == spec_selector(5, 3),
            r.spec_user_code_selector() == spec_selector(6, 3),
    {
        GdtInformation {
            kernel_code_selector: 1 * 8 + 0,
            kernel_data_selector: 2 * 8 + 0,
            task_state_segment_selector: 3 * 8 + 0,
            user_data_selector: 5 * 8 + 3,
            user_code_selector: 6 * 8 + 3,
        }
    }

    pub closed spec fn spec_kernel_code_selector(self) -> u16 {
        self.kernel_code_selector
    }

    pub closed spec fn spec_kernel_data_selector(self) -> u16 {
        self.kernel_data_selector
    }

    pub closed spec fn spec_task_state_segment_selector(self) -> u16 {
        self.task_state_segment_selector
    }

    pub closed spec fn spec_user_data_selector(self) -> u16 {
        self.user_data_selector
    }

    pub closed spec fn spec_user_code_selector(self) -> u16 {
        self.user_code_selector
    }

    pub fn get_kernel_code_segment(&self) -> (r: u16)
        ensures
            r == self.spec_kernel_code_selector(),
    {
        self.kernel_code_selector
    }

    pub fn get_kernel_data_segment(&self) -> (r: u16)
        ensures
            r == self.spec_kernel_data_selector(),
    {
        self.kernel_data_selector
    }

    pub fn get_task_state_segment(&self) -> (r: u16)
        ensures
            r == self.spec_task_state_segment_selector(),
    {
        self.task_state_segment_selector
    }

    pub fn get_user_data_segment(&self) -> (r: u16)
        ensures
            r == self.spec_user_data_selector(),
    {
        self.user_data_selector
    }

    pub fn get_user_code_segment(&self) -> (r: u16)
        ensures
            r == self.spec_user_code_selector(),
    {
        self.user_code_selector
    }
}

/// The per-CPU descriptor tables, one per possible APIC id.
pub struct Gdts {
    tables: Vec<GdtInformation>,
}

impl Gdts {
    pub closed spec fn spec_tables(self) -> Seq<GdtInformation> {
        self.tables@
    }

    /// Build the table for every CPU; each gets the fixed layout.
    pub fn init() -> (r: Gdts)
        ensures
            r.spec_tables().len() == MAX_CPU_COUNT,
            forall|i: int|
                0 <= i < r.spec_tables().len() ==> spec_standard_gdt(#[trigger] r.spec_tables()[i]),
    {
        let mut tables: Vec<GdtInformation> = Vec::new();
        let mut i: usize = 0;
        while i < MAX_CPU_COUNT
            invariant
                0 <= i <= MAX_CPU_COUNT,
                tables@.len() == i,
                forall|j: int| 0 <= j < i ==> spec_standard_gdt(#[trigger] tables@[j]),
            decreases MAX_CPU_COUNT - i,
        {
            tables.push(GdtInformation::new());
            i = i + 1;
        }
        Gdts { tables }
    }

    /// The GDT of the CPU with the given APIC id.
    pub fn get_gdt(&self, cpu: usize) -> (r: &GdtInformation)
        requires
            cpu < self.spec_tables().len(),
        ensures
            *r == self.spec_tables()[cpu as int],
    {
        &self.tables[cpu]
    }
}

/// The top of one interrupt stack: a little below the end of its buffer,
/// aligned down to sixteen bytes as the ABI demands of `rsp`.
pub fn interrupt_stack_top(stack_base: u64) -> (r: u64)
    requires
        stack_base + INTERRUPT_STACK_SIZE <= u64::MAX,
    ensures
        r == (stack_base + INTERRUPT_STACK_SIZE - 256) - ((stack_base + INTERRUPT_STACK_SIZE
            - 256) % 16),
        r % 16 == 0,
        r <= stack_base + INTERRUPT_STACK_SIZE - 256,
{
    let near_top = stack_base + (INTERRUPT_STACK_SIZE as u64) - 256;
    let aligned = near_top - near_top % 16;
    proof {
        assert(aligned % 16 == 0) by {
            vstd::arithmetic::div_mod::lemma_fundamental_div_mod(near_top as int, 16);
            vstd::arithmetic::div_mod::lemma_mod_multiples_basic((near_top as int) / 16, 16);
        }
    }
    aligned
}

/// An address handed between startup stages; null until set.
#[derive(Debug, Clone, Copy, PartialEq, Eq, Structural)]
pub struct GdtPointer(u64);

impl GdtPointer {
    /// The null pointer: no table recorded yet.
    pub fn null() -> (r: Self)
        ensures
            r.spec_address() == 0,
    {
        GdtPointer(0)
    }

    /// A pointer to the table at `address`.
    pub fn new(address: u64) -> (r: GdtPointer)
        ensures
            r.spec_address() == address,
    {
        GdtPointer(address)
    }

    pub closed spec fn spec_address(self) -> u64 {
        self.0
    }

    /// The recorded address.
    pub fn address(&self) -> (r: u64)
        ensures
            r == self.spec_address(),
    {
        self.0
    }

    pub fn is_null(&self) -> (r: bool)
        ensures
            r == (self.spec_address() == 0),
    {
        self.0 == 0
    }
}

} // verus!
