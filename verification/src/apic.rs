//! The local APIC, as a choice between two register files: memory-mapped
//! (xAPIC) or MSR-based (x2APIC), picked once at boot from CPUID. Every
//! operation here computes which register is touched and with what value;
//! the embedding kernel performs the fenced MMIO or MSR access itself.
use vstd::prelude::*;

verus! {

pub const APIC_REGISTER_ADDRESS_MASK: u64 = 0x0FF0;

pub const APIC_REGISTER_OFFSET_ID: u64 = 0x020;

pub const APIC_REGISTER_OFFSET_VERSION: u64 = 0x030;

pub const APIC_REGISTER_OFFSET_TASK_PRIORITY: u64 = 0x080;

pub const APIC_REGISTER_OFFSET_PROCESSOR_PRIORITY: u64 = 0x0A0;

pub const APIC_REGISTER_OFFSET_END_OF_INTERRUPT: u64 = 0x0B0;

pub const APIC_REGISTER_OFFSET_SPURIOUS_INTERRUPT_VECTOR: u64 = 0x0F0;

pub const APIC_REGISTER_OFFSET_ERROR_STATUS: u64 = 0x280;

pub const APIC_REGISTER_IPI_LOW: u64 = 0x300;

pub const APIC_REGISTER_IPI_HIGH: u64 = 0x310;

pub const APIC_REGISTER_OFFSET_LOCAL_VECTOR_TABLE_TIMER: u64 = 0x320;

pub const APIC_REGISTER_OFFSET_TIMER_INITIAL_COUNT: u64 = 0x380;

pub const APIC_REGISTER_OFFSET_TIMER_DIVISOR: u64 = 0x3E0;

/// x2APIC model-specific registers: 0x800 plus the MMIO offset shifted
/// right by four, as the architecture lays them out.
pub const MSR_X2APIC_APICID: u32 = 0x802;

pub const MSR_X2APIC_VERSION: u32 = 0x803;

pub const MSR_X2APIC_TPR: u32 = 0x808;

pub const MSR_X2APIC_PPR: u32 = 0x80A;

pub const MSR_X2APIC_EOI: u32 = 0x80B;

pub const MSR_X2APIC_SIVR: u32 = 0x80F;

pub const MSR_X2APIC_ICR: u32 = 0x830;

pub const MSR_X2APIC_LVT_TIMER: u32 = 0x832;

pub const MSR_X2APIC_LVT_ERROR: u32 = 0x834;

pub const MSR_X2APIC_INIT_COUNT: u32 = 0x838;

pub const MSR_X2APIC_DIV_CONF: u32 = 0x83E;

/// One planned register access: either a 32-bit word at an MMIO address or
/// a model-specific register.
#[derive(Clone, Copy, Debug, PartialEq, Eq, Structural)]
pub enum ApicAccess {
    Mmio(u64),
    Msr(u32),
}

/// How a full 64-bit ICR value is written: one MSR store on x2APIC, or the
/// high then the low word over MMIO, each half waiting for delivery.
#[derive(Clone, Copy, Debug, PartialEq, Eq, Structural)]
pub enum IcrWritePlan {
    Msr(u64),
    MmioPair { high: u32, low: u32 },
}

/// One inter-processor interrupt, as the two register writes that send it:
/// first a zero into the error-status register to clear stale errors, then
/// the command value into the ICR.
#[derive(Clone, Copy, Debug, PartialEq, Eq, Structural)]
pub struct IpiCommand {
    pub clear_error_status: ApicAccess,
    pub icr_value: u64,
}

/// The boot-time APIC register values: the spurious-interrupt vector bits
/// to set, and the timer's local-vector entry, divisor and initial count.
#[derive(Clone, Copy, Debug, PartialEq, Eq, Structural)]
pub struct ApicTimerSetup {
    pub sivr_set_bits: u64,
    pub timer_lvt: u64,
    pub timer_divisor: u32,
    pub timer_initial_count: u32,
}

/// The local APIC: its MMIO base (meaningless under x2APIC) and which
/// register file it uses.
#[derive(Clone, Copy, Debug, PartialEq, Eq, Structural)]
pub struct AdvancedProgrammableInterruptController {
    address: u64,
    x2: bool,
}

impl AdvancedProgrammableInterruptController {
    pub closed spec fn spec_address(self) -> u64 {
        self.address
    }

    pub closed spec fn spec_x2(self) -> bool {
        self.x2
    }

    /// Choose the register file once at boot: x2APIC when CPUID advertises
    /// it, else MMIO at the ACPI-reported base.
    pub fn detect(has_x2apic: bool, local_apic_address: u64) -> (r: Self)
        ensures
            r.spec_x2() == has_x2apic,
            !has_x2apic ==> r.spec_address() == local_apic_address,
            has_x2apic ==> r.spec_address() == 0,
    {
        if has_x2apic {
            Self { address: 0, x2: true }
        } else {
            Self { address: local_apic_address, x2: false }
        }
    }

    /// The MMIO address of a register: the base plus the offset, masked to
    /// the register file's window. Meaningful only for the xAPIC file.
    pub fn get_register_pointer(&self, register: u64) -> (r: u64)
        requires
            !self.spec_x2(),
            self.spec_address() + 0x0FF0 <= u64::MAX,
        ensures
            r == self.spec_address() + (register & APIC_REGISTER_ADDRESS_MASK),
    {
        let masked = register & APIC_REGISTER_ADDRESS_MASK;
        proof {
            assert(register & 0x0FF0u64 <= 0x0FF0u64) by (bit_vector);
        }
        self.address + masked
    }

    /// Where one logical register lives, by file: the MSR under x2APIC,
    /// else the 32-bit word at the MMIO offset.
    pub fn register_access(&self, mmio_offset: u64, msr: u32) -> (r: ApicAccess)
        requires
            self.spec_address() + 0x0FF0 <= u64::MAX,
        ensures
            self.spec_x2() ==> r == ApicAccess::Msr(msr),
            !self.spec_x2() ==> r == ApicAccess::Mmio(
                (self.spec_address() + (mmio_offset & APIC_REGISTER_ADDRESS_MASK)) as u64,
            ),
    {
        if self.x2 {
            ApicAccess::Msr(msr)
        } else {
            ApicAccess::Mmio(self.get_register_pointer(mmio_offset))
        }
    }

    /// Where the version register lives. Both files expose the same
    /// architectural register, so a read through either yields the same
    /// version value on the same part.
    pub fn version_access(&self) -> (r: ApicAccess)
        requires
            self.spec_address() + 0x0FF0 <= u64::MAX,
        ensures
            self.spec_x2() ==> r == ApicAccess::Msr(MSR_X2APIC_VERSION),
            !self.spec_x2() ==> r == ApicAccess::Mmio(
                (self.spec_address() + APIC_REGISTER_OFFSET_VERSION) as u64,
            ),
    {
        proof {
            assert(0x030u64 & 0x0FF0u64 == 0x030u64) by (bit_vector);
        }
        self.register_access(APIC_REGISTER_OFFSET_VERSION, MSR_X2APIC_VERSION)
    }

    /// Where an end-of-interrupt is written; the value is always zero.
    pub fn end_of_interrupt_access(&self) -> (r: ApicAccess)
        requires
            self.spec_address() + 0x0FF0 <= u64::MAX,
        ensures
            self.spec_x2() ==> r == ApicAccess::Msr(MSR_X2APIC_EOI),
            !self.spec_x2() ==> r == ApicAccess::Mmio(
                (self.spec_address() + APIC_REGISTER_OFFSET_END_OF_INTERRUPT) as u64,
            ),
    {
        proof {
            assert(0x0B0u64 & 0x0FF0u64 == 0x0B0u64) by (bit_vector);
        }
        self.register_access(APIC_REGISTER_OFFSET_END_OF_INTERRUPT, MSR_X2APIC_EOI)
    }

    /// Where the APIC id register lives.
    pub fn apic_id_access(&self) -> (r: ApicAccess)
        requires
            self.spec_address() + 0x0FF0 <= u64::MAX,
        ensures
            self.spec_x2() ==> r == ApicAccess::Msr(MSR_X2APIC_APICID),
            !self.spec_x2() ==> r == ApicAccess::Mmio(
                (self.spec_address() + APIC_REGISTER_OFFSET_ID) as u64,
            ),
    {
        proof {
            assert(0x020u64 & 0x0FF0u64 == 0x020u64) by (bit_vector);
        }
        self.register_access(APIC_REGISTER_OFFSET_ID, MSR_X2APIC_APICID)
    }

    /// Where the task-priority register lives.
    pub fn task_priority_access(&self) -> (r: ApicAccess)
        requires
            self.spec_address() + 0x0FF0 <= u64::MAX,
        ensures
            self.spec_x2() ==> r == ApicAccess::Msr(MSR_X2APIC_TPR),
            !self.spec_x2() ==> r == ApicAccess::Mmio(
                (self.spec_address() + APIC_REGISTER_OFFSET_TASK_PRIORITY) as u64,
            ),
    {
        proof {
            assert(0x080u64 & 0x0FF0u64 == 0x080u64) by (bit_vector);
        }
        self.register_access(APIC_REGISTER_OFFSET_TASK_PRIORITY, MSR_X2APIC_TPR)
    }

    /// Where the processor-priority register lives.
    pub fn processor_priority_access(&self) -> (r: ApicAccess)
        requires
            self.spec_address() + 0x0FF0 <= u64::MAX,
        ensures
            self.spec_x2() ==> r == ApicAccess::Msr(MSR_X2APIC_PPR),
            !self.spec_x2() ==> r == ApicAccess::Mmio(
                (self.spec_address() + APIC_REGISTER_OFFSET_PROCESSOR_PRIORITY) as u64,
            ),
    {
        proof {
            assert(0x0A0u64 & 0x0FF0u64 == 0x0A0u64) by (bit_vector);
        }
        self.register_access(APIC_REGISTER_OFFSET_PROCESSOR_PRIORITY, MSR_X2APIC_PPR)
    }

    /// Where the spurious-interrupt-vector register lives.
    pub fn spurious_interrupt_vector_access(&self) -> (r: ApicAccess)
        requires
            self.spec_address() + 0x0FF0 <= u64::MAX,
        ensures
            self.spec_x2() ==> r == ApicAccess::Msr(MSR_X2APIC_SIVR),
            !self.spec_x2() ==> r == ApicAccess::Mmio(
                (self.spec_address() + APIC_REGISTER_OFFSET_SPURIOUS_INTERRUPT_VECTOR) as u64,
            ),
    {
        proof {
            assert(0x0F0u64 & 0x0FF0u64 == 0x0F0u64) by (bit_vector);
        }
        self.register_access(APIC_REGISTER_OFFSET_SPURIOUS_INTERRUPT_VECTOR, MSR_X2APIC_SIVR)
    }

    /// Where the error-status register lives: the 0x280 window of the xAPIC
    /// file, reached through the error local-vector MSR under x2APIC. It is
    /// written with zero to arm it, then read, both before every IPI.
    pub fn error_status_access(&self) -> (r: ApicAccess)
        requires
            self.spec_address() + 0x0FF0 <= u64::MAX,
        ensures
            self.spec_x2() ==> r == ApicAccess::Msr(MSR_X2APIC_LVT_ERROR),
            !self.spec_x2() ==> r == ApicAccess::Mmio(
                (self.spec_address() + APIC_REGISTER_OFFSET_ERROR_STATUS) as u64,
            ),
    {
        proof {
            assert(0x280u64 & 0x0FF0u64 == 0x280u64) by (bit_vector);
        }
        self.register_access(APIC_REGISTER_OFFSET_ERROR_STATUS, MSR_X2APIC_LVT_ERROR)
    }

    /// Clearing the accumulated APIC errors: a zero written to the
    /// error-status register, as done before every IPI.
    pub fn clear_apic_errors(&self) -> (r: ApicAccess)
        requires
            self.spec_address() + 0x0FF0 <= u64::MAX,
        ensures
            self.spec_x2() ==> r == ApicAccess::Msr(MSR_X2APIC_LVT_ERROR),
            !self.spec_x2() ==> r == ApicAccess::Mmio(
                (self.spec_address() + APIC_REGISTER_OFFSET_ERROR_STATUS) as u64,
            ),
    {
        self.error_status_access()
    }

    /// Where the timer's local-vector-table entry lives.
    pub fn timer_lvt_access(&self) -> (r: ApicAccess)
        requires
            self.spec_address() + 0x0FF0 <= u64::MAX,
        ensures
            self.spec_x2() ==> r == ApicAccess::Msr(MSR_X2APIC_LVT_TIMER),
            !self.spec_x2() ==> r == ApicAccess::Mmio(
                (self.spec_address() + APIC_REGISTER_OFFSET_LOCAL_VECTOR_TABLE_TIMER) as u64,
            ),
    {
        proof {
            assert(0x320u64 & 0x0FF0u64 == 0x320u64) by (bit_vector);
        }
        self.register_access(APIC_REGISTER_OFFSET_LOCAL_VECTOR_TABLE_TIMER, MSR_X2APIC_LVT_TIMER)
    }

    /// Where the timer divisor register lives.
    pub fn timer_divisor_access(&self) -> (r: ApicAccess)
        requires
            self.spec_address() + 0x0FF0 <= u64::MAX,
        ensures
            self.spec_x2() ==> r == ApicAccess::Msr(MSR_X2APIC_DIV_CONF),
            !self.spec_x2() ==> r == ApicAccess::Mmio(
                (self.spec_address() + APIC_REGISTER_OFFSET_TIMER_DIVISOR) as u64,
            ),
    {
        proof {
            assert(0x3E0u64 & 0x0FF0u64 == 0x3E0u64) by (bit_vector);
        }
        self.register_access(APIC_REGISTER_OFFSET_TIMER_DIVISOR, MSR_X2APIC_DIV_CONF)
    }

    /// Where the timer initial-count register lives.
    pub fn timer_initial_count_access(&self) -> (r: ApicAccess)
        requires
            self.spec_address() + 0x0FF0 <= u64::MAX,
        ensures
            self.spec_x2() ==> r == ApicAccess::Msr(MSR_X2APIC_INIT_COUNT),
            !self.spec_x2() ==> r == ApicAccess::Mmio(
                (self.spec_address() + APIC_REGISTER_OFFSET_TIMER_INITIAL_COUNT) as u64,
            ),
    {
        proof {
            assert(0x380u64 & 0x0FF0u64 == 0x380u64) by (bit_vector);
        }
        self.register_access(APIC_REGISTER_OFFSET_TIMER_INITIAL_COUNT, MSR_X2APIC_INIT_COUNT)
    }

    /// Where the low and high words of the xAPIC's ICR pair live. The
    /// x2APIC file has the full register at one MSR instead.
    pub fn icr_pair_addresses(&self) -> (r: (u64, u64))
        requires
            !self.spec_x2(),
            self.spec_address() + 0x0FF0 <= u64::MAX,
        ensures
            r.0 == self.spec_address() + APIC_REGISTER_IPI_LOW,
            r.1 == self.spec_address() + APIC_REGISTER_IPI_HIGH,
    {
        proof {
            assert(0x300u64 & 0x0FF0u64 == 0x300u64) by (bit_vector);
            assert(0x310u64 & 0x0FF0u64 == 0x310u64) by (bit_vector);
        }
        (
            self.get_register_pointer(APIC_REGISTER_IPI_LOW),
            self.get_register_pointer(APIC_REGISTER_IPI_HIGH),
        )
    }

    /// The destination field of an ICR value: the APIC id, at bit 32 for
    /// the x2APIC's 64-bit ICR, at bit 56 for the xAPIC's high word.
    pub fn get_icr_cpu_value(&self, cpu_id: usize) -> (r: u64)
        ensures
            self.spec_x2() ==> r == (cpu_id as u64) << 32,
            !self.spec_x2() ==> r == (cpu_id as u64) << 56,
    {
        if self.x2 {
            (cpu_id as u64) << 32
        } else {
            (cpu_id as u64) << 56
        }
    }

    /// The INIT IPI for `cpu_id`: clear the error status, then write
    /// `0x4500` with the destination into the ICR.
    pub fn send_ipi_init(&self, cpu_id: usize) -> (r: IpiCommand)
        requires
            self.spec_address() + 0x0FF0 <= u64::MAX,
        ensures
            r.icr_value == 0x4500 | self.spec_icr_cpu_value(cpu_id),
            self.spec_x2() ==> r.clear_error_status == ApicAccess::Msr(MSR_X2APIC_LVT_ERROR),
            !self.spec_x2() ==> r.clear_error_status == ApicAccess::Mmio(
                (self.spec_address() + APIC_REGISTER_OFFSET_ERROR_STATUS) as u64,
            ),
    {
        IpiCommand {
            clear_error_status: self.clear_apic_errors(),
            icr_value: 0x4500 | self.get_icr_cpu_value(cpu_id),
        }
    }

    /// The startup IPI for `cpu_id`: clear the error status, then write
    /// `0x4600` with the destination and the real-mode segment of the
    /// trampoline into the ICR.
    pub fn send_ipi_start(&self, cpu_id: usize, segment: u8) -> (r: IpiCommand)
        requires
            self.spec_address() + 0x0FF0 <= u64::MAX,
        ensures
            r.icr_value == self.spec_icr_cpu_value(cpu_id) | 0x4600 | (segment as u64),
            self.spec_x2() ==> r.clear_error_status == ApicAccess::Msr(MSR_X2APIC_LVT_ERROR),
            !self.spec_x2() ==> r.clear_error_status == ApicAccess::Mmio(
                (self.spec_address() + APIC_REGISTER_OFFSET_ERROR_STATUS) as u64,
            ),
    {
        IpiCommand {
            clear_error_status: self.clear_apic_errors(),
            icr_value: self.get_icr_cpu_value(cpu_id) | 0x4600 | (segment as u64),
        }
    }

    /// The destination field, at the spec level.
    pub open spec fn spec_icr_cpu_value(self, cpu_id: usize) -> u64 {
        if self.spec_x2() {
            (cpu_id as u64) << 32
        } else {
            (cpu_id as u64) << 56
        }
    }

    /// Whether delivery of the previous IPI is still pending in an ICR
    /// value: bit 12. The x2APIC file never reports pending, its writes are
    /// synchronous.
    pub fn ipi_delivery_pending(&self, icr: u64) -> (r: bool)
        ensures
            self.spec_x2() ==> r == false,
            !self.spec_x2() ==> r == (icr & 0x1000 != 0),
    {
        if self.x2 {
            false
        } else {
            icr & 0x1000 != 0
        }
    }

    /// Whether the spin in `wait_for_ipi_delivery` is over after reading
    /// `icr`: immediately under x2APIC, else once the pending bit clears.
    pub fn wait_for_ipi_delivery(&self, icr: u64) -> (r: bool)
        ensures
            r == (self.spec_x2() || icr & 0x1000 == 0),
    {
        !self.ipi_delivery_pending(icr)
    }

    /// How a 64-bit ICR value is written out: one MSR store, or the high
    /// word then the low word of the xAPIC's register pair.
    pub fn icr_write_plan(&self, value: u64) -> (r: IcrWritePlan)
        ensures
            self.spec_x2() ==> r == IcrWritePlan::Msr(value),
            !self.spec_x2() ==> r == (IcrWritePlan::MmioPair {
                high: ((value >> 32) & 0xFFFFFFFF) as u32,
                low: (value & 0xFFFFFFFF) as u32,
            }),
    {
        if self.x2 {
            IcrWritePlan::Msr(value)
        } else {
            proof {
                assert((value >> 32) & 0xFFFFFFFFu64 <= 0xFFFFFFFFu64) by (bit_vector);
                assert(value & 0xFFFFFFFFu64 <= 0xFFFFFFFFu64) by (bit_vector);
            }
            IcrWritePlan::MmioPair {
                high: ((value >> 32) & 0xFFFFFFFF) as u32,
                low: (value & 0xFFFFFFFF) as u32,
            }
        }
    }

    /// The full ICR value read back from the xAPIC's register pair.
    pub fn combine_icr(&self, high: u32, low: u32) -> (r: u64)
        ensures
            r == ((high as u64) << 32) | (low as u64),
    {
        ((high as u64) << 32) | (low as u64)
    }

    /// The values every CPU programs into its own APIC when it comes up:
    /// enable the APIC with spurious vector 0xFF, and run the timer
    /// periodically on vector 32 with divisor 3 and an initial count of
    /// 0xFF00.
    pub fn ap_timer_setup(&self) -> (r: ApicTimerSetup)
        ensures
            r.sivr_set_bits == 0x1FF,
            r.timer_lvt == (32u64 | 0x20000),
            r.timer_divisor == 0x03,
            r.timer_initial_count == 0xFF00,
    {
        ApicTimerSetup {
            sivr_set_bits: 0x1FF,
            timer_lvt: 32 | 0x20000,
            timer_divisor: 0x03,
            timer_initial_count: 0xFF00,
        }
    }
}

} // verus!
