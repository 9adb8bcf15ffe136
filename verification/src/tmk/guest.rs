//! What a test microkernel does to its interrupt controller.

use super::protocol::{GIC_DISTRIBUTOR_BASE, GIC_REDISTRIBUTOR_BASE, VIRTUAL_TIMER_PPI};
use super::scope::Scope;
use crate::cca::list_registers;
use crate::gic::registers::{
    GicrSgi, MpidrEl1, GICD_CTLR, GICD_ICENABLER, GICD_IGROUPR, GICD_IPRIORITYR, GICD_ISENABLER,
    GICD_ISPENDR, GICR_ICENABLER0, GICR_IGROUPR0, GICR_IPRIORITYR0, GICR_ISENABLER0, GICR_WAKER,
    GICR_WAKER_CHILDREN_ASLEEP, GICR_WAKER_PROCESSOR_SLEEP,
};
use vstd::prelude::*;

verus! {

/// The frame of the redistributor for private interrupts.
pub const GIC_REDISTRIBUTOR_SGI_BASE: u64 = 0xff03_0000;

/// The first of the interrupt IDs that name no interrupt.
pub const GIC_SPECIAL_INTID: u32 = 1020;

/// Enables group 1 and affinity routing.
pub const GICD_CTLR_ENABLE_GRP1_AND_ARE: u32 = 0x12;

/// The priority that every enabled interrupt gets.
pub const DEFAULT_PRIORITY: u32 = 0x80;

/// A context passed to the IRQ handler.
pub struct IrqContext {
    /// The GIC interrupt ID being handled.
    pub intid: u32,
}

/// One thing to do to the interrupt controller.
#[derive(Clone, Copy, Debug, PartialEq, Eq, Structural)]
pub enum GicStep {
    /// Read a register and drop its value.
    Read { address: u64 },
    /// Write a register.
    Write { address: u64, value: u32 },
    /// Read a register, clear some bits, set others and write it back.
    Update { address: u64, clear: u32, set: u32 },
    /// Read a register until some bits are zero.
    WaitClear { address: u64, mask: u32 },
    /// Enable the processor's own interface, with nothing masked.
    EnableCpuInterface,
    /// Make everything before visible.
    Barrier,
}

/// The steps that enable the GIC for the processor that takes them.
pub open spec fn enable_gic_steps() -> Seq<GicStep> {
    seq![
        GicStep::Write {
            address: (GIC_DISTRIBUTOR_BASE + GICD_CTLR) as u64,
            value: GICD_CTLR_ENABLE_GRP1_AND_ARE,
        },
        GicStep::Update {
            address: (GIC_REDISTRIBUTOR_BASE + GICR_WAKER) as u64,
            clear: GICR_WAKER_PROCESSOR_SLEEP,
            set: 0,
        },
        GicStep::WaitClear {
            address: (GIC_REDISTRIBUTOR_BASE + GICR_WAKER) as u64,
            mask: GICR_WAKER_CHILDREN_ASLEEP,
        },
        GicStep::EnableCpuInterface,
    ]
}

/// The frame that an interrupt is configured in, and the offsets of its words
/// there, less those of the first words of their banks.
pub open spec fn config_base(intid: u32) -> u64 {
    if intid < 32 {
        GIC_REDISTRIBUTOR_SGI_BASE
    } else {
        GIC_DISTRIBUTOR_BASE
    }
}

/// The offset of an interrupt's word in a bank of one bit per interrupt.
pub open spec fn word_offset(intid: u32) -> u64 {
    (intid / 32 * 4) as u64
}

/// The offset of an interrupt's word in a bank of one byte per interrupt.
pub open spec fn priority_offset(intid: u32) -> u64 {
    (intid / 4 * 4) as u64
}

/// The steps that put an interrupt into group 1, give it a priority and enable
/// it, once the GIC is enabled.
pub open spec fn enable_irq_steps(intid: u32) -> Seq<GicStep> {
    enable_gic_steps() + seq![
        GicStep::Update {
            address: (config_base(intid) + GICD_IGROUPR + word_offset(intid)) as u64,
            clear: 0,
            set: 1u32 << (intid % 32),
        },
        GicStep::Update {
            address: (config_base(intid) + GICD_IPRIORITYR + priority_offset(intid)) as u64,
            clear: 0xffu32 << (intid % 4 * 8) as u32,
            set: DEFAULT_PRIORITY << (intid % 4 * 8) as u32,
        },
        GicStep::Write {
            address: (config_base(intid) + GICD_ISENABLER + word_offset(intid)) as u64,
            value: 1u32 << (intid % 32),
        },
        GicStep::Barrier,
    ]
}

/// The steps that disable an interrupt.
pub open spec fn disable_irq_steps(intid: u32) -> Seq<GicStep> {
    seq![
        GicStep::Write {
            address: (config_base(intid) + GICD_ICENABLER + word_offset(intid)) as u64,
            value: 1u32 << (intid % 32),
        },
        GicStep::Barrier,
    ]
}

/// The steps that make a shared interrupt pending.
pub open spec fn pend_spi_steps(intid: u32) -> Seq<GicStep> {
    seq![
        GicStep::Write {
            address: (GIC_DISTRIBUTOR_BASE + GICD_ISPENDR + word_offset(intid)) as u64,
            value: 1u32 << (intid % 32),
        },
        GicStep::Barrier,
    ]
}

/// Enables the GIC distributor, redistributor, and CPU interface for this VP.
pub fn enable_gic_for_current_vp() -> (steps: Vec<GicStep>)
    ensures
        steps@ == enable_gic_steps(),
{
    vec![
        GicStep::Write {
            address: GIC_DISTRIBUTOR_BASE + GICD_CTLR as u64,
            value: GICD_CTLR_ENABLE_GRP1_AND_ARE,
        },
        GicStep::Update {
            address: GIC_REDISTRIBUTOR_BASE + GICR_WAKER as u64,
            clear: GICR_WAKER_PROCESSOR_SLEEP,
            set: 0,
        },
        GicStep::WaitClear {
            address: GIC_REDISTRIBUTOR_BASE + GICR_WAKER as u64,
            mask: GICR_WAKER_CHILDREN_ASLEEP,
        },
        GicStep::EnableCpuInterface,
    ]
}

impl Scope {
    /// Enables a GIC interrupt.
    pub fn enable_gic_irq(&self, intid: u32) -> (steps: Vec<GicStep>)
        requires
            intid < GIC_SPECIAL_INTID,
        ensures
            steps@ == enable_irq_steps(intid),
    {
        let mut steps: Vec<GicStep> = enable_gic_for_current_vp();
        let priority_shift: u32 = intid % 4 * 8;
        if intid < 32 {
            let base: u64 = GIC_REDISTRIBUTOR_SGI_BASE;
            steps.push(
                GicStep::Update {
                    address: base + GICR_IGROUPR0 as u64,
                    clear: 0,
                    set: 1u32 << (intid % 32),
                },
            );
            steps.push(
                GicStep::Update {
                    address: base + GICR_IPRIORITYR0 as u64 + (intid / 4 * 4) as u64,
                    clear: 0xffu32 << priority_shift,
                    set: DEFAULT_PRIORITY << priority_shift,
                },
            );
            steps.push(
                GicStep::Write {
                    address: base + GICR_ISENABLER0 as u64,
                    value: 1u32 << (intid % 32),
                },
            );
        } else {
            let base: u64 = GIC_DISTRIBUTOR_BASE;
            let word: u64 = (intid / 32) as u64;
            let mask: u32 = 1u32 << (intid % 32);
            steps.push(
                GicStep::Update {
                    address: base + GICD_IGROUPR as u64 + word * 4,
                    clear: 0,
                    set: mask,
                },
            );
            steps.push(
                GicStep::Update {
                    address: base + GICD_IPRIORITYR as u64 + (intid / 4 * 4) as u64,
                    clear: 0xffu32 << priority_shift,
                    set: DEFAULT_PRIORITY << priority_shift,
                },
            );
            steps.push(
                GicStep::Write { address: base + GICD_ISENABLER as u64 + word * 4, value: mask },
            );
        }
        steps.push(GicStep::Barrier);
        proof {
            assert(steps@ =~= enable_irq_steps(intid));
        }
        steps
    }

    /// Disables a GIC interrupt.
    pub fn disable_gic_irq(&self, intid: u32) -> (steps: Vec<GicStep>)
        requires
            intid < GIC_SPECIAL_INTID,
        ensures
            steps@ == disable_irq_steps(intid),
    {
        let write = if intid < 32 {
            GicStep::Write {
                address: GIC_REDISTRIBUTOR_SGI_BASE + GICR_ICENABLER0 as u64,
                value: 1u32 << (intid % 32),
            }
        } else {
            let word: u64 = (intid / 32) as u64;
            GicStep::Write {
                address: GIC_DISTRIBUTOR_BASE + GICD_ICENABLER as u64 + word * 4,
                value: 1u32 << (intid % 32),
            }
        };
        vec![write, GicStep::Barrier]
    }
}

/// Polls the emulated GIC while waiting for an interrupt.
///
/// This gives VMMs that emulate the GIC a regular exit on which to observe
/// changes to interrupt sources that are managed outside the guest.
pub fn poll_interrupts() -> (steps: Vec<GicStep>)
    ensures
        steps@ == seq![
            GicStep::Read { address: (GIC_DISTRIBUTOR_BASE + GICD_CTLR) as u64 },
        ],
{
    vec![GicStep::Read { address: GIC_DISTRIBUTOR_BASE + GICD_CTLR as u64 }]
}

/// Sets the pending bit for a GIC SPI through GICD_ISPENDR.
pub fn pend_spi(intid: u32) -> (steps: Vec<GicStep>)
    requires
        32 <= intid < GIC_SPECIAL_INTID,
    ensures
        steps@ == pend_spi_steps(intid),
{
    let word: u64 = (intid / 32) as u64;
    vec![
        GicStep::Write {
            address: GIC_DISTRIBUTOR_BASE + GICD_ISPENDR as u64 + word * 4,
            value: 1u32 << (intid % 32),
        },
        GicStep::Barrier,
    ]
}

/// The SGI that a processor sends to itself.
pub open spec fn self_sgi(intid: u32, mpidr: MpidrEl1) -> GicrSgi {
    GicrSgi {
        target_list: 1u16 << (mpidr.aff0 as u16),
        aff1: mpidr.aff1,
        intid: intid as u8,
        aff2: mpidr.aff2,
        irm: false,
        rs: 0,
        aff3: mpidr.aff3,
    }
}

/// The value for ICC_SGI1R_EL1 that sends a Group 1 SGI to the current VP,
/// whose affinity is `mpidr`.
pub fn send_sgi_to_self(intid: u32, mpidr: u64) -> (value: u64)
    requires
        intid < 16,
        MpidrEl1::decode(mpidr).aff0 < 16,
    ensures
        value == self_sgi(intid, MpidrEl1::decode(mpidr)).encode(),
        GicrSgi::decode(value) == self_sgi(intid, MpidrEl1::decode(mpidr)),
{
    let mpidr = MpidrEl1::from_bits(mpidr);
    let sgi = GicrSgi {
        target_list: 1u16 << (mpidr.aff0 as u16),
        aff1: mpidr.aff1,
        intid: intid as u8,
        aff2: mpidr.aff2,
        irm: false,
        rs: 0,
        aff3: mpidr.aff3,
    };
    proof {
        sgi.lemma_round_trip();
    }
    sgi.into_bits()
}

/// An SGI that a processor sends to itself names that processor.
pub proof fn self_sgi_names_its_sender(intid: u32, mpidr: MpidrEl1)
    requires
        intid < 16,
        mpidr.aff0 < 16,
    ensures
        list_registers::names_processor(self_sgi(intid, mpidr), mpidr),
{
    let place = mpidr.aff0 as u16;
    assert(place < 16 ==> (1u16 << place) & (1u16 << place) != 0) by (bit_vector);
    assert((mpidr.aff0 % 16) as u16 == place);
}

/// An SGI that a processor sends to itself is the interrupt that was asked for, and
/// names no other processor.
pub proof fn self_sgi_names_no_other(intid: u32, mpidr: MpidrEl1, other: MpidrEl1)
    requires
        intid < 16,
        mpidr.aff0 < 16,
    ensures
        self_sgi(intid, mpidr).intid == intid,
        list_registers::names_processor(self_sgi(intid, mpidr), other) ==> other == mpidr,
{
    if list_registers::names_processor(self_sgi(intid, mpidr), other) {
        let (a, b) = (mpidr.aff0 as u16, (other.aff0 % 16) as u16);
        assert((1u16 << a) & (1u16 << b) != 0 ==> a == b) by (bit_vector)
            requires
                a < 16,
                b < 16,
        ;
    }
}

/// What the IRQ vector does with an acknowledged interrupt: the interrupt to
/// hand to the handler and then to end, or nothing.
pub fn irq_handler(intid: u32, handler_installed: bool) -> (context: Option<IrqContext>)
    requires
        intid < GIC_SPECIAL_INTID ==> handler_installed,
    ensures
        context is Some <==> intid < GIC_SPECIAL_INTID,
        context matches Some(context) ==> context.intid == intid,
{
    if intid >= GIC_SPECIAL_INTID {
        None
    } else {
        Some(IrqContext { intid })
    }
}

/// When the virtual timer test lets the timer fire, and for how long it waits
/// for it.
#[derive(Clone, Copy, Debug, PartialEq, Eq, Structural)]
pub struct TimerPlan {
    /// The count at which the timer fires.
    pub compare: u64,
    /// After how many counts the test gives up.
    pub timeout_ticks: u64,
}

/// How many counts the timer runs: a hundredth of a second, and at least one.
pub open spec fn timer_ticks(frequency: u64) -> u64 {
    if frequency / 100 > 1 {
        frequency / 100
    } else {
        1
    }
}

/// Plans the virtual timer test from the counter's frequency and its current
/// count. The test waits for a second, and at least ten times as long as the
/// timer runs.
pub fn virtual_timer_irq(frequency: u64, start: u64) -> (plan: TimerPlan)
    requires
        start + timer_ticks(frequency) <= u64::MAX,
    ensures
        plan.compare == start + timer_ticks(frequency),
        plan.timeout_ticks >= frequency,
        plan.timeout_ticks >= timer_ticks(frequency) * 10,
        plan.timeout_ticks == frequency || plan.timeout_ticks == timer_ticks(frequency) * 10,
{
    let ticks_until_interrupt: u64 = if frequency / 100 > 1 {
        frequency / 100
    } else {
        1
    };
    let timeout_ticks: u64 = if frequency > ticks_until_interrupt * 10 {
        frequency
    } else {
        ticks_until_interrupt * 10
    };
    TimerPlan { compare: start + ticks_until_interrupt, timeout_ticks }
}

impl TimerPlan {
    /// How far a counter that wraps around has come.
    pub open spec fn elapsed(start: u64, now: u64) -> int {
        if now >= start {
            now - start
        } else {
            now - start + 0x1_0000_0000_0000_0000
        }
    }

    /// Whether the test still waits for the timer.
    pub fn keeps_waiting(&self, fired: bool, start: u64, now: u64) -> (waits: bool)
        ensures
            waits == (!fired && TimerPlan::elapsed(start, now) < self.timeout_ticks),
    {
        !fired && now.wrapping_sub(start) < self.timeout_ticks
    }
}

impl IrqContext {
    /// Whether the interrupt is the virtual timer's.
    pub fn is_virtual_timer(&self) -> (r: bool)
        ensures
            r == (self.intid == VIRTUAL_TIMER_PPI),
            r <==> self.intid == 20,
    {
        self.intid == VIRTUAL_TIMER_PPI
    }
}

} // verus!
