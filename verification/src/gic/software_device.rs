//! Message-signalled interrupts of PCI devices, raised as shared interrupts of
//! a GIC.

use super::model::GicV3Model;
use super::state::DistributorView;
use crate::bits;
use crate::text;
use vstd::prelude::*;
use vstd::string::StringExecFns;

verus! {

/// The first interrupt ID that a message may name.
pub const SPI_START: u32 = 32;

/// The first ID behind those that a message may name.
pub const SPI_END: u32 = 1020;

/// An interrupt controller whose lines devices drive.
pub trait ControlGic: Sized {
    /// The controller is in working order.
    spec fn inv(&self) -> bool;

    /// What driving a line to a level makes of the controller.
    spec fn line_driven(&self, irq_id: u32, high: bool, after: &Self) -> bool;

    /// Drives the line of an interrupt to a level.
    fn set_spi_irq(&mut self, irq_id: u32, high: bool)
        requires
            old(self).inv(),
        ensures
            final(self).inv(),
            old(self).line_driven(irq_id, high, &*final(self)),
    ;

    /// Drives the line of an interrupt high and then low.
    fn pulse_spi_irq(&mut self, irq_id: u32)
        requires
            old(self).inv(),
        ensures
            final(self).inv(),
            exists|middle: Self| #[trigger]
                old(self).line_driven(irq_id, true, &middle) && middle.line_driven(
                    irq_id,
                    false,
                    &*final(self),
                ),
    {
        self.set_spi_irq(irq_id, true);
        let ghost middle = *self;
        self.set_spi_irq(irq_id, false);
        proof {
            assert(old(self).line_driven(irq_id, true, &middle));
        }
    }
}

impl ControlGic for GicV3Model {
    open spec fn inv(&self) -> bool {
        self.wf()
    }

    open spec fn line_driven(&self, irq_id: u32, high: bool, after: &Self) -> bool {
        after@ == self@.with_line(irq_id, high)
    }

    fn set_spi_irq(&mut self, irq_id: u32, high: bool) {
        let _ = GicV3Model::set_spi_irq(self, irq_id, high);
    }
}

/// Why a device gets no interrupts.
#[derive(Clone, Copy, Debug, PartialEq, Eq, Structural)]
pub enum GicInterruptError {
    InvalidVectorCount(u32),
    InvalidVector { start: u32, count: u32 },
}

impl GicInterruptError {
    /// What the error says.
    pub open spec fn spec_message(self) -> Seq<char> {
        match self {
            GicInterruptError::InvalidVectorCount(count) => "invalid vector count "@
                + text::decimal(count as nat),
            GicInterruptError::InvalidVector { start, count } => "invalid "@ + text::decimal(
                count as nat,
            ) + " vectors at "@ + text::decimal(start as nat),
        }
    }

    pub fn message(&self) -> (message: String)
        ensures
            message@ == self.spec_message(),
    {
        match self {
            GicInterruptError::InvalidVectorCount(count) => String::from_str(
                "invalid vector count ",
            ).concat(text::decimal_text(*count as u64).as_str()),
            GicInterruptError::InvalidVector { start, count } => String::from_str(
                "invalid ",
            ).concat(text::decimal_text(*count as u64).as_str()).concat(" vectors at ").concat(
                text::decimal_text(*start as u64).as_str(),
            ),
        }
    }
}

/// The address and data of a message.
#[derive(Clone, Copy, Debug, PartialEq, Eq, Structural)]
pub struct MsiAddressData {
    pub address: u64,
    pub data: u32,
}

/// The interrupt that a device asks for.
#[derive(Clone, Copy, Debug)]
pub struct VpciInterruptParameters {
    pub vector: u32,
}

/// Whether `n` is a power of two.
pub open spec fn power_of_two(n: u32) -> bool {
    exists|k: u32| k < 32 && n == #[trigger] (1u32 << k)
}

/// Whether a message may name an interrupt.
pub open spec fn is_msi_intid(data: u32) -> bool {
    SPI_START <= data < SPI_END
}

/// What a device that asks for `vector_count` interrupts from `vector` on gets.
pub open spec fn registration(vector_count: u32, vector: u32) -> Result<
    MsiAddressData,
    GicInterruptError,
> {
    if !power_of_two(vector_count) {
        Err(GicInterruptError::InvalidVectorCount(vector_count))
    } else if vector < SPI_START || vector + vector_count > SPI_END {
        Err(GicInterruptError::InvalidVector { start: vector, count: vector_count })
    } else {
        Ok(MsiAddressData { address: 0, data: vector })
    }
}

fn is_power_of_two(n: u32) -> (r: bool)
    ensures
        r == power_of_two(n),
{
    proof {
        if power_of_two(n) {
            let k = choose|k: u32| k < 32 && n == #[trigger] (1u32 << k);
            assert(n != 0 && n & (n - 1) as u32 == 0) by (bit_vector)
                requires
                    k < 32,
                    n == 1u32 << k,
            ;
        }
    }
    if n == 0 {
        return false;
    }
    let single = n & (n - 1) == 0;
    proof {
        if single {
            bits::lemma_some_bit(n);
            let k = choose|k: u32| k < 32 && bits::bit(n, k);
            assert(n == 1u32 << k) by (bit_vector)
                requires
                    k < 32,
                    n & (1u32 << k) != 0,
                    n & (n - 1) as u32 == 0,
            ;
        }
    }
    single
}

/// A device that turns messages into interrupts of a controller.
#[derive(Debug)]
pub struct GicSoftwareDevice<C: ControlGic> {
    irqcon: C,
}

impl<C: ControlGic> GicSoftwareDevice<C> {
    /// The controller that the device raises interrupts on.
    pub closed spec fn spec_irqcon(&self) -> C {
        self.irqcon
    }

    pub fn new(irqcon: C) -> (device: Self)
        ensures
            device.spec_irqcon() == irqcon,
    {
        GicSoftwareDevice { irqcon }
    }

    /// The controller that the device raises interrupts on.
    pub fn irqcon(&self) -> (irqcon: &C)
        ensures
            *irqcon == self.spec_irqcon(),
    {
        &self.irqcon
    }

    /// Takes a message of a device: the interrupt that it names is pulsed, and
    /// a message that names none is dropped.
    pub fn signal_msi_gicv3(&mut self, _devid: Option<u32>, _address: u64, data: u32)
        requires
            old(self).spec_irqcon().inv(),
        ensures
            final(self).spec_irqcon().inv(),
            if is_msi_intid(data) {
                exists|middle: C| #[trigger]
                    old(self).spec_irqcon().line_driven(data, true, &middle) && middle.line_driven(
                        data,
                        false,
                        &final(self).spec_irqcon(),
                    )
            } else {
                final(self).spec_irqcon() == old(self).spec_irqcon()
            },
    {
        if SPI_START <= data && data < SPI_END {
            self.irqcon.pulse_spi_irq(data);
        }
    }

    /// Takes a message of a device: the line of the interrupt that it names is
    /// driven high, and a message that names none is dropped.
    pub fn signal_msi(&mut self, _devid: Option<u32>, _address: u64, data: u32)
        requires
            old(self).spec_irqcon().inv(),
        ensures
            final(self).spec_irqcon().inv(),
            if is_msi_intid(data) {
                old(self).spec_irqcon().line_driven(data, true, &final(self).spec_irqcon())
            } else {
                final(self).spec_irqcon() == old(self).spec_irqcon()
            },
    {
        if SPI_START <= data && data < SPI_END {
            self.irqcon.set_spi_irq(data, true);
        }
    }

    /// Gives a device the message for its interrupts.
    pub fn register_interrupt(&self, vector_count: u32, params: &VpciInterruptParameters) -> (msi:
        Result<MsiAddressData, GicInterruptError>)
        ensures
            msi == registration(vector_count, params.vector),
    {
        if !is_power_of_two(vector_count) {
            return Err(GicInterruptError::InvalidVectorCount(vector_count));
        }
        if params.vector < SPI_START || params.vector.saturating_add(vector_count) > SPI_END {
            return Err(
                GicInterruptError::InvalidVector { start: params.vector, count: vector_count },
            );
        }
        Ok(MsiAddressData { address: 0, data: params.vector })
    }

    /// Takes back the message of a device, which changes nothing.
    pub fn unregister_interrupt(&self, _address: u64, _data: u32) {
    }
}

/// Every message that a registration hands out reaches the controller, for each
/// of the interrupts that were asked for.
pub proof fn registered_interrupts_are_signalled(vector_count: u32, vector: u32, i: u32)
    requires
        registration(vector_count, vector) is Ok,
        i < vector_count,
    ensures
        vector + i <= u32::MAX,
        is_msi_intid((registration(vector_count, vector)->Ok_0.data + i) as u32),
{
}

/// Messages name the interrupts from 32 up to, and not with, 1020. A device that
/// asks for interrupts gets them if their number is 1, 2, 4 and so on up to 512 and
/// all of them are such interrupts; its message then names the first of them.
/// Otherwise it is told its number, or, where that is a power of two, its number and
/// its first interrupt.
pub proof fn registrations_by_range(vector_count: u32, vector: u32)
    ensures
        ({
            let n = vector_count;
            let small = n == 1 || n == 2 || n == 4 || n == 8 || n == 16 || n == 32 || n == 64 || n
                == 128 || n == 256 || n == 512;
            let r = registration(vector_count, vector);
            &&& is_msi_intid(vector) <==> 32 <= vector <= 1019
            &&& r is Ok <==> small && 32 <= vector && vector + vector_count <= 1020
            &&& r matches Ok(message) ==> message.data == vector && message.address == 0
            &&& r matches Err(error) ==> error == GicInterruptError::InvalidVectorCount(
                vector_count,
            ) || error == (GicInterruptError::InvalidVector { start: vector, count: vector_count })
            &&& small && r is Err ==> r->Err_0 is InvalidVector
            &&& n <= 1020 && !small ==> r is Err && r->Err_0 is InvalidVectorCount
        }),
{
    let n = vector_count;
    assert((1u32 << 0u32) == 1 && (1u32 << 1u32) == 2 && (1u32 << 2u32) == 4 && (1u32 << 3u32) == 8
        && (1u32 << 4u32) == 16 && (1u32 << 5u32) == 32 && (1u32 << 6u32) == 64 && (1u32 << 7u32)
        == 128 && (1u32 << 8u32) == 256 && (1u32 << 9u32) == 512) by (bit_vector);
    if power_of_two(n) && n <= 1020 {
        let k = choose|k: u32| k < 32 && n == #[trigger] (1u32 << k);
        assert(k < 10) by (bit_vector)
            requires
                k < 32,
                n == 1u32 << k,
                n <= 1020,
        ;
        assert(k == 0 || k == 1 || k == 2 || k == 3 || k == 4 || k == 5 || k == 6 || k == 7 || k == 8
            || k == 9);
    }
}

/// A message pulses a latched interrupt of the model: one that is
/// edge-triggered and whose line is low stays latched after the pulse, with the
/// line low again.
pub proof fn pulse_latches_edge_interrupt(before: DistributorView, intid: u32)
    requires
        before.wf(),
        before.valid_spi(intid),
        before.edge_triggered(intid),
        !super::state::is_set(before.asserted, intid),
    ensures
        ({
            let after = before.with_line(intid, true).with_line(intid, false);
            &&& super::state::is_set(after.pending, intid)
            &&& !super::state::is_set(after.asserted, intid)
        }),
{
    bits::lemma_low_five(intid);
    bits::lemma_bit_update(before.asserted[(intid / 32) as int], intid % 32, intid % 32);
    bits::lemma_bit_update(before.pending[(intid / 32) as int], intid % 32, intid % 32);
    let driven = before.with_line(intid, true);
    bits::lemma_bit_update(driven.asserted[(intid / 32) as int], intid % 32, intid % 32);
}

} // verus!
