//! The software GICv3 of a guest.

use super::distributor::Distributor;
use super::interrupt;
use super::interrupt::PendingInterrupt;
use super::redistributor::RedistributorView;
use super::registers::{MpidrEl1, VpIndex, GIC_DISTRIBUTOR_SIZE, GIC_REDISTRIBUTOR_SIZE};
use super::state::DistributorView;
use crate::memory_range::{MemoryRange, PAGE_SIZE};
use crate::topology::{Aarch64Topology, GicVersion};
use vstd::prelude::*;
use vstd::string::StringExecFns;

verus! {

/// Why a guest gets no software GIC.
#[derive(Clone, Copy, Debug, PartialEq, Eq, Structural)]
pub enum GicV3ModelError {
    UnsupportedGicVersion,
    RedistributorRangeOverflow,
    DistributorRangeOverflow,
}

impl GicV3ModelError {
    /// What the error says.
    pub open spec fn spec_message(self) -> Seq<char> {
        match self {
            GicV3ModelError::UnsupportedGicVersion => "software GIC requires GICv3"@,
            GicV3ModelError::RedistributorRangeOverflow => "GIC redistributor range overflowed"@,
            GicV3ModelError::DistributorRangeOverflow => "GIC distributor range overflowed"@,
        }
    }

    pub fn message(&self) -> (message: String)
        ensures
            message@ == self.spec_message(),
    {
        match self {
            GicV3ModelError::UnsupportedGicVersion => String::from_str(
                "software GIC requires GICv3",
            ),
            GicV3ModelError::RedistributorRangeOverflow => String::from_str(
                "GIC redistributor range overflowed",
            ),
            GicV3ModelError::DistributorRangeOverflow => String::from_str(
                "GIC distributor range overflowed",
            ),
        }
    }
}

/// Why the software GIC of a topology cannot be built, if it cannot.
pub open spec fn model_error(topology: &Aarch64Topology) -> Option<GicV3ModelError> {
    match topology.gic_version {
        GicVersion::V2 { .. } => Some(GicV3ModelError::UnsupportedGicVersion),
        GicVersion::V3 { redistributors_base } => if redistributors_base
            + topology.mpidrs@.len() * GIC_REDISTRIBUTOR_SIZE > u64::MAX {
            Some(GicV3ModelError::RedistributorRangeOverflow)
        } else if topology.gic_distributor_base + GIC_DISTRIBUTOR_SIZE > u64::MAX {
            Some(GicV3ModelError::DistributorRangeOverflow)
        } else {
            None
        },
    }
}

/// Whether the frames of a topology lie on page boundaries, as far as they are
/// looked at.
pub open spec fn frames_aligned(topology: &Aarch64Topology) -> bool {
    match topology.gic_version {
        GicVersion::V2 { .. } => true,
        GicVersion::V3 { redistributors_base } => match model_error(topology) {
            Some(GicV3ModelError::RedistributorRangeOverflow) => true,
            Some(_) => redistributors_base % PAGE_SIZE == 0,
            None => redistributors_base % PAGE_SIZE == 0 && topology.gic_distributor_base
                % PAGE_SIZE == 0,
        },
    }
}

/// The redistributors of a topology out of reset, one for each processor.
pub open spec fn initial_redistributors(mpidrs: Seq<u64>) -> Seq<RedistributorView> {
    Seq::new(
        mpidrs.len(),
        |i: int| RedistributorView::reset(MpidrEl1::decode(mpidrs[i]), i + 1 == mpidrs.len()),
    )
}

/// A GICv3 with one redistributor for each processor of a guest.
#[derive(Debug)]
pub struct GicV3Model {
    distributor: Distributor,
    distributor_range: MemoryRange,
    redistributor_range: MemoryRange,
}

impl View for GicV3Model {
    type V = DistributorView;

    closed spec fn view(&self) -> DistributorView {
        self.distributor@
    }
}

impl GicV3Model {
    pub closed spec fn wf(&self) -> bool {
        &&& self.distributor@.wf()
        &&& self.distributor_range.spec_start() == self.distributor@.gicd_range.spec_start()
        &&& self.distributor_range.spec_end() == self.distributor@.gicd_range.spec_end()
        &&& self.redistributor_range == self.distributor@.gicr_range
    }

    /// A sound model has a sound distributor.
    pub proof fn lemma_wf(&self)
        requires
            self.wf(),
        ensures
            self@.wf(),
    {
    }

    /// The GIC of a topology, out of reset.
    pub fn new(topology: &Aarch64Topology) -> (model: Result<GicV3Model, GicV3ModelError>)
        requires
            topology.wf(),
            frames_aligned(topology),
            (topology.gic_nr_irqs + 31) / 32 * 64 <= usize::MAX,
        ensures
            model is Ok <==> model_error(topology) is None,
            match model {
                Ok(model) => {
                    &&& model.wf()
                    &&& model@ == (DistributorView {
                        redistributors: initial_redistributors(topology.mpidrs@),
                        ..DistributorView::reset(
                            model@.gicd_range,
                            model@.gicr_range,
                            topology.gic_nr_irqs,
                        )
                    })
                    &&& model@.gicd_range.spec_start() == topology.gic_distributor_base
                    &&& model@.gicd_range.spec_end() == topology.gic_distributor_base
                        + GIC_DISTRIBUTOR_SIZE
                    &&& model@.gicr_range.spec_start()
                        == topology.gic_version->redistributors_base
                    &&& model@.gicr_range.spec_end() == topology.gic_version->redistributors_base
                        + topology.mpidrs@.len() * GIC_REDISTRIBUTOR_SIZE
                },
                Err(error) => model_error(topology) == Some(error),
            },
    {
        let redistributors_base: u64 = match topology.gic_version {
            GicVersion::V3 { redistributors_base } => redistributors_base,
            GicVersion::V2 { .. } => return Err(GicV3ModelError::UnsupportedGicVersion),
        };
        let vp_count: u32 = topology.vp_count();
        let redistributors_size: u64 = match GIC_REDISTRIBUTOR_SIZE.checked_mul(vp_count as u64) {
            Some(size) => size,
            None => return Err(GicV3ModelError::RedistributorRangeOverflow),
        };
        let redistributors_end: u64 = match redistributors_base.checked_add(redistributors_size) {
            Some(end) => end,
            None => return Err(GicV3ModelError::RedistributorRangeOverflow),
        };
        let redistributor_range = MemoryRange::new(redistributors_base, redistributors_end);
        let distributor_base: u64 = topology.gic_distributor_base;
        let distributor_end: u64 = match distributor_base.checked_add(GIC_DISTRIBUTOR_SIZE) {
            Some(end) => end,
            None => return Err(GicV3ModelError::DistributorRangeOverflow),
        };
        let distributor_range = MemoryRange::new(distributor_base, distributor_end);
        let mut distributor = Distributor::new(
            distributor_base,
            redistributor_range,
            topology.gic_nr_irqs,
        );
        let ghost before = distributor@;
        let ghost all = initial_redistributors(topology.mpidrs@);
        let mut i: usize = 0;
        while i < topology.mpidrs.len()
            invariant
                topology.wf(),
                vp_count == topology.mpidrs@.len(),
                i <= topology.mpidrs@.len(),
                all == initial_redistributors(topology.mpidrs@),
                distributor@.wf(),
                distributor@ == (DistributorView { redistributors: all.take(i as int), ..before }),
                before.gicr_range == redistributor_range,
                redistributor_range.spec_end() - redistributor_range.spec_start() == vp_count
                    * GIC_REDISTRIBUTOR_SIZE,
            decreases topology.mpidrs@.len() - i,
        {
            let _ = distributor.add_redistributor(
                topology.mpidrs[i],
                i + 1 == vp_count as usize,
            );
            proof {
                assert(all.take(i + 1) =~= all.take(i as int).push(all[i as int]));
            }
            i = i + 1;
        }
        proof {
            assert(all.take(i as int) =~= all);
        }
        Ok(GicV3Model { distributor, distributor_range, redistributor_range })
    }

    /// Whether an address belongs to the GIC.
    pub fn contains(&self, address: u64) -> (inside: bool)
        requires
            self.wf(),
        ensures
            inside == self@.claims(address),
    {
        self.distributor_range.contains_addr(address) || self.redistributor_range.contains_addr(
            address,
        )
    }

    /// Reads guest memory at `address`. Returns whether it belongs to the GIC.
    pub fn read(&self, address: u64, data: &mut [u8]) -> (handled: bool)
        requires
            self.wf(),
            self@.has_frame(address) ==> old(data)@.len() > 0,
        ensures
            handled == self@.claims(address),
            final(data)@ == (if handled {
                self@.read(address, old(data)@.len())
            } else {
                old(data)@
            }),
    {
        self.distributor.read(address, data)
    }

    /// Writes guest memory at `address`. Returns whether it belongs to the GIC.
    pub fn write(&mut self, address: u64, data: &[u8]) -> (handled: bool)
        requires
            old(self).wf(),
            old(self)@.has_frame(address) ==> data@.len() > 0,
        ensures
            final(self).wf(),
            handled == old(self)@.claims(address),
            final(self)@ == (if handled {
                old(self)@.write(address, data@)
            } else {
                old(self)@
            }),
    {
        self.distributor.write(address, data)
    }

    /// Drives the line of a shared interrupt. Returns the processors to wake.
    pub fn set_spi_irq(&mut self, intid: u32, high: bool) -> (woken: Vec<VpIndex>)
        requires
            old(self).wf(),
        ensures
            final(self).wf(),
            final(self)@ == old(self)@.with_line(intid, high),
            woken@ == old(self)@.woken_by_line(intid, high),
    {
        self.distributor.set_spi_irq(intid, high)
    }

    /// Notes that a shared interrupt was put into a list register of `vp`.
    pub fn mark_spi_injected(&mut self, vp: VpIndex, intid: u32)
        requires
            old(self).wf(),
        ensures
            final(self).wf(),
            final(self)@ == old(self)@.injected(vp.0, intid),
    {
        self.distributor.mark_spi_injected(vp, intid);
    }

    /// Asks `is_in_flight` about every shared interrupt in flight to `vp`, and
    /// retires those that it denies.
    pub fn retain_in_flight_spis<F: Fn(u32) -> bool>(&mut self, vp: VpIndex, is_in_flight: F)
        requires
            old(self).wf(),
            forall|intid: u32|
                32 <= intid < old(self)@.in_flight.len() && old(self)@.in_flight[intid as int]
                    == Some(vp.0) ==> #[trigger] is_in_flight.requires((intid,)),
        ensures
            final(self).wf(),
            final(self)@ == (DistributorView { in_flight: final(self)@.in_flight, ..old(self)@ }),
            final(self)@.in_flight.len() == old(self)@.in_flight.len(),
            forall|i: int|
                #![trigger final(self)@.in_flight[i]]
                0 <= i < old(self)@.in_flight.len() ==> {
                    let asked = i >= 32 && old(self)@.in_flight[i] == Some(vp.0);
                    if asked && final(self)@.in_flight[i] is None {
                        is_in_flight.ensures((i as u32,), false)
                    } else {
                        &&& final(self)@.in_flight[i] == old(self)@.in_flight[i]
                        &&& asked ==> is_in_flight.ensures((i as u32,), true)
                    }
                },
    {
        self.distributor.retain_in_flight_spis(vp, is_in_flight);
    }

    /// The first interrupt, private or shared, to deliver to `vp` below
    /// `running_priority`.
    pub fn next_pending_interrupt(&self, vp: VpIndex, running_priority: u8) -> (next: Option<
        PendingInterrupt,
    >)
        requires
            self.wf(),
        ensures
            interrupt::is_first(
                self@.deliverable(vp.0, running_priority),
                |i: u32| self@.priority_at(vp.0, i),
                next,
            ),
    {
        self.distributor.next_pending_interrupt(vp, running_priority)
    }

    /// The first private interrupt among `pending` to deliver to `vp` below
    /// `running_priority`.
    pub fn next_pending_private_interrupt(
        &self,
        vp: VpIndex,
        pending: u32,
        running_priority: u8,
    ) -> (next: Option<PendingInterrupt>)
        requires
            self.wf(),
        ensures
            interrupt::is_first(
                self@.private_deliverable(vp.0, pending, running_priority),
                |i: u32| self@.redistributors[vp.0 as int].priority_of(i),
                next,
            ),
    {
        self.distributor.next_pending_private_interrupt(vp, pending, running_priority)
    }

    /// The first shared interrupt to deliver to `vp` below `running_priority`.
    pub fn next_pending_spi_interrupt(&self, vp: VpIndex, running_priority: u8) -> (next: Option<
        PendingInterrupt,
    >)
        requires
            self.wf(),
        ensures
            interrupt::is_first(
                self@.spi_deliverable(vp.0, running_priority),
                |i: u32| self@.priority_of(i),
                next,
            ),
    {
        self.distributor.next_pending_spi_interrupt(vp, running_priority)
    }

    /// Sets the first shared interrupt to deliver to `vp` aside for it, so that
    /// no other processor gets it.
    pub fn reserve_pending_spi_interrupt(&mut self, vp: VpIndex, running_priority: u8) -> (next:
        Option<PendingInterrupt>)
        requires
            old(self).wf(),
        ensures
            final(self).wf(),
            interrupt::is_first(
                old(self)@.spi_deliverable(vp.0, running_priority),
                |i: u32| old(self)@.priority_of(i),
                next,
            ),
            final(self)@ == (match next {
                Some(interrupt) => old(self)@.reserved(vp.0, interrupt.intid),
                None => old(self)@,
            }),
    {
        self.distributor.reserve_pending_spi_interrupt(vp, running_priority)
    }

    /// Gives back an interrupt that was set aside for `vp`.
    pub fn cancel_spi_reservation(&mut self, vp: VpIndex, intid: u32)
        requires
            old(self).wf(),
        ensures
            final(self).wf(),
            final(self)@ == old(self)@.reservation_cancelled(vp.0, intid),
    {
        self.distributor.cancel_spi_reservation(vp, intid);
    }
}

} // verus!
