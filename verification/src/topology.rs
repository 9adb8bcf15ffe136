//! The processors of a guest and where its interrupt controller lies.

use vstd::prelude::*;

verus! {

/// The version of the interrupt controller.
#[derive(Clone, Copy, Debug, PartialEq, Eq, Structural)]
pub enum GicVersion {
    V2 { cpu_interface_base: u64 },
    V3 { redistributors_base: u64 },
}

/// The processors of an AArch64 guest.
#[derive(Debug)]
pub struct Aarch64Topology {
    /// The affinity register of each processor, in the order of their indices.
    pub mpidrs: Vec<u64>,
    pub gic_version: GicVersion,
    pub gic_distributor_base: u64,
    /// How many interrupts the controller has.
    pub gic_nr_irqs: u32,
}

impl Aarch64Topology {
    /// The number of processors fits the index of one.
    pub open spec fn wf(&self) -> bool {
        self.mpidrs@.len() <= u32::MAX
    }

    pub fn vp_count(&self) -> (count: u32)
        requires
            self.wf(),
        ensures
            count == self.mpidrs@.len(),
    {
        self.mpidrs.len() as u32
    }
}

} // verus!
