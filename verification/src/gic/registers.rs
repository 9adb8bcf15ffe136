//! The register layout of the GIC and the fields of the system registers that
//! address interrupts to processors.

use vstd::prelude::*;

verus! {

/// Size of the distributor's register frame.
pub const GIC_DISTRIBUTOR_SIZE: u64 = 0x1_0000;

/// Size of one of the two register frames of a redistributor.
pub const GIC_REDISTRIBUTOR_FRAME_SIZE: u64 = 0x1_0000;

/// Size of both register frames of a redistributor.
pub const GIC_REDISTRIBUTOR_SIZE: u64 = 0x2_0000;

// Distributor registers, as offsets into its frame.

pub const GICD_CTLR: u16 = 0x0000;

pub const GICD_TYPER: u16 = 0x0004;

pub const GICD_IIDR: u16 = 0x0008;

pub const GICD_TYPER2: u16 = 0x000c;

pub const GICD_IGROUPR: u16 = 0x0080;

pub const GICD_ISENABLER: u16 = 0x0100;

pub const GICD_ICENABLER: u16 = 0x0180;

pub const GICD_ISPENDR: u16 = 0x0200;

pub const GICD_ICPENDR: u16 = 0x0280;

pub const GICD_ISACTIVER: u16 = 0x0300;

pub const GICD_ICACTIVER: u16 = 0x0380;

pub const GICD_IPRIORITYR: u16 = 0x0400;

pub const GICD_ICFGR: u16 = 0x0c00;

pub const GICD_IROUTER: u16 = 0x6000;

pub const GICD_PIDR2: u16 = 0xffe8;

// Redistributor registers of the control frame.

pub const GICR_CTLR: u16 = 0x0000;

pub const GICR_TYPER: u16 = 0x0008;

pub const GICR_WAKER: u16 = 0x0014;

pub const GICR_PIDR2: u16 = 0xffe8;

// Redistributor registers of the SGI and PPI frame.

pub const GICR_IGROUPR0: u16 = 0x0080;

pub const GICR_ISENABLER0: u16 = 0x0100;

pub const GICR_ICENABLER0: u16 = 0x0180;

pub const GICR_ISPENDR0: u16 = 0x0200;

pub const GICR_ICPENDR0: u16 = 0x0280;

pub const GICR_ISACTIVER0: u16 = 0x0300;

pub const GICR_ICACTIVER0: u16 = 0x0380;

pub const GICR_IPRIORITYR0: u16 = 0x0400;

pub const GICR_ICFGR0: u16 = 0x0c00;

pub const GICR_ICFGR1: u16 = 0x0c04;

/// The architecture revision field of PIDR2, for GICv3.
pub const PIDR2_GICV3: u32 = 0x30;

/// GICD_TYPER: 32 words of interrupt lines and six INTID bits, each less one.
pub const GICD_TYPER_VALUE: u32 = 0x0028_001f;

/// The enable bits of the two interrupt groups in GICD_CTLR.
pub const GICD_CTLR_ENABLE_GRP0: u32 = 0x01;

pub const GICD_CTLR_ENABLE_GRP1: u32 = 0x02;

/// Affinity routing and a single security state, which GICD_CTLR always reports.
pub const GICD_CTLR_ARE: u32 = 0x10;

pub const GICD_CTLR_DS: u32 = 0x40;

/// The two sleep bits of GICR_WAKER.
pub const GICR_WAKER_PROCESSOR_SLEEP: u32 = 0x2;

pub const GICR_WAKER_CHILDREN_ASLEEP: u32 = 0x4;

/// The trigger bits of a configuration word; the other bit of each pair is
/// reserved.
pub const ICFGR_TRIGGER_MASK: u32 = 0xaaaa_aaaa;

/// The interrupt ID that acknowledges nothing.
pub const INTID_NONE: u32 = 1023;

/// The index of a virtual processor.
#[derive(Clone, Copy, Debug, PartialEq, Eq, Structural)]
pub struct VpIndex(pub u32);

impl VpIndex {
    pub fn new(index: u32) -> (vp: VpIndex)
        ensures
            vp.0 == index,
    {
        VpIndex(index)
    }

    pub fn index(&self) -> (index: u32)
        ensures
            index == self.0,
    {
        self.0
    }
}

/// The affinity fields of MPIDR_EL1, which name a processor. GICD_IROUTER holds
/// an affinity in the same layout.
#[derive(Clone, Copy, Debug, PartialEq, Eq, Structural)]
pub struct MpidrEl1 {
    pub aff0: u8,
    pub aff1: u8,
    pub aff2: u8,
    pub aff3: u8,
}

impl MpidrEl1 {
    /// The affinity that `bits` holds.
    pub open spec fn decode(bits: u64) -> MpidrEl1 {
        MpidrEl1 {
            aff0: (bits % 0x100) as u8,
            aff1: (bits / 0x100 % 0x100) as u8,
            aff2: (bits / 0x1_0000 % 0x100) as u8,
            aff3: (bits / 0x1_0000_0000 % 0x100) as u8,
        }
    }

    /// The register with this affinity and every other field zero.
    pub open spec fn encode(self) -> u64 {
        (self.aff0 + self.aff1 * 0x100 + self.aff2 * 0x1_0000 + self.aff3 * 0x1_0000_0000) as u64
    }

    pub fn new() -> (mpidr: MpidrEl1)
        ensures
            mpidr == (MpidrEl1 { aff0: 0, aff1: 0, aff2: 0, aff3: 0 }),
    {
        MpidrEl1 { aff0: 0, aff1: 0, aff2: 0, aff3: 0 }
    }

    pub fn from_bits(bits: u64) -> (mpidr: MpidrEl1)
        ensures
            mpidr == MpidrEl1::decode(bits),
    {
        MpidrEl1 {
            aff0: (bits % 0x100) as u8,
            aff1: (bits / 0x100 % 0x100) as u8,
            aff2: (bits / 0x1_0000 % 0x100) as u8,
            aff3: (bits / 0x1_0000_0000 % 0x100) as u8,
        }
    }

    pub fn into_bits(self) -> (bits: u64)
        ensures
            bits == self.encode(),
    {
        self.aff0 as u64 + self.aff1 as u64 * 0x100 + self.aff2 as u64 * 0x1_0000 + self.aff3 as u64
            * 0x1_0000_0000
    }

    pub fn with_aff0(self, aff0: u8) -> (mpidr: MpidrEl1)
        ensures
            mpidr == (MpidrEl1 { aff0, ..self }),
    {
        MpidrEl1 { aff0, ..self }
    }

    pub fn with_aff1(self, aff1: u8) -> (mpidr: MpidrEl1)
        ensures
            mpidr == (MpidrEl1 { aff1, ..self }),
    {
        MpidrEl1 { aff1, ..self }
    }

    pub fn with_aff2(self, aff2: u8) -> (mpidr: MpidrEl1)
        ensures
            mpidr == (MpidrEl1 { aff2, ..self }),
    {
        MpidrEl1 { aff2, ..self }
    }

    pub fn with_aff3(self, aff3: u8) -> (mpidr: MpidrEl1)
        ensures
            mpidr == (MpidrEl1 { aff3, ..self }),
    {
        MpidrEl1 { aff3, ..self }
    }

    /// An affinity survives the trip through its register.
    pub proof fn lemma_round_trip(self)
        ensures
            MpidrEl1::decode(self.encode()) == self,
    {
        lemma_affinity_fields(self.aff0, self.aff1, self.aff2, self.aff3);
    }
}

/// The fields of ICC_SGI0R_EL1 and ICC_SGI1R_EL1, through which a processor
/// sends software-generated interrupts.
#[derive(Clone, Copy, Debug, PartialEq, Eq, Structural)]
pub struct GicrSgi {
    /// One bit per processor of the addressed range of sixteen.
    pub target_list: u16,
    pub aff1: u8,
    /// The interrupt to send, below 16.
    pub intid: u8,
    pub aff2: u8,
    /// Address every processor but the sender.
    pub irm: bool,
    /// Which range of sixteen `Aff0` values the target list covers.
    pub rs: u8,
    pub aff3: u8,
}

impl GicrSgi {
    /// Each field fits into its place in the register.
    pub open spec fn wf(self) -> bool {
        self.intid < 16 && self.rs < 16
    }

    /// The fields that `bits` holds.
    pub open spec fn decode(bits: u64) -> GicrSgi {
        GicrSgi {
            target_list: (bits % 0x1_0000) as u16,
            aff1: (bits / 0x1_0000 % 0x100) as u8,
            intid: (bits / 0x100_0000 % 0x10) as u8,
            aff2: (bits / 0x1_0000_0000 % 0x100) as u8,
            irm: bits / 0x100_0000_0000 % 2 == 1,
            rs: (bits / 0x1000_0000_0000 % 0x10) as u8,
            aff3: (bits / 0x1_0000_0000_0000 % 0x100) as u8,
        }
    }

    /// The register with these fields and every reserved bit zero.
    pub open spec fn encode(self) -> u64 {
        (self.target_list + self.aff1 * 0x1_0000 + self.intid * 0x100_0000 + self.aff2
            * 0x1_0000_0000 + (if self.irm {
            0x100_0000_0000int
        } else {
            0
        }) + self.rs * 0x1000_0000_0000 + self.aff3 * 0x1_0000_0000_0000) as u64
    }

    pub fn new() -> (sgi: GicrSgi)
        ensures
            sgi == GicrSgi::decode(0),
    {
        GicrSgi { target_list: 0, aff1: 0, intid: 0, aff2: 0, irm: false, rs: 0, aff3: 0 }
    }

    pub fn from_bits(bits: u64) -> (sgi: GicrSgi)
        ensures
            sgi == GicrSgi::decode(bits),
            sgi.wf(),
    {
        GicrSgi {
            target_list: (bits % 0x1_0000) as u16,
            aff1: (bits / 0x1_0000 % 0x100) as u8,
            intid: (bits / 0x100_0000 % 0x10) as u8,
            aff2: (bits / 0x1_0000_0000 % 0x100) as u8,
            irm: bits / 0x100_0000_0000 % 2 == 1,
            rs: (bits / 0x1000_0000_0000 % 0x10) as u8,
            aff3: (bits / 0x1_0000_0000_0000 % 0x100) as u8,
        }
    }

    pub fn into_bits(self) -> (bits: u64)
        requires
            self.wf(),
        ensures
            bits == self.encode(),
    {
        let irm: u64 = if self.irm {
            0x100_0000_0000
        } else {
            0
        };
        self.target_list as u64 + self.aff1 as u64 * 0x1_0000 + self.intid as u64 * 0x100_0000
            + self.aff2 as u64 * 0x1_0000_0000 + irm + self.rs as u64 * 0x1000_0000_0000
            + self.aff3 as u64 * 0x1_0000_0000_0000
    }

    pub fn with_target_list(self, target_list: u16) -> (sgi: GicrSgi)
        ensures
            sgi == (GicrSgi { target_list, ..self }),
    {
        GicrSgi { target_list, ..self }
    }

    pub fn with_aff1(self, aff1: u8) -> (sgi: GicrSgi)
        ensures
            sgi == (GicrSgi { aff1, ..self }),
    {
        GicrSgi { aff1, ..self }
    }

    pub fn with_aff2(self, aff2: u8) -> (sgi: GicrSgi)
        ensures
            sgi == (GicrSgi { aff2, ..self }),
    {
        GicrSgi { aff2, ..self }
    }

    pub fn with_aff3(self, aff3: u8) -> (sgi: GicrSgi)
        ensures
            sgi == (GicrSgi { aff3, ..self }),
    {
        GicrSgi { aff3, ..self }
    }

    pub fn with_irm(self, irm: bool) -> (sgi: GicrSgi)
        ensures
            sgi == (GicrSgi { irm, ..self }),
    {
        GicrSgi { irm, ..self }
    }

    pub fn with_rs(self, rs: u8) -> (sgi: GicrSgi)
        requires
            rs < 16,
        ensures
            sgi == (GicrSgi { rs, ..self }),
    {
        GicrSgi { rs, ..self }
    }

    pub fn with_intid(self, intid: u8) -> (sgi: GicrSgi)
        requires
            intid < 16,
        ensures
            sgi == (GicrSgi { intid, ..self }),
    {
        GicrSgi { intid, ..self }
    }

    /// The fields survive the trip through the register.
    pub proof fn lemma_round_trip(self)
        requires
            self.wf(),
        ensures
            GicrSgi::decode(self.encode()) == self,
    {
        let irm: u8 = if self.irm {
            1
        } else {
            0
        };
        lemma_sgi_fields(
            self.target_list,
            self.aff1,
            self.intid,
            self.aff2,
            irm,
            self.rs,
            self.aff3,
        );
    }
}

proof fn lemma_affinity_fields(aff0: u8, aff1: u8, aff2: u8, aff3: u8)
    by (bit_vector)
    ensures
        ({
            let bits: u64 = (aff0 + aff1 * 0x100 + aff2 * 0x1_0000 + aff3 * 0x1_0000_0000) as u64;
            &&& bits % 0x100 == aff0
            &&& bits / 0x100 % 0x100 == aff1
            &&& bits / 0x1_0000 % 0x100 == aff2
            &&& bits / 0x1_0000_0000 % 0x100 == aff3
        }),
{
}

proof fn lemma_sgi_fields(
    target_list: u16,
    aff1: u8,
    intid: u8,
    aff2: u8,
    irm: u8,
    rs: u8,
    aff3: u8,
)
    by (bit_vector)
    requires
        intid < 16,
        irm < 2,
        rs < 16,
    ensures
        ({
            let bits: u64 = (target_list + aff1 * 0x1_0000 + intid * 0x100_0000 + aff2
                * 0x1_0000_0000 + irm * 0x100_0000_0000 + rs * 0x1000_0000_0000 + aff3
                * 0x1_0000_0000_0000) as u64;
            &&& bits % 0x1_0000 == target_list
            &&& bits / 0x1_0000 % 0x100 == aff1
            &&& bits / 0x100_0000 % 0x10 == intid
            &&& bits / 0x1_0000_0000 % 0x100 == aff2
            &&& bits / 0x100_0000_0000 % 2 == irm
            &&& bits / 0x1000_0000_0000 % 0x10 == rs
            &&& bits / 0x1_0000_0000_0000 % 0x100 == aff3
        }),
{
}

/// Which priority byte of a word belongs to interrupt `intid`.
pub open spec fn priority_byte(word: u32, intid: u32) -> u8 {
    if intid % 4 == 0 {
        (word % 0x100) as u8
    } else if intid % 4 == 1 {
        (word / 0x100 % 0x100) as u8
    } else if intid % 4 == 2 {
        (word / 0x1_0000 % 0x100) as u8
    } else {
        (word / 0x100_0000) as u8
    }
}

pub(crate) fn read_priority_byte(word: u32, intid: u32) -> (priority: u8)
    ensures
        priority == priority_byte(word, intid),
{
    if intid % 4 == 0 {
        (word % 0x100) as u8
    } else if intid % 4 == 1 {
        (word / 0x100 % 0x100) as u8
    } else if intid % 4 == 2 {
        (word / 0x1_0000 % 0x100) as u8
    } else {
        (word / 0x100_0000) as u8
    }
}

/// GICR_TYPER of a processor: its affinity in the upper half, and whether it
/// is the last one.
pub open spec fn gicr_typer(mpidr: MpidrEl1, last: bool) -> u64 {
    (mpidr.aff0 * 0x1_0000_0000 + mpidr.aff1 * 0x100_0000_0000 + mpidr.aff2 * 0x1_0000_0000_0000
        + mpidr.aff3 * 0x100_0000_0000_0000 + (if last {
        0x10int
    } else {
        0
    })) as u64
}

/// GICD_CTLR with the given groups enabled.
pub open spec fn gicd_ctlr(enable_grp0: bool, enable_grp1: bool) -> u32 {
    (GICD_CTLR_ARE + GICD_CTLR_DS + (if enable_grp0 {
        GICD_CTLR_ENABLE_GRP0 as int
    } else {
        0
    }) + (if enable_grp1 {
        GICD_CTLR_ENABLE_GRP1 as int
    } else {
        0
    })) as u32
}

/// GICR_WAKER of a processor that sleeps or not.
pub open spec fn gicr_waker(sleep: bool) -> u32 {
    if sleep {
        6
    } else {
        0
    }
}

} // verus!
