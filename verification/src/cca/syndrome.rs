//! The registers that describe an exception taken from a plane.

use crate::sysreg::SystemReg;
use vstd::prelude::*;

verus! {

/// ESR_EL2: what kind of exception it is, and its instruction syndrome.
#[derive(Clone, Copy, Debug, PartialEq, Eq, Structural)]
pub struct EsrEl2(pub u64);

impl EsrEl2 {
    /// The instruction-specific syndrome, bits 24 to 0.
    pub open spec fn spec_iss(self) -> u32 {
        (self.0 % 0x200_0000) as u32
    }

    /// The exception class, bits 31 to 26.
    pub open spec fn spec_ec(self) -> u8 {
        (self.0 / 0x400_0000 % 0x40) as u8
    }

    pub fn iss(self) -> (iss: u32)
        ensures
            iss == self.spec_iss(),
    {
        (self.0 % 0x200_0000) as u32
    }

    pub fn ec(self) -> (ec: u8)
        ensures
            ec == self.spec_ec(),
    {
        (self.0 / 0x400_0000 % 0x40) as u8
    }
}

/// HPFAR_EL2: the page of the faulting guest address.
#[derive(Clone, Copy, Debug, PartialEq, Eq, Structural)]
pub struct HpfarEl2(pub u64);

impl HpfarEl2 {
    /// The page number, bits 43 to 4.
    pub open spec fn spec_fipa(self) -> u64 {
        self.0 / 0x10 % 0x100_0000_0000
    }

    pub fn fipa(self) -> (fipa: u64)
        ensures
            fipa == self.spec_fipa(),
    {
        self.0 / 0x10 % 0x100_0000_0000
    }
}

/// The syndrome of a data abort.
#[derive(Clone, Copy, Debug, PartialEq, Eq, Structural)]
pub struct IssDataAbort(pub u32);

impl IssDataAbort {
    /// Whether the fields below describe the access, bit 24.
    pub open spec fn spec_isv(self) -> bool {
        self.0 / 0x100_0000 % 2 == 1
    }

    /// The size of the access as a power of two, bits 23 and 22.
    pub open spec fn spec_sas(self) -> u8 {
        (self.0 / 0x40_0000 % 4) as u8
    }

    /// Whether a loaded value is sign-extended, bit 21.
    pub open spec fn spec_sse(self) -> bool {
        self.0 / 0x20_0000 % 2 == 1
    }

    /// The register of the access, bits 20 to 16.
    pub open spec fn spec_srt(self) -> u8 {
        (self.0 / 0x1_0000 % 0x20) as u8
    }

    /// Whether that register is 64 bits wide, bit 15.
    pub open spec fn spec_sf(self) -> bool {
        self.0 / 0x8000 % 2 == 1
    }

    /// Whether the access is a write, bit 6.
    pub open spec fn spec_wnr(self) -> bool {
        self.0 / 0x40 % 2 == 1
    }

    /// The size of the access in bytes.
    pub open spec fn spec_len(self) -> usize {
        match self.spec_sas() {
            0 => 1,
            1 => 2,
            2 => 4,
            _ => 8,
        }
    }

    pub fn isv(self) -> (r: bool)
        ensures
            r == self.spec_isv(),
    {
        self.0 / 0x100_0000 % 2 == 1
    }

    pub fn sas(self) -> (r: u8)
        ensures
            r == self.spec_sas(),
    {
        (self.0 / 0x40_0000 % 4) as u8
    }

    pub fn sse(self) -> (r: bool)
        ensures
            r == self.spec_sse(),
    {
        self.0 / 0x20_0000 % 2 == 1
    }

    pub fn srt(self) -> (r: u8)
        ensures
            r == self.spec_srt(),
            r < 32,
    {
        (self.0 / 0x1_0000 % 0x20) as u8
    }

    pub fn sf(self) -> (r: bool)
        ensures
            r == self.spec_sf(),
    {
        self.0 / 0x8000 % 2 == 1
    }

    pub fn wnr(self) -> (r: bool)
        ensures
            r == self.spec_wnr(),
    {
        self.0 / 0x40 % 2 == 1
    }

    /// The size of the access in bytes.
    pub fn len(self) -> (len: usize)
        ensures
            len == self.spec_len(),
    {
        match self.sas() {
            0 => 1,
            1 => 2,
            2 => 4,
            _ => 8,
        }
    }
}

/// The syndrome of an instruction abort.
#[derive(Clone, Copy, Debug, PartialEq, Eq, Structural)]
pub struct IssInstructionAbort(pub u32);

impl IssInstructionAbort {
    /// The fault status code, bits 5 to 0.
    pub open spec fn spec_ifsc(self) -> u8 {
        (self.0 % 0x40) as u8
    }

    /// Whether FAR_EL2 is not valid, bit 10.
    pub open spec fn spec_fnv(self) -> bool {
        self.0 / 0x400 % 2 == 1
    }

    pub fn ifsc(self) -> (r: u8)
        ensures
            r == self.spec_ifsc(),
    {
        (self.0 % 0x40) as u8
    }

    pub fn fnv(self) -> (r: bool)
        ensures
            r == self.spec_fnv(),
    {
        self.0 / 0x400 % 2 == 1
    }
}

/// Why an instruction could not be fetched, with the level of the translation
/// table where there is one.
#[derive(Clone, Copy, Debug, PartialEq, Eq, Structural)]
pub enum InstructionAbortReason {
    AddressSize(u8),
    Translation(u8),
    AccessFlag(u8),
    Permission(u8),
    External,
    ExternalOnWalk(u8),
    Parity,
    ParityOnWalk(u8),
    TlbConflict,
    Other(u8),
}

impl InstructionAbortReason {
    /// What a fault status code stands for.
    pub open spec fn decode(ifsc: u8) -> InstructionAbortReason {
        if ifsc < 4 {
            InstructionAbortReason::AddressSize(ifsc)
        } else if ifsc < 8 {
            InstructionAbortReason::Translation((ifsc - 4) as u8)
        } else if ifsc < 12 {
            InstructionAbortReason::AccessFlag((ifsc - 8) as u8)
        } else if ifsc < 16 {
            InstructionAbortReason::Permission((ifsc - 12) as u8)
        } else if ifsc == 16 {
            InstructionAbortReason::External
        } else if 20 <= ifsc < 24 {
            InstructionAbortReason::ExternalOnWalk((ifsc - 20) as u8)
        } else if ifsc == 24 {
            InstructionAbortReason::Parity
        } else if 28 <= ifsc < 32 {
            InstructionAbortReason::ParityOnWalk((ifsc - 28) as u8)
        } else if ifsc == 48 {
            InstructionAbortReason::TlbConflict
        } else {
            InstructionAbortReason::Other(ifsc)
        }
    }

    pub fn from_ifsc(ifsc: u8) -> (reason: InstructionAbortReason)
        ensures
            reason == InstructionAbortReason::decode(ifsc),
    {
        if ifsc < 4 {
            InstructionAbortReason::AddressSize(ifsc)
        } else if ifsc < 8 {
            InstructionAbortReason::Translation(ifsc - 4)
        } else if ifsc < 12 {
            InstructionAbortReason::AccessFlag(ifsc - 8)
        } else if ifsc < 16 {
            InstructionAbortReason::Permission(ifsc - 12)
        } else if ifsc == 16 {
            InstructionAbortReason::External
        } else if ifsc >= 20 && ifsc < 24 {
            InstructionAbortReason::ExternalOnWalk(ifsc - 20)
        } else if ifsc == 24 {
            InstructionAbortReason::Parity
        } else if ifsc >= 28 && ifsc < 32 {
            InstructionAbortReason::ParityOnWalk(ifsc - 28)
        } else if ifsc == 48 {
            InstructionAbortReason::TlbConflict
        } else {
            InstructionAbortReason::Other(ifsc)
        }
    }
}

/// The syndrome of a trapped system register access.
#[derive(Clone, Copy, Debug, PartialEq, Eq, Structural)]
pub struct IssSystem(pub u32);

impl IssSystem {
    /// Whether the access is a read, bit 0.
    pub open spec fn spec_direction(self) -> bool {
        self.0 % 2 == 1
    }

    /// The register of the access, bits 9 to 5.
    pub open spec fn spec_rt(self) -> u8 {
        (self.0 / 0x20 % 0x20) as u8
    }

    /// The system register: CRm in bits 4 to 1, CRn in bits 13 to 10, op1 in
    /// bits 16 to 14, op2 in bits 19 to 17 and op0 in bits 21 and 20.
    pub open spec fn spec_system_reg(self) -> SystemReg {
        SystemReg(
            (self.0 / 0x10_0000 % 4 * 0x4000 + self.0 / 0x4000 % 8 * 0x800 + self.0 / 0x400 % 0x10
                * 0x80 + self.0 / 2 % 0x10 * 8 + self.0 / 0x2_0000 % 8) as u16,
        )
    }

    pub fn direction(self) -> (r: bool)
        ensures
            r == self.spec_direction(),
    {
        self.0 % 2 == 1
    }

    pub fn rt(self) -> (r: u8)
        ensures
            r == self.spec_rt(),
            r < 32,
    {
        (self.0 / 0x20 % 0x20) as u8
    }

    pub fn system_reg(self) -> (reg: SystemReg)
        ensures
            reg == self.spec_system_reg(),
    {
        SystemReg::new(
            (self.0 / 0x10_0000 % 4) as u8,
            (self.0 / 0x4000 % 8) as u8,
            (self.0 / 0x400 % 0x10) as u8,
            (self.0 / 2 % 0x10) as u8,
            (self.0 / 0x2_0000 % 8) as u8,
        )
    }
}

} // verus!
