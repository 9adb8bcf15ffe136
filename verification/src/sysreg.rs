//! AArch64 system registers by their encoding.

use vstd::prelude::*;

verus! {

pub const MDSCR_EL1: u16 = 0x8012;

pub const SCTLR_EL1: u16 = 0xc080;

pub const TTBR0_EL1: u16 = 0xc100;

pub const TTBR1_EL1: u16 = 0xc101;

pub const TCR_EL1: u16 = 0xc102;

pub const ELR_EL1: u16 = 0xc201;

pub const ICC_PMR_EL1: u16 = 0xc230;

pub const ESR_EL1: u16 = 0xc290;

pub const FAR_EL1: u16 = 0xc300;

pub const MAIR_EL1: u16 = 0xc510;

pub const VBAR_EL1: u16 = 0xc600;

pub const ICC_IAR0_EL1: u16 = 0xc640;

pub const ICC_EOIR0_EL1: u16 = 0xc641;

pub const ICC_SGI1R_EL1: u16 = 0xc65d;

pub const ICC_SGI0R_EL1: u16 = 0xc65f;

pub const ICC_IAR1_EL1: u16 = 0xc660;

pub const ICC_EOIR1_EL1: u16 = 0xc661;

pub const PMCR_EL0: u16 = 0xdce0;

/// The name of a system register: its five encoding fields packed, from the
/// top, as `op0` (2 bits), `op1` (3), `CRn` (4), `CRm` (4) and `op2` (3).
#[derive(Clone, Copy, Debug, PartialEq, Eq, Structural)]
pub struct SystemReg(pub u16);

impl SystemReg {
    pub open spec fn spec_op0(self) -> nat {
        self.0 as nat / 0x4000
    }

    pub open spec fn spec_op1(self) -> nat {
        self.0 as nat / 0x800 % 8
    }

    pub open spec fn spec_crn(self) -> nat {
        self.0 as nat / 0x80 % 0x10
    }

    pub open spec fn spec_crm(self) -> nat {
        self.0 as nat / 8 % 0x10
    }

    pub open spec fn spec_op2(self) -> nat {
        self.0 as nat % 8
    }

    /// The fields make up the whole name.
    pub proof fn lemma_fields(self)
        ensures
            self.0 == self.spec_op0() * 0x4000 + self.spec_op1() * 0x800 + self.spec_crn() * 0x80
                + self.spec_crm() * 8 + self.spec_op2(),
    {
        let bits = self.0;
        assert(bits == bits / 0x4000 * 0x4000 + bits / 0x800 % 8 * 0x800 + bits / 0x80 % 0x10 * 0x80
            + bits / 8 % 0x10 * 8 + bits % 8) by (bit_vector);
    }

    /// The register with the given encoding fields.
    pub fn new(op0: u8, op1: u8, crn: u8, crm: u8, op2: u8) -> (reg: SystemReg)
        requires
            op0 < 4,
            op1 < 8,
            crn < 16,
            crm < 16,
            op2 < 8,
        ensures
            reg.spec_op0() == op0,
            reg.spec_op1() == op1,
            reg.spec_crn() == crn,
            reg.spec_crm() == crm,
            reg.spec_op2() == op2,
            reg.0 == op0 * 0x4000 + op1 * 0x800 + crn * 0x80 + crm * 8 + op2,
    {
        proof {
            lemma_encoding_fields(op0, op1, crn, crm, op2);
        }
        SystemReg(
            op0 as u16 * 0x4000 + op1 as u16 * 0x800 + crn as u16 * 0x80 + crm as u16 * 8
                + op2 as u16,
        )
    }

    pub fn op0(self) -> (r: u8)
        ensures
            r == self.spec_op0(),
    {
        (self.0 / 0x4000) as u8
    }

    pub fn op1(self) -> (r: u8)
        ensures
            r == self.spec_op1(),
    {
        (self.0 / 0x800 % 8) as u8
    }

    pub fn crn(self) -> (r: u8)
        ensures
            r == self.spec_crn(),
    {
        (self.0 / 0x80 % 0x10) as u8
    }

    pub fn crm(self) -> (r: u8)
        ensures
            r == self.spec_crm(),
    {
        (self.0 / 8 % 0x10) as u8
    }

    pub fn op2(self) -> (r: u8)
        ensures
            r == self.spec_op2(),
    {
        (self.0 % 8) as u8
    }
}

proof fn lemma_encoding_fields(op0: u8, op1: u8, crn: u8, crm: u8, op2: u8)
    by (bit_vector)
    requires
        op0 < 4,
        op1 < 8,
        crn < 16,
        crm < 16,
        op2 < 8,
    ensures
        ({
            let bits: u16 = (op0 * 0x4000 + op1 * 0x800 + crn * 0x80 + crm * 8 + op2) as u16;
            &&& op0 * 0x4000 + op1 * 0x800 + crn * 0x80 + crm * 8 + op2 < 0x1_0000
            &&& bits / 0x4000 == op0
            &&& bits / 0x800 % 8 == op1
            &&& bits / 0x80 % 0x10 == crn
            &&& bits / 8 % 0x10 == crm
            &&& bits % 8 == op2
        }),
{
}

/// The registers of the interrupt controller's interface by their encoding: the
/// priority mask is S3_0_C4_C6_0; in S3_0_C12, group 0 is acknowledged by C8_0 and
/// ended by C8_1, group 1 is acknowledged by C12_0 and ended by C12_1, and C11_5 and
/// C11_7 ask for interrupts of group 1 and of group 0.
pub proof fn controller_registers_by_encoding(reg: SystemReg)
    ensures
        ({
            let interface = reg.spec_op0() == 3 && reg.spec_op1() == 0 && reg.spec_crn() == 12;
            &&& reg.0 == ICC_PMR_EL1 <==> reg.spec_op0() == 3 && reg.spec_op1() == 0
                && reg.spec_crn() == 4 && reg.spec_crm() == 6 && reg.spec_op2() == 0
            &&& reg.0 == ICC_IAR0_EL1 <==> interface && reg.spec_crm() == 8 && reg.spec_op2() == 0
            &&& reg.0 == ICC_EOIR0_EL1 <==> interface && reg.spec_crm() == 8 && reg.spec_op2() == 1
            &&& reg.0 == ICC_SGI1R_EL1 <==> interface && reg.spec_crm() == 11 && reg.spec_op2()
                == 5
            &&& reg.0 == ICC_SGI0R_EL1 <==> interface && reg.spec_crm() == 11 && reg.spec_op2()
                == 7
            &&& reg.0 == ICC_IAR1_EL1 <==> interface && reg.spec_crm() == 12 && reg.spec_op2() == 0
            &&& reg.0 == ICC_EOIR1_EL1 <==> interface && reg.spec_crm() == 12 && reg.spec_op2()
                == 1
        }),
{
    reg.lemma_fields();
}

} // verus!
