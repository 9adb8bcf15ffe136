//! Access to the registers of a virtual processor.

use super::plane::{GetRegError, HvError, SetRegError, DEFAULT_PSTATE};
use super::processor::UhProcessor;
use super::vtl::GuestVtl;
use crate::rsi::{cca_rsi_plane_entry, RSI_PLANE_ENTER_FLAGS_TRAP_SIMD};
use crate::sysreg::{
    SystemReg, ELR_EL1, ESR_EL1, FAR_EL1, MAIR_EL1, MDSCR_EL1, PMCR_EL0, SCTLR_EL1, TCR_EL1,
    TTBR0_EL1, TTBR1_EL1, VBAR_EL1,
};
use vstd::prelude::*;

verus! {

/// The cycle counter counts all 64 bits.
pub const PMCR_EL0_DEFAULT: u64 = 0x40;

/// The debug communication channel is trapped.
pub const MDSCR_EL1_DEFAULT: u64 = 0x800;

/// Why the state of a processor could not be accessed.
#[derive(Clone, Copy, Debug)]
pub enum Error {
    SetRegisters(HvError),
    GetRegisters(HvError),
    SetEfer(u64, &'static str),
    Unimplemented(&'static str),
    InvalidApicBase(u64),
    SetRegistersR(SetRegError),
    GetRegistersR(GetRegError),
}

/// The general-purpose registers of a processor.
#[derive(Clone, Copy, Debug, PartialEq, Eq, Structural)]
pub struct Registers {
    pub x0: u64,
    pub x1: u64,
    pub x2: u64,
    pub x3: u64,
    pub x4: u64,
    pub x5: u64,
    pub x6: u64,
    pub x7: u64,
    pub x8: u64,
    pub x9: u64,
    pub x10: u64,
    pub x11: u64,
    pub x12: u64,
    pub x13: u64,
    pub x14: u64,
    pub x15: u64,
    pub x16: u64,
    pub x17: u64,
    pub x18: u64,
    pub x19: u64,
    pub x20: u64,
    pub x21: u64,
    pub x22: u64,
    pub x23: u64,
    pub x24: u64,
    pub x25: u64,
    pub x26: u64,
    pub x27: u64,
    pub x28: u64,
    pub fp: u64,
    pub lr: u64,
    pub sp_el0: u64,
    pub sp_el1: u64,
    pub cpsr: u64,
    pub pc: u64,
}

impl Registers {
    /// The registers that an instruction can name by number, in order.
    pub open spec fn gprs(self) -> Seq<u64> {
        seq![
            self.x0, self.x1, self.x2, self.x3, self.x4, self.x5, self.x6, self.x7, self.x8,
            self.x9, self.x10, self.x11, self.x12, self.x13, self.x14, self.x15, self.x16,
            self.x17, self.x18, self.x19, self.x20, self.x21, self.x22, self.x23, self.x24,
            self.x25, self.x26, self.x27, self.x28, self.fp, self.lr,
        ]
    }
}

/// The system registers of a processor that are saved and restored.
#[derive(Clone, Copy, Debug, PartialEq, Eq, Structural)]
pub struct SystemRegisters {
    pub sctlr_el1: u64,
    pub ttbr0_el1: u64,
    pub ttbr1_el1: u64,
    pub tcr_el1: u64,
    pub esr_el1: u64,
    pub far_el1: u64,
    pub mair_el1: u64,
    pub elr_el1: u64,
    pub vbar_el1: u64,
}

/// The system registers that are saved and restored, in the order in which that
/// happens.
pub open spec fn system_register_names() -> Seq<SystemReg> {
    seq![
        SystemReg(SCTLR_EL1),
        SystemReg(TTBR0_EL1),
        SystemReg(TTBR1_EL1),
        SystemReg(TCR_EL1),
        SystemReg(ESR_EL1),
        SystemReg(FAR_EL1),
        SystemReg(MAIR_EL1),
        SystemReg(ELR_EL1),
        SystemReg(VBAR_EL1),
    ]
}

impl SystemRegisters {
    /// The values, in the order of their names.
    pub open spec fn values(self) -> Seq<u64> {
        seq![
            self.sctlr_el1,
            self.ttbr0_el1,
            self.ttbr1_el1,
            self.tcr_el1,
            self.esr_el1,
            self.far_el1,
            self.mair_el1,
            self.elr_el1,
            self.vbar_el1,
        ]
    }
}

/// The writes that a new processor starts with.
pub fn init_writes() -> (writes: Vec<(SystemReg, u64)>)
    ensures
        writes@ == seq![
            (SystemReg(PMCR_EL0), PMCR_EL0_DEFAULT),
            (SystemReg(MDSCR_EL1), MDSCR_EL1_DEFAULT),
        ],
{
    vec![
        (SystemReg(PMCR_EL0), PMCR_EL0_DEFAULT),
        (SystemReg(MDSCR_EL1), MDSCR_EL1_DEFAULT),
    ]
}

/// The state of a processor as one of its VTLs sees it.
pub struct UhVpStateAccess<'a> {
    pub vp: &'a mut UhProcessor,
    pub vtl: GuestVtl,
    pub shared_address_start: u64,
    pub shared_address_start_command: u64,
}

impl<'a> UhVpStateAccess<'a> {
    pub fn new(vp: &'a mut UhProcessor, vtl: GuestVtl) -> (access: UhVpStateAccess<'a>)
        ensures
            *access.vp == *old(vp),
            *final(access.vp) == *final(vp),
            access.vtl == vtl,
            access.shared_address_start == old(vp).partition.shared_addr_start,
            access.shared_address_start_command == old(vp).partition.shared_addr_start_command,
    {
        let shared_address_start: u64 = vp.partition.shared_addr_start;
        let shared_address_start_command: u64 = vp.partition.shared_addr_start_command;
        UhVpStateAccess { vp, vtl, shared_address_start, shared_address_start_command }
    }
}

impl UhProcessor {
    /// The registers with which the plane is entered next.
    pub fn registers(&self) -> (registers: Registers)
        ensures
            registers.gprs() == self.entry().gprs@,
            registers.pc == self.entry().pc,
            registers.sp_el0 == 0 && registers.sp_el1 == 0 && registers.cpsr == 0,
    {
        let plane_enter = &self.runner.state.plane_run.entry;
        let registers = Registers {
            x0: plane_enter.gprs[0],
            x1: plane_enter.gprs[1],
            x2: plane_enter.gprs[2],
            x3: plane_enter.gprs[3],
            x4: plane_enter.gprs[4],
            x5: plane_enter.gprs[5],
            x6: plane_enter.gprs[6],
            x7: plane_enter.gprs[7],
            x8: plane_enter.gprs[8],
            x9: plane_enter.gprs[9],
            x10: plane_enter.gprs[10],
            x11: plane_enter.gprs[11],
            x12: plane_enter.gprs[12],
            x13: plane_enter.gprs[13],
            x14: plane_enter.gprs[14],
            x15: plane_enter.gprs[15],
            x16: plane_enter.gprs[16],
            x17: plane_enter.gprs[17],
            x18: plane_enter.gprs[18],
            x19: plane_enter.gprs[19],
            x20: plane_enter.gprs[20],
            x21: plane_enter.gprs[21],
            x22: plane_enter.gprs[22],
            x23: plane_enter.gprs[23],
            x24: plane_enter.gprs[24],
            x25: plane_enter.gprs[25],
            x26: plane_enter.gprs[26],
            x27: plane_enter.gprs[27],
            x28: plane_enter.gprs[28],
            fp: plane_enter.gprs[29],
            lr: plane_enter.gprs[30],
            sp_el0: 0,
            sp_el1: 0,
            cpsr: 0,
            pc: plane_enter.pc,
        };
        proof {
            assert(registers.gprs() =~= plane_enter.gprs@);
        }
        registers
    }

    /// Sets the registers with which the plane is entered next. It starts with
    /// all exceptions masked, and is left at its first SIMD instruction.
    pub fn set_registers(&mut self, value: &Registers)
        ensures
            *final(self) == old(self).with_entry(
                cca_rsi_plane_entry {
                    flags: old(self).entry().flags | RSI_PLANE_ENTER_FLAGS_TRAP_SIMD,
                    pstate: DEFAULT_PSTATE,
                    pc: value.pc,
                    gprs: final(self).entry().gprs,
                    ..old(self).entry()
                },
            ),
            final(self).entry().gprs@ == value.gprs(),
    {
        self.runner.cca_plane_trap_simd();
        self.runner.cca_set_default_pstate();
        let plane_enter = self.runner.cca_rsi_plane_entry();
        plane_enter.gprs[0] = value.x0;
        plane_enter.gprs[1] = value.x1;
        plane_enter.gprs[2] = value.x2;
        plane_enter.gprs[3] = value.x3;
        plane_enter.gprs[4] = value.x4;
        plane_enter.gprs[5] = value.x5;
        plane_enter.gprs[6] = value.x6;
        plane_enter.gprs[7] = value.x7;
        plane_enter.gprs[8] = value.x8;
        plane_enter.gprs[9] = value.x9;
        plane_enter.gprs[10] = value.x10;
        plane_enter.gprs[11] = value.x11;
        plane_enter.gprs[12] = value.x12;
        plane_enter.gprs[13] = value.x13;
        plane_enter.gprs[14] = value.x14;
        plane_enter.gprs[15] = value.x15;
        plane_enter.gprs[16] = value.x16;
        plane_enter.gprs[17] = value.x17;
        plane_enter.gprs[18] = value.x18;
        plane_enter.gprs[19] = value.x19;
        plane_enter.gprs[20] = value.x20;
        plane_enter.gprs[21] = value.x21;
        plane_enter.gprs[22] = value.x22;
        plane_enter.gprs[23] = value.x23;
        plane_enter.gprs[24] = value.x24;
        plane_enter.gprs[25] = value.x25;
        plane_enter.gprs[26] = value.x26;
        plane_enter.gprs[27] = value.x27;
        plane_enter.gprs[28] = value.x28;
        plane_enter.gprs[29] = value.fp;
        plane_enter.gprs[30] = value.lr;
        plane_enter.pc = value.pc;
        proof {
            assert(plane_enter.gprs@ =~= value.gprs());
        }
    }
}

/// The names of the system registers that are read to save a processor, in
/// order.
pub fn system_register_reads() -> (names: Vec<SystemReg>)
    ensures
        names@ == system_register_names(),
{
    vec![
        SystemReg(SCTLR_EL1),
        SystemReg(TTBR0_EL1),
        SystemReg(TTBR1_EL1),
        SystemReg(TCR_EL1),
        SystemReg(ESR_EL1),
        SystemReg(FAR_EL1),
        SystemReg(MAIR_EL1),
        SystemReg(ELR_EL1),
        SystemReg(VBAR_EL1),
    ]
}

/// The saved system registers, from what was read for each name.
pub fn system_registers(values: &[u64; 9]) -> (registers: SystemRegisters)
    ensures
        registers.values() == values@,
{
    let registers = SystemRegisters {
        sctlr_el1: values[0],
        ttbr0_el1: values[1],
        ttbr1_el1: values[2],
        tcr_el1: values[3],
        esr_el1: values[4],
        far_el1: values[5],
        mair_el1: values[6],
        elr_el1: values[7],
        vbar_el1: values[8],
    };
    proof {
        assert(registers.values() =~= values@);
    }
    registers
}

/// The writes that restore the system registers of a processor, in order.
pub fn set_system_registers(value: &SystemRegisters) -> (writes: Vec<(SystemReg, u64)>)
    ensures
        writes@.len() == 9,
        forall|i: int|
            #![trigger writes@[i]]
            0 <= i < 9 ==> writes@[i] == (system_register_names()[i], value.values()[i]),
{
    vec![
        (SystemReg(SCTLR_EL1), value.sctlr_el1),
        (SystemReg(TTBR0_EL1), value.ttbr0_el1),
        (SystemReg(TTBR1_EL1), value.ttbr1_el1),
        (SystemReg(TCR_EL1), value.tcr_el1),
        (SystemReg(ESR_EL1), value.esr_el1),
        (SystemReg(FAR_EL1), value.far_el1),
        (SystemReg(MAIR_EL1), value.mair_el1),
        (SystemReg(ELR_EL1), value.elr_el1),
        (SystemReg(VBAR_EL1), value.vbar_el1),
    ]
}

/// The registers that an entry buffer was given are the registers that are read
/// from it.
pub proof fn registers_are_what_was_set(
    entry: cca_rsi_plane_entry,
    value: Registers,
    read: Registers,
)
    requires
        entry.gprs@ == value.gprs(),
        entry.pc == value.pc,
        read.gprs() == entry.gprs@,
        read.pc == entry.pc,
    ensures
        read == (Registers {
            sp_el0: read.sp_el0,
            sp_el1: read.sp_el1,
            cpsr: read.cpsr,
            ..value
        }),
{
    let a = read.gprs();
    let b = value.gprs();
    assert(forall|i: int| 0 <= i < 31 ==> a[i] == b[i]);
    assert(a[0] == read.x0 && b[0] == value.x0);
    assert(a[1] == read.x1 && b[1] == value.x1);
    assert(a[2] == read.x2 && b[2] == value.x2);
    assert(a[3] == read.x3 && b[3] == value.x3);
    assert(a[4] == read.x4 && b[4] == value.x4);
    assert(a[5] == read.x5 && b[5] == value.x5);
    assert(a[6] == read.x6 && b[6] == value.x6);
    assert(a[7] == read.x7 && b[7] == value.x7);
    assert(a[8] == read.x8 && b[8] == value.x8);
    assert(a[9] == read.x9 && b[9] == value.x9);
    assert(a[10] == read.x10 && b[10] == value.x10);
    assert(a[11] == read.x11 && b[11] == value.x11);
    assert(a[12] == read.x12 && b[12] == value.x12);
    assert(a[13] == read.x13 && b[13] == value.x13);
    assert(a[14] == read.x14 && b[14] == value.x14);
    assert(a[15] == read.x15 && b[15] == value.x15);
    assert(a[16] == read.x16 && b[16] == value.x16);
    assert(a[17] == read.x17 && b[17] == value.x17);
    assert(a[18] == read.x18 && b[18] == value.x18);
    assert(a[19] == read.x19 && b[19] == value.x19);
    assert(a[20] == read.x20 && b[20] == value.x20);
    assert(a[21] == read.x21 && b[21] == value.x21);
    assert(a[22] == read.x22 && b[22] == value.x22);
    assert(a[23] == read.x23 && b[23] == value.x23);
    assert(a[24] == read.x24 && b[24] == value.x24);
    assert(a[25] == read.x25 && b[25] == value.x25);
    assert(a[26] == read.x26 && b[26] == value.x26);
    assert(a[27] == read.x27 && b[27] == value.x27);
    assert(a[28] == read.x28 && b[28] == value.x28);
    assert(a[29] == read.fp && b[29] == value.fp);
    assert(a[30] == read.lr && b[30] == value.lr);
}

/// A segment of an x86 processor.
#[derive(Clone, Copy, Debug, PartialEq, Eq, Structural)]
pub struct HvX64SegmentRegister {
    pub base: u64,
    pub limit: u32,
    pub selector: u16,
    pub attributes: u16,
}

/// What an intercept message says of the processor only where it is asked to.
#[derive(Clone, Copy, Debug, PartialEq, Eq, Structural)]
pub struct InterceptMessageOptionalState {
    pub ds: HvX64SegmentRegister,
    pub es: HvX64SegmentRegister,
}

/// What an intercept message says of the processor.
#[derive(Clone, Copy, Debug, PartialEq, Eq, Structural)]
pub struct InterceptMessageState {
    pub instruction_length_and_cr8: u8,
    pub cpl: u8,
    pub efer_lma: bool,
    pub cs: HvX64SegmentRegister,
    pub rip: u64,
    pub rflags: u64,
    pub rax: u64,
    pub rdx: u64,
    pub rcx: u64,
    pub rsi: u64,
    pub rdi: u64,
    pub optional: Option<InterceptMessageOptionalState>,
}

/// The state in an intercept message, all of which is zero, with no optional
/// state: an Arm processor has none of it.
pub fn intercept_message_state() -> (state: InterceptMessageState)
    ensures
        state == (InterceptMessageState {
            instruction_length_and_cr8: 0,
            cpl: 0,
            efer_lma: false,
            cs: HvX64SegmentRegister { base: 0, limit: 0, selector: 0, attributes: 0 },
            rip: 0,
            rflags: 0,
            rax: 0,
            rdx: 0,
            rcx: 0,
            rsi: 0,
            rdi: 0,
            optional: None,
        }),
{
    InterceptMessageState {
        instruction_length_and_cr8: 0,
        cpl: 0,
        efer_lma: false,
        cs: HvX64SegmentRegister { base: 0, limit: 0, selector: 0, attributes: 0 },
        rip: 0,
        rflags: 0,
        rax: 0,
        rdx: 0,
        rcx: 0,
        rsi: 0,
        rdi: 0,
        optional: None,
    }
}

} // verus!
