//! Why a plane was left, and what that asks for.

use super::syndrome::{
    EsrEl2, HpfarEl2, InstructionAbortReason, IssDataAbort, IssInstructionAbort, IssSystem,
};
use crate::bytes;
use crate::rsi::cca_rsi_plane_exit;
use crate::sysreg::SystemReg;
use vstd::prelude::*;

verus! {

/// The register number that reads as zero and ignores writes.
pub const AARCH64_ZERO_REGISTER_INDEX: u8 = 31;

/// The virtual timer counts.
pub const CNTV_CTL_ENABLE: u64 = 1;

/// The interrupt of the virtual timer is masked.
pub const CNTV_CTL_IMASK: u64 = 2;

/// The condition of the virtual timer is met.
pub const CNTV_CTL_ISTATUS: u64 = 4;

/// The exit reason of a plane that was not entered.
pub const RSI_PLANE_EXIT_INVALID: u64 = 0xffff_ffff_ffff_ffff;

/// An exit that the paravisor cannot handle.
#[derive(Clone, Copy, Debug, PartialEq, Eq, Structural)]
pub enum CcaUnsupportedExit {
    ExitReason(u64),
    ExceptionClass { exception_class: u8, esr_el2: u64 },
    InvalidDataAbortIss(u64),
    InstructionAbort {
        esr_el2: u64,
        elr_el2: u64,
        far_el2: u64,
        fipa: u64,
        fipa_state: u8,
        ifsc: u8,
        reason: InstructionAbortReason,
        far_not_valid: bool,
    },
    InvalidPrivateGicInterrupt(u32),
    UnsupportedSystemRegister { system_reg: SystemReg, esr_el2: u64 },
    MissingSystemRegisterValue { system_reg: SystemReg, esr_el2: u64 },
}

/// Types of exceptions that can occur in the CCA plane,
/// and get reported back to use from the RMM.
#[derive(Clone, Copy, Debug, PartialEq, Eq, Structural)]
pub enum ExceptionClass {
    DataAbort,
    InstructionAbort,
    SimdAccess,
    SmcError,
    SystemRegister,
    Unknown(u8),
}

impl From<u8> for ExceptionClass {
    fn from(value: u8) -> (class: ExceptionClass) {
        match value {
            0x24 => ExceptionClass::DataAbort,
            0x20 => ExceptionClass::InstructionAbort,
            0x07 => ExceptionClass::SimdAccess,
            0x17 => ExceptionClass::SmcError,
            0x18 => ExceptionClass::SystemRegister,
            _ => ExceptionClass::Unknown(value),
        }
    }
}

impl vstd::std_specs::convert::FromSpecImpl<u8> for ExceptionClass {
    open spec fn obeys_from_spec() -> bool {
        true
    }

    open spec fn from_spec(value: u8) -> ExceptionClass {
        ExceptionClass::decode(value)
    }
}

impl ExceptionClass {
    /// The exception that a class number stands for.
    pub open spec fn decode(value: u8) -> ExceptionClass {
        if value == 0x24 {
            ExceptionClass::DataAbort
        } else if value == 0x20 {
            ExceptionClass::InstructionAbort
        } else if value == 0x07 {
            ExceptionClass::SimdAccess
        } else if value == 0x17 {
            ExceptionClass::SmcError
        } else if value == 0x18 {
            ExceptionClass::SystemRegister
        } else {
            ExceptionClass::Unknown(value)
        }
    }
}

/// The reason for a CCA plane exit, which can be either a synchronous event
/// (like an MMIO access or an exception) or an IRQ.
#[derive(Clone, Copy, Debug, PartialEq, Eq, Structural)]
pub enum PlaneExitReason {
    Sync,
    Irq,
    Unknown(u64),
}

impl From<u64> for PlaneExitReason {
    fn from(value: u64) -> (reason: PlaneExitReason) {
        match value {
            0 => PlaneExitReason::Sync,
            1 => PlaneExitReason::Irq,
            _ => PlaneExitReason::Unknown(value),
        }
    }
}

impl vstd::std_specs::convert::FromSpecImpl<u64> for PlaneExitReason {
    open spec fn obeys_from_spec() -> bool {
        true
    }

    open spec fn from_spec(value: u64) -> PlaneExitReason {
        PlaneExitReason::decode(value)
    }
}

impl PlaneExitReason {
    /// The reason that a number stands for.
    pub open spec fn decode(value: u64) -> PlaneExitReason {
        if value == 0 {
            PlaneExitReason::Sync
        } else if value == 1 {
            PlaneExitReason::Irq
        } else {
            PlaneExitReason::Unknown(value)
        }
    }
}

/// What an exit for an interrupt of the processor itself says.
#[derive(Clone, Copy, Debug, PartialEq, Eq, Structural)]
pub struct CcaLocalInterruptExit {
    pub exception_class: ExceptionClass,
    pub esr_el2: EsrEl2,
    /// The value that a trapped system register write would store.
    pub source_value: Option<u64>,
    pub exit_esr_el2: u64,
    pub virtual_timer_asserted: bool,
}

impl cca_rsi_plane_exit {
    /// The kind of exception.
    pub open spec fn class(&self) -> ExceptionClass {
        ExceptionClass::decode(EsrEl2(self.esr_el2).spec_ec())
    }

    /// A register of the plane, where register 31 is the zero register.
    pub open spec fn gpr(&self, index: u8) -> Option<u64> {
        if index == AARCH64_ZERO_REGISTER_INDEX {
            Some(0)
        } else if index < self.gprs@.len() {
            Some(self.gprs@[index as int])
        } else {
            None
        }
    }

    /// The value that a trapped system register access would store.
    pub open spec fn trap_value(&self) -> Option<u64> {
        self.gpr(IssSystem(EsrEl2(self.esr_el2).spec_iss()).spec_rt())
    }

    /// Whether the virtual timer counts, is not masked and has expired.
    pub open spec fn timer_asserted(&self) -> bool {
        self.cntv_ctl_el0 % 8 == 5
    }

    /// The faulting guest address: the page of HPFAR_EL2 and the offset of
    /// FAR_EL2.
    pub open spec fn fault_address(&self) -> u64 {
        (HpfarEl2(self.hpfar_el2).spec_fipa() * 0x1000 + self.far_el2 % 0x1000) as u64
    }

    /// What the exit says of an interrupt of the processor itself.
    pub open spec fn local_interrupt(&self) -> CcaLocalInterruptExit {
        CcaLocalInterruptExit {
            exception_class: self.class(),
            esr_el2: EsrEl2(self.esr_el2),
            source_value: if self.class() == ExceptionClass::SystemRegister {
                self.trap_value()
            } else {
                None
            },
            exit_esr_el2: self.esr_el2,
            virtual_timer_asserted: self.timer_asserted(),
        }
    }
}

/// A wrapper around the CCA RSI plane exit structure, providing methods to
/// access information regarding the exit of the plane.
pub struct CcaExit<'a>(pub &'a cca_rsi_plane_exit);

impl<'a> CcaExit<'a> {
    pub fn exit_reason(&self) -> (reason: PlaneExitReason)
        ensures
            reason == PlaneExitReason::decode(self.0.exit_reason),
    {
        PlaneExitReason::from(self.0.exit_reason)
    }

    pub fn esr_el2(&self) -> (esr: EsrEl2)
        ensures
            esr == EsrEl2(self.0.esr_el2),
    {
        EsrEl2(self.0.esr_el2)
    }

    pub fn esr_el2_class(&self) -> (class: ExceptionClass)
        ensures
            class == self.0.class(),
    {
        ExceptionClass::from(self.esr_el2().ec())
    }

    pub fn far_el2(&self) -> (far: u64)
        ensures
            far == self.0.far_el2,
    {
        self.0.far_el2
    }

    pub fn hpfar_el2(&self) -> (hpfar: HpfarEl2)
        ensures
            hpfar == HpfarEl2(self.0.hpfar_el2),
    {
        HpfarEl2(self.0.hpfar_el2)
    }

    pub fn elr_el2(&self) -> (elr: u64)
        ensures
            elr == self.0.elr_el2,
    {
        self.0.elr_el2
    }

    pub fn gpr_or_zero_register(&self, index: u8) -> (value: Option<u64>)
        ensures
            value == self.0.gpr(index),
    {
        if index == AARCH64_ZERO_REGISTER_INDEX {
            Some(0)
        } else if (index as usize) < self.0.gprs.len() {
            Some(self.0.gprs[index as usize])
        } else {
            None
        }
    }

    pub fn virtual_timer_asserted(&self) -> (asserted: bool)
        ensures
            asserted == self.0.timer_asserted(),
    {
        proof {
            let ctl = self.0.cntv_ctl_el0;
            assert((ctl & (1u64 | 2u64 | 4u64) == 1u64 | 4u64) == (ctl % 8 == 5)) by (bit_vector);
        }
        self.0.cntv_ctl_el0 & (CNTV_CTL_ENABLE | CNTV_CTL_IMASK | CNTV_CTL_ISTATUS)
            == CNTV_CTL_ENABLE | CNTV_CTL_ISTATUS
    }

    pub fn local_interrupt_exit(&self) -> (exit: CcaLocalInterruptExit)
        ensures
            exit == self.0.local_interrupt(),
    {
        let esr_el2 = self.esr_el2();
        let exception_class = self.esr_el2_class();
        let source_value = if exception_class == ExceptionClass::SystemRegister {
            let iss = IssSystem(esr_el2.iss());
            self.gpr_or_zero_register(iss.rt())
        } else {
            None
        };
        CcaLocalInterruptExit {
            exception_class,
            esr_el2,
            source_value,
            exit_esr_el2: self.0.esr_el2,
            virtual_timer_asserted: self.virtual_timer_asserted(),
        }
    }
}

/// The number of values that `len` bytes can hold, up to a 64-bit word.
fn values_in(len: usize) -> (values: u128)
    ensures
        len <= 8 ==> values == bytes::pow256(len as nat),
        len > 8 ==> values == 0x1_0000_0000_0000_0000,
{
    proof {
        bytes::lemma_pow256();
    }
    match len {
        0 => 1,
        1 => 0x100,
        2 => 0x1_0000,
        3 => 0x100_0000,
        4 => 0x1_0000_0000,
        5 => 0x100_0000_0000,
        6 => 0x1_0000_0000_0000,
        7 => 0x100_0000_0000_0000,
        _ => 0x1_0000_0000_0000_0000,
    }
}

/// The value of a word's low `len` bytes as a signed integer, in two's
/// complement of 64 bits.
pub open spec fn sign_extended(value: nat, len: nat) -> nat {
    let low = value % bytes::pow256(len);
    if low < bytes::pow256(len) / 2 {
        low
    } else {
        (low + 0x1_0000_0000_0000_0000 - bytes::pow256(len)) as nat
    }
}

/// What a register holds after a load of `len` bytes: the bytes themselves, or
/// their sign extension to the width of the register.
pub open spec fn loaded_value(data: Seq<u8>, len: nat, sign_extend: bool, sf: bool) -> nat {
    let value = bytes::le_value(data);
    if sign_extend {
        let extended = sign_extended(value, len);
        if sf {
            extended
        } else {
            extended % 0x1_0000_0000
        }
    } else if len < 8 {
        value % bytes::pow256(len)
    } else {
        value
    }
}

/// The value that an MMIO read of `len` bytes leaves in its register.
pub fn extend_mmio_read(data: [u8; 8], len: usize, sign_extend: bool, sf: bool) -> (value: u64)
    requires
        sign_extend ==> 1 <= len <= 8,
        len < 16,
    ensures
        value == loaded_value(data@, len as nat, sign_extend, sf),
{
    proof {
        bytes::lemma_pow256();
        bytes::lemma_le_value_bound(data@);
    }
    let value: u64 = bytes::read_le(&data);
    let values: u128 = values_in(len);
    let low: u128 = value as u128 % values;
    if sign_extend {
        let extended: u64 = if low < values / 2 {
            low as u64
        } else {
            (low + (0x1_0000_0000_0000_0000u128 - values)) as u64
        };
        if sf {
            extended
        } else {
            extended % 0x1_0000_0000
        }
    } else {
        low as u64
    }
}

/// The bytes that an MMIO write of `len` bytes stores.
pub fn mmio_write_bytes(value: u64, len: usize) -> (data: Vec<u8>)
    requires
        len <= 8,
    ensures
        data@ == bytes::le_bytes(value as nat, len as nat),
{
    let mut data: Vec<u8> = vec![0u8; len];
    bytes::write_le(data.as_mut_slice(), value);
    data
}

/// An MMIO read that the plane waits for.
#[derive(Clone, Copy, Debug, PartialEq, Eq, Structural)]
pub struct MmioRead {
    pub address: u64,
    pub len: usize,
    /// The register that gets the value.
    pub srt: u8,
    /// Whether the value is sign-extended.
    pub sse: bool,
    /// Whether the register is 64 bits wide.
    pub sf: bool,
}

/// An instruction that could not be fetched, at a known guest address.
#[derive(Clone, Copy, Debug, PartialEq, Eq, Structural)]
pub struct InstructionFault {
    pub esr_el2: u64,
    pub elr_el2: u64,
    pub far_el2: u64,
    pub fipa: u64,
    pub ifsc: u8,
}

/// What has to be done outside before the plane can go on.
#[derive(Clone, Copy, Debug, PartialEq, Eq, Structural)]
pub enum ExitAction {
    /// Nothing.
    Continue,
    /// Write the low `len` bytes of `value` to a device.
    WriteMmio { address: u64, value: u64, len: usize },
    /// The device access is dropped, for want of a register.
    SkipMmioWrite,
    /// Read from a device.
    ReadMmio(MmioRead),
    /// Find out the state of the faulting address.
    ReadIpaState(InstructionFault),
}

impl cca_rsi_plane_exit {
    /// What a data abort asks for.
    pub open spec fn data_abort(&self) -> Result<ExitAction, CcaUnsupportedExit> {
        let iss = IssDataAbort(EsrEl2(self.esr_el2).spec_iss());
        if !iss.spec_isv() {
            Err(CcaUnsupportedExit::InvalidDataAbortIss(self.esr_el2))
        } else if iss.spec_wnr() {
            match self.gpr(iss.spec_srt()) {
                Some(value) => Ok(
                    ExitAction::WriteMmio { address: self.far_el2, value, len: iss.spec_len() },
                ),
                None => Ok(ExitAction::SkipMmioWrite),
            }
        } else {
            Ok(
                ExitAction::ReadMmio(
                    MmioRead {
                        address: self.far_el2,
                        len: iss.spec_len(),
                        srt: iss.spec_srt(),
                        sse: iss.spec_sse(),
                        sf: iss.spec_sf(),
                    },
                ),
            )
        }
    }

    /// What an instruction abort asks for.
    pub open spec fn instruction_abort(&self) -> Result<ExitAction, CcaUnsupportedExit> {
        let iss = IssInstructionAbort(EsrEl2(self.esr_el2).spec_iss());
        if iss.spec_fnv() {
            Err(
                CcaUnsupportedExit::InstructionAbort {
                    esr_el2: self.esr_el2,
                    elr_el2: self.elr_el2,
                    far_el2: self.far_el2,
                    fipa: 0,
                    fipa_state: u8::MAX,
                    ifsc: iss.spec_ifsc(),
                    reason: InstructionAbortReason::decode(iss.spec_ifsc()),
                    far_not_valid: true,
                },
            )
        } else {
            Ok(
                ExitAction::ReadIpaState(
                    InstructionFault {
                        esr_el2: self.esr_el2,
                        elr_el2: self.elr_el2,
                        far_el2: self.far_el2,
                        fipa: self.fault_address(),
                        ifsc: iss.spec_ifsc(),
                    },
                ),
            )
        }
    }
}

impl<'a> CcaExit<'a> {
    /// What a data abort asks for.
    pub fn data_abort(&self) -> (action: Result<ExitAction, CcaUnsupportedExit>)
        ensures
            action == self.0.data_abort(),
    {
        // get the address that caused the data abort
        let address: u64 = self.far_el2();
        let iss = IssDataAbort(self.esr_el2().iss());
        if !iss.isv() {
            return Err(CcaUnsupportedExit::InvalidDataAbortIss(self.0.esr_el2));
        }
        let len: usize = iss.len();
        let srt: u8 = iss.srt();
        if iss.wnr() {
            match self.gpr_or_zero_register(srt) {
                Some(value) => Ok(ExitAction::WriteMmio { address, value, len }),
                None => Ok(ExitAction::SkipMmioWrite),
            }
        } else {
            Ok(ExitAction::ReadMmio(MmioRead { address, len, srt, sse: iss.sse(), sf: iss.sf() }))
        }
    }

    /// What an instruction abort asks for.
    pub fn instruction_abort(&self) -> (action: Result<ExitAction, CcaUnsupportedExit>)
        ensures
            action == self.0.instruction_abort(),
    {
        let iss = IssInstructionAbort(self.esr_el2().iss());
        if iss.fnv() {
            return Err(
                CcaUnsupportedExit::InstructionAbort {
                    esr_el2: self.0.esr_el2,
                    elr_el2: self.elr_el2(),
                    far_el2: self.far_el2(),
                    fipa: 0,
                    fipa_state: u8::MAX,
                    ifsc: iss.ifsc(),
                    reason: InstructionAbortReason::from_ifsc(iss.ifsc()),
                    far_not_valid: iss.fnv(),
                },
            );
        }
        let fipa: u64 = self.hpfar_el2().fipa() * 0x1000 + self.far_el2() % 0x1000;
        Ok(
            ExitAction::ReadIpaState(
                InstructionFault {
                    esr_el2: self.0.esr_el2,
                    elr_el2: self.elr_el2(),
                    far_el2: self.far_el2(),
                    fipa,
                    ifsc: iss.ifsc(),
                },
            ),
        )
    }
}

/// Why the driver could not say what state an address is in.
#[derive(Clone, Copy, Debug, PartialEq, Eq, Structural)]
pub struct GetIpaStateError(pub i32);

impl InstructionFault {
    /// The error of the fault, once the state of its address is known, as far
    /// as the driver gave one.
    pub open spec fn error(self, state: Result<Option<u64>, GetIpaStateError>) -> CcaUnsupportedExit {
        CcaUnsupportedExit::InstructionAbort {
            esr_el2: self.esr_el2,
            elr_el2: self.elr_el2,
            far_el2: self.far_el2,
            fipa: self.fipa,
            fipa_state: match state {
                Ok(Some(state)) => (state % 0x100) as u8,
                _ => u8::MAX,
            },
            ifsc: self.ifsc,
            reason: InstructionAbortReason::decode(self.ifsc),
            far_not_valid: false,
        }
    }

    pub fn with_ipa_state(self, state: Result<Option<u64>, GetIpaStateError>) -> (error:
        CcaUnsupportedExit)
        ensures
            error == self.error(state),
    {
        let fipa_state: u8 = match state {
            Ok(Some(state)) => (state % 0x100) as u8,
            // The state is unavailable.
            _ => u8::MAX,
        };
        CcaUnsupportedExit::InstructionAbort {
            esr_el2: self.esr_el2,
            elr_el2: self.elr_el2,
            far_el2: self.far_el2,
            fipa: self.fipa,
            fipa_state,
            ifsc: self.ifsc,
            reason: InstructionAbortReason::from_ifsc(self.ifsc),
            far_not_valid: false,
        }
    }
}

/// Every register number that fits the five bits of a syndrome names a register
/// of the plane or the zero register, so no device access is dropped.
pub proof fn syndrome_registers_exist(exit: cca_rsi_plane_exit)
    ensures
        exit.gpr(IssDataAbort(EsrEl2(exit.esr_el2).spec_iss()).spec_srt()) is Some,
        exit.trap_value() is Some,
        exit.data_abort() != Ok::<_, CcaUnsupportedExit>(ExitAction::SkipMmioWrite),
{
}

/// What a device gives for a read without sign extension, the register holds:
/// the bytes that were read and zeros above them.
pub proof fn plain_load_is_the_bytes(data: Seq<u8>, len: nat)
    requires
        len <= 8,
        data.len() == 8,
        forall|i: int| len <= i < 8 ==> data[i] == 0,
    ensures
        loaded_value(data, len, false, false) == bytes::le_value(data.take(len as int)),
{
    bytes::lemma_pow256();
    bytes::lemma_le_value_zero_extended(data.take(len as int), (8 - len) as nat);
    assert(data =~= data.take(len as int) + Seq::new((8 - len) as nat, |i: int| 0u8));
    bytes::lemma_le_value_bound(data.take(len as int));
    if len < 8 {
        vstd::arithmetic::div_mod::lemma_small_mod(bytes::le_value(data), bytes::pow256(len));
    }
}

/// A sign-extended load keeps the bytes that were read.
pub proof fn sign_extension_keeps_the_bytes(value: nat, len: nat)
    requires
        1 <= len <= 8,
    ensures
        sign_extended(value, len) < 0x1_0000_0000_0000_0000,
        sign_extended(value, len) % bytes::pow256(len) == value % bytes::pow256(len),
{
    bytes::lemma_pow256();
    assert(len == 1 || len == 2 || len == 3 || len == 4 || len == 5 || len == 6 || len == 7 || len
        == 8);
}

} // verus!
