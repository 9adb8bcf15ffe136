//! A virtual processor that runs in a plane: how it is entered, how its exits
//! are handled and how it gets its interrupts.

use super::exit;
use super::exit::{
    extend_mmio_read, CcaExit, CcaLocalInterruptExit, CcaUnsupportedExit,
    ExceptionClass, ExitAction, MmioRead, PlaneExitReason, AARCH64_ZERO_REGISTER_INDEX,
    RSI_PLANE_EXIT_INVALID,
};
use super::list_registers;
use super::list_registers::sgi_targets_current_vp;
use super::plane::ProcessorRunner;
use super::syndrome::{EsrEl2, IssSystem};
use super::vtl::GuestVtl;
use crate::bits;
use crate::gic::model::GicV3Model;
use crate::gic::registers::{GicrSgi, MpidrEl1, VpIndex};
use crate::memory_range::PAGE_SIZE;
use crate::rsi::{
    cca_rsi_plane_entry, cca_rsi_plane_exit, cca_rsi_plane_run, RSI_PLANE_ENTER_FLAGS_TRAP_SIMD,
    RSI_PLANE_NR_GPRS,
};
use crate::sysreg::{ICC_PMR_EL1, ICC_SGI1R_EL1};
use vstd::prelude::*;

verus! {

/// Traps the guest's accesses to the common registers of its interrupt
/// controller interface.
pub const ICH_HCR_TC: u64 = 0x400;

/// How many interrupts are private to a processor.
pub const GIC_PRIVATE_INTERRUPT_COUNT: u32 = 32;

/// Why an interrupt was not requested.
#[derive(Clone, Copy, Debug, PartialEq, Eq, Structural)]
pub enum CcaGicRequestError {
    InvalidIntid,
}

/// The private interrupts that a VTL waits for.
#[derive(Clone, Copy, Debug, PartialEq, Eq, Structural)]
pub struct CcaGic {
    /// One bit for each private interrupt.
    pub pending: u32,
    /// Interrupts of this priority value or a higher one are masked.
    pub priority_mask: u8,
}

impl CcaGic {
    pub fn new() -> (gic: CcaGic)
        ensures
            gic == (CcaGic { pending: 0, priority_mask: u8::MAX }),
    {
        CcaGic { pending: 0, priority_mask: u8::MAX }
    }

    /// Requests a private interrupt.
    pub fn request_interrupt(&mut self, intid: u32) -> (result: Result<(), CcaGicRequestError>)
        ensures
            result == (if intid < GIC_PRIVATE_INTERRUPT_COUNT {
                Ok::<(), CcaGicRequestError>(())
            } else {
                Err(CcaGicRequestError::InvalidIntid)
            }),
            *final(self) == (if intid < GIC_PRIVATE_INTERRUPT_COUNT {
                CcaGic { pending: old(self).pending | (1u32 << intid), ..*old(self) }
            } else {
                *old(self)
            }),
    {
        if intid >= GIC_PRIVATE_INTERRUPT_COUNT {
            return Err(CcaGicRequestError::InvalidIntid);
        }
        self.pending = self.pending | (1u32 << intid);
        Ok(())
    }

    /// The requested interrupts.
    pub fn pending_mask(&self) -> (pending: u32)
        ensures
            pending == self.pending,
    {
        self.pending
    }

    /// Takes back the request of an interrupt that was delivered.
    pub fn complete_interrupt(&mut self, intid: u32)
        ensures
            *final(self) == (if intid < GIC_PRIVATE_INTERRUPT_COUNT {
                CcaGic { pending: old(self).pending & !(1u32 << intid), ..*old(self) }
            } else {
                *old(self)
            }),
    {
        if intid < GIC_PRIVATE_INTERRUPT_COUNT {
            self.pending = self.pending & !(1u32 << intid);
        }
    }
}

/// A request concerns the interrupt that it names and no other, and completing
/// the interrupt undoes it.
pub proof fn requests_are_independent(pending: u32, intid: u32, other: u32)
    requires
        intid < GIC_PRIVATE_INTERRUPT_COUNT,
        other < GIC_PRIVATE_INTERRUPT_COUNT,
    ensures
        bits::bit(pending | (1u32 << intid), other) == (bits::bit(pending, other) || other
            == intid),
        bits::bit(pending & !(1u32 << intid), other) == (bits::bit(pending, other) && other
            != intid),
{
    bits::lemma_bit_update(pending, intid, other);
}

/// What a processor keeps for one of its VTLs.
#[derive(Clone, Copy, Debug, PartialEq, Eq, Structural)]
pub struct CcaVtl {
    pub sp_el0: u64,
    pub sp_el1: u64,
    pub cpsr: u64,
    pub gic: CcaGic,
}

impl CcaVtl {
    pub fn new() -> (vtl: CcaVtl)
        ensures
            vtl == (CcaVtl {
                sp_el0: 0,
                sp_el1: 0,
                cpsr: 0,
                gic: CcaGic { pending: 0, priority_mask: u8::MAX },
            }),
    {
        CcaVtl { sp_el0: 0, sp_el1: 0, cpsr: 0, gic: CcaGic::new() }
    }
}

/// Backing for CCA planes.
#[derive(Clone, Copy, Debug, PartialEq, Eq, Structural)]
pub struct CcaBacked {
    pub vtl0: CcaVtl,
    pub vtl1: CcaVtl,
    /// The VTL that the processor was in when it was left.
    pub exit_vtl: GuestVtl,
}

impl CcaBacked {
    /// The interrupts of a VTL.
    pub open spec fn spec_gic(self, vtl: GuestVtl) -> CcaGic {
        match vtl {
            GuestVtl::Vtl0 => self.vtl0.gic,
            GuestVtl::Vtl1 => self.vtl1.gic,
        }
    }

    /// With the interrupts of a VTL replaced.
    pub open spec fn with_gic(self, vtl: GuestVtl, gic: CcaGic) -> CcaBacked {
        match vtl {
            GuestVtl::Vtl0 => CcaBacked { vtl0: CcaVtl { gic, ..self.vtl0 }, ..self },
            GuestVtl::Vtl1 => CcaBacked { vtl1: CcaVtl { gic, ..self.vtl1 }, ..self },
        }
    }

    pub fn new() -> (backing: CcaBacked)
        ensures
            backing.spec_gic(GuestVtl::Vtl0) == (CcaGic { pending: 0, priority_mask: u8::MAX }),
            backing.spec_gic(GuestVtl::Vtl1) == (CcaGic { pending: 0, priority_mask: u8::MAX }),
            backing.vtl0 == backing.vtl1,
            backing.vtl0.sp_el0 == 0 && backing.vtl0.sp_el1 == 0 && backing.vtl0.cpsr == 0,
            backing.exit_vtl == GuestVtl::Vtl0,
    {
        CcaBacked { vtl0: CcaVtl::new(), vtl1: CcaVtl::new(), exit_vtl: GuestVtl::Vtl0 }
    }

    pub fn gic(&self, vtl: GuestVtl) -> (gic: CcaGic)
        ensures
            gic == self.spec_gic(vtl),
    {
        match vtl {
            GuestVtl::Vtl0 => self.vtl0.gic,
            GuestVtl::Vtl1 => self.vtl1.gic,
        }
    }

    pub fn set_gic(&mut self, vtl: GuestVtl, gic: CcaGic)
        ensures
            *final(self) == old(self).with_gic(vtl, gic),
    {
        match vtl {
            GuestVtl::Vtl0 => {
                self.vtl0.gic = gic;
            },
            GuestVtl::Vtl1 => {
                self.vtl1.gic = gic;
            },
        }
    }
}

/// What a processor remembers between the steps of an emulation, which is
/// nothing.
#[derive(Clone, Copy, Debug, Default)]
pub struct CcaEmulationCache;

/// What the processors of a partition share.
pub struct CcaBackedShared {
    pub gic: GicV3Model,
    /// The private interrupt of the virtual timer.
    pub virt_timer_ppi: u32,
}

impl CcaBackedShared {
    pub fn new(gic: Option<GicV3Model>, virt_timer_ppi: u32) -> (shared: CcaBackedShared)
        requires
            gic is Some,
        ensures
            shared == (CcaBackedShared { gic: gic->0, virt_timer_ppi }),
    {
        CcaBackedShared { gic: gic.unwrap(), virt_timer_ppi }
    }
}

/// The part of a partition that its processors look at.
#[derive(Clone, Copy, Debug, PartialEq, Eq, Structural)]
pub struct UhPartitionInner {
    /// Where the memory that is shared with the host starts.
    pub shared_addr_start: u64,
    /// Where the memory for commands to the host starts.
    pub shared_addr_start_command: u64,
}

/// A virtual processor of the paravisor.
pub struct UhProcessor {
    pub runner: ProcessorRunner,
    pub backing: CcaBacked,
    pub vp_index: VpIndex,
    pub mpidr: MpidrEl1,
    pub partition: UhPartitionInner,
}

/// The page with the context of the exit as the context of the next entry.
pub open spec fn preserved(run: cca_rsi_plane_run) -> cca_rsi_plane_run {
    cca_rsi_plane_run {
        entry: cca_rsi_plane_entry {
            gprs: run.exit.gprs,
            pc: run.exit.elr_el2,
            pstate: run.exit.pstate,
            gicv3_hcr: run.exit.gicv3_hcr,
            gicv3_lrs: run.exit.gicv3_lrs,
            ..run.entry
        },
        ..run
    }
}

/// Whether a trapped access writes a register that the paravisor emulates.
pub open spec fn is_emulated_write(iss: IssSystem) -> bool {
    !iss.spec_direction() && (iss.spec_system_reg().0 == ICC_PMR_EL1 || iss.spec_system_reg().0
        == ICC_SGI1R_EL1)
}

impl UhProcessor {
    pub open spec fn entry(self) -> cca_rsi_plane_entry {
        self.runner.state.plane_run.entry
    }

    pub open spec fn exit(self) -> cca_rsi_plane_exit {
        self.runner.state.plane_run.exit
    }

    pub open spec fn with_run(self, run: cca_rsi_plane_run) -> UhProcessor {
        UhProcessor { runner: self.runner.with_run(run), ..self }
    }

    pub open spec fn with_entry(self, entry: cca_rsi_plane_entry) -> UhProcessor {
        UhProcessor { runner: self.runner.with_entry(entry), ..self }
    }

    pub open spec fn with_gic(self, vtl: GuestVtl, gic: CcaGic) -> UhProcessor {
        UhProcessor { backing: self.backing.with_gic(vtl, gic), ..self }
    }

    /// With the instruction behind the current one as the next.
    pub open spec fn advanced(self) -> UhProcessor {
        self.with_entry(
            cca_rsi_plane_entry { pc: (self.entry().pc + 4) as u64, ..self.entry() },
        )
    }

    /// After a private interrupt was requested.
    pub open spec fn requested(self, vtl: GuestVtl, intid: u32) -> Result<
        UhProcessor,
        CcaUnsupportedExit,
    > {
        let gic = self.backing.spec_gic(vtl);
        if intid < GIC_PRIVATE_INTERRUPT_COUNT {
            Ok(self.with_gic(vtl, CcaGic { pending: gic.pending | (1u32 << intid), ..gic }))
        } else {
            Err(CcaUnsupportedExit::InvalidPrivateGicInterrupt(intid))
        }
    }

    /// After the guest asked for an SGI, which is requested if it names this
    /// very processor.
    pub open spec fn sgi_sent(self, value: u64) -> UhProcessor {
        let sgi = GicrSgi::decode(value);
        if list_registers::names_processor(sgi, self.mpidr) {
            self.requested(self.backing.exit_vtl, sgi.intid as u32)->Ok_0
        } else {
            self
        }
    }

    /// After a trapped system register access: writes of the priority mask and
    /// of SGI requests are emulated, and nothing else is.
    pub open spec fn trapped(self, iss: IssSystem, source_value: Option<u64>, esr_el2: u64) -> Result<
        UhProcessor,
        CcaUnsupportedExit,
    > {
        let system_reg = iss.spec_system_reg();
        let vtl = self.backing.exit_vtl;
        if !is_emulated_write(iss) {
            Err(CcaUnsupportedExit::UnsupportedSystemRegister { system_reg, esr_el2 })
        } else {
            match source_value {
                None => Err(CcaUnsupportedExit::MissingSystemRegisterValue { system_reg, esr_el2 }),
                Some(value) => if system_reg.0 == ICC_PMR_EL1 {
                    Ok(
                        self.with_gic(
                            vtl,
                            CcaGic {
                                priority_mask: (value % 0x100) as u8,
                                ..self.backing.spec_gic(vtl)
                            },
                        ).advanced(),
                    )
                } else {
                    Ok(self.sgi_sent(value).advanced())
                },
            }
        }
    }

    /// After an exit for an interrupt of the processor itself.
    pub open spec fn locally_interrupted(
        self,
        irq_exit: CcaLocalInterruptExit,
        virt_timer_ppi: u32,
    ) -> Result<UhProcessor, CcaUnsupportedExit> {
        if irq_exit.exception_class == ExceptionClass::SystemRegister {
            self.trapped(
                IssSystem(irq_exit.esr_el2.spec_iss()),
                irq_exit.source_value,
                irq_exit.exit_esr_el2,
            )
        } else if irq_exit.virtual_timer_asserted {
            self.requested(self.backing.exit_vtl, virt_timer_ppi)
        } else {
            Ok(self)
        }
    }

    /// The processor after its exit was looked at, and what has to be done
    /// outside; or why the exit cannot be handled.
    pub open spec fn exited(self, virt_timer_ppi: u32) -> Result<
        (UhProcessor, ExitAction),
        CcaUnsupportedExit,
    > {
        let exit = self.exit();
        let saved = self.with_run(preserved(self.runner.state.plane_run));
        match PlaneExitReason::decode(exit.exit_reason) {
            PlaneExitReason::Sync => match exit.class() {
                ExceptionClass::DataAbort => match exit.data_abort() {
                    Ok(action) => Ok((saved, action)),
                    Err(error) => Err(error),
                },
                ExceptionClass::InstructionAbort => match exit.instruction_abort() {
                    Ok(action) => Ok((saved, action)),
                    Err(error) => Err(error),
                },
                ExceptionClass::SimdAccess => Ok(
                    (
                        saved.with_entry(
                            cca_rsi_plane_entry {
                                flags: saved.entry().flags & !RSI_PLANE_ENTER_FLAGS_TRAP_SIMD,
                                ..saved.entry()
                            },
                        ),
                        ExitAction::Continue,
                    ),
                ),
                ExceptionClass::SmcError => Ok((saved, ExitAction::Continue)),
                ExceptionClass::SystemRegister => match saved.trapped(
                    IssSystem(EsrEl2(exit.esr_el2).spec_iss()),
                    exit.trap_value(),
                    exit.esr_el2,
                ) {
                    Ok(after) => Ok((after, ExitAction::Continue)),
                    Err(error) => Err(error),
                },
                ExceptionClass::Unknown(exception_class) => Err(
                    CcaUnsupportedExit::ExceptionClass { exception_class, esr_el2: exit.esr_el2 },
                ),
            },
            PlaneExitReason::Irq => match saved.locally_interrupted(
                exit.local_interrupt(),
                virt_timer_ppi,
            ) {
                Ok(after) => Ok((after, ExitAction::Continue)),
                Err(error) => Err(error),
            },
            PlaneExitReason::Unknown(reason) => Err(CcaUnsupportedExit::ExitReason(reason)),
        }
    }

    /// Whether handling the exit advances past an emulated instruction.
    pub open spec fn exit_advances(self) -> bool {
        let exit = self.exit();
        &&& PlaneExitReason::decode(exit.exit_reason) !is Unknown
        &&& exit.class() == ExceptionClass::SystemRegister
        &&& is_emulated_write(IssSystem(EsrEl2(exit.esr_el2).spec_iss()))
    }

    /// Prepares the entry of the plane.
    pub fn begin_run(&mut self)
        requires
            old(self).runner.state.has_address(),
        ensures
            *final(self) == (UhProcessor {
                runner: ProcessorRunner {
                    context: (old(self).runner.state.pfns@[0] * PAGE_SIZE) as u64,
                    ..old(self).runner.with_run(
                        cca_rsi_plane_run {
                            entry: cca_rsi_plane_entry {
                                gicv3_hcr: old(self).entry().gicv3_hcr | ICH_HCR_TC,
                                ..old(self).entry()
                            },
                            exit: cca_rsi_plane_exit {
                                exit_reason: RSI_PLANE_EXIT_INVALID,
                                ..old(self).exit()
                            },
                            ..old(self).runner.state.plane_run
                        },
                    )
                },
                ..*old(self)
            }),
    {
        self.set_plane_enter();
        self.runner.cca_rsi_plane_run_mut().exit.exit_reason = RSI_PLANE_EXIT_INVALID;
    }

    /// Points the kernel driver at the page of the plane, and has the accesses
    /// to its interrupt controller trapped.
    pub fn set_plane_enter(&mut self)
        requires
            old(self).runner.state.has_address(),
        ensures
            *final(self) == (UhProcessor {
                runner: ProcessorRunner {
                    context: (old(self).runner.state.pfns@[0] * PAGE_SIZE) as u64,
                    ..old(self).runner.with_entry(
                        cca_rsi_plane_entry {
                            gicv3_hcr: old(self).entry().gicv3_hcr | ICH_HCR_TC,
                            ..old(self).entry()
                        },
                    )
                },
                ..*old(self)
            }),
    {
        self.runner.cca_set_plane_enter();
        let entry = self.runner.cca_rsi_plane_entry();
        entry.gicv3_hcr = entry.gicv3_hcr | ICH_HCR_TC;
    }

    /// Handles the exit of the plane, if there was one: says what has to be
    /// done outside, or why the exit cannot be handled.
    #[verifier::rlimit(40)]
    pub fn handle_exit(&mut self, shared: &CcaBackedShared, intercepted: bool) -> (action: Result<
        ExitAction,
        CcaUnsupportedExit,
    >)
        requires
            intercepted && old(self).exit_advances() ==> old(self).exit().elr_el2 <= u64::MAX - 4,
        ensures
            if intercepted && old(self).exit().exit_reason != RSI_PLANE_EXIT_INVALID {
                match old(self).exited(shared.virt_timer_ppi) {
                    Ok((after, next)) => action == Ok::<_, CcaUnsupportedExit>(next) && *final(self)
                        == after,
                    Err(error) => action == Err::<ExitAction, _>(error) && *final(self) == old(
                        self,
                    ).with_run(preserved(old(self).runner.state.plane_run)),
                }
            } else {
                action == Ok::<_, CcaUnsupportedExit>(ExitAction::Continue) && *final(self)
                    == *old(self)
            },
    {
        if !intercepted || self.runner.cca_rsi_plane_exit().exit_reason == RSI_PLANE_EXIT_INVALID {
            return Ok(ExitAction::Continue);
        }
        // Preserve the plane context, so we can restore it later.
        self.preserve_plane_context();
        let cca_exit = CcaExit(self.runner.cca_rsi_plane_exit());
        let esr_el2 = cca_exit.esr_el2();
        match cca_exit.exit_reason() {
            PlaneExitReason::Sync => match cca_exit.esr_el2_class() {
                ExceptionClass::DataAbort => cca_exit.data_abort(),
                ExceptionClass::InstructionAbort => cca_exit.instruction_abort(),
                ExceptionClass::SimdAccess => {
                    self.runner.cca_plane_no_trap_simd();
                    Ok(ExitAction::Continue)
                },
                ExceptionClass::SmcError => Ok(ExitAction::Continue),
                ExceptionClass::SystemRegister => {
                    let iss = IssSystem(esr_el2.iss());
                    let source_value = cca_exit.gpr_or_zero_register(iss.rt());
                    let exit_esr_el2: u64 = cca_exit.0.esr_el2;
                    match self.handle_system_register_trap(iss, source_value, exit_esr_el2) {
                        Ok(()) => Ok(ExitAction::Continue),
                        Err(error) => Err(error),
                    }
                },
                ExceptionClass::Unknown(exception_class) => Err(
                    CcaUnsupportedExit::ExceptionClass {
                        exception_class,
                        esr_el2: cca_exit.0.esr_el2,
                    },
                ),
            },
            PlaneExitReason::Irq => {
                let irq_exit = cca_exit.local_interrupt_exit();
                match self.request_asserted_local_interrupts(shared, irq_exit) {
                    Ok(()) => Ok(ExitAction::Continue),
                    Err(error) => Err(error),
                }
            },
            PlaneExitReason::Unknown(exit_reason) => Err(
                CcaUnsupportedExit::ExitReason(exit_reason),
            ),
        }
    }

    /// Ends an MMIO write, with the instruction behind it as the next.
    pub fn finish_mmio_write(&mut self)
        requires
            old(self).entry().pc <= u64::MAX - 4,
        ensures
            *final(self) == old(self).advanced(),
    {
        let entry = self.runner.cca_rsi_plane_entry();
        entry.pc = entry.pc + 4;
    }

    /// Ends an MMIO read: its register gets what was read, and the instruction
    /// behind it is the next. What goes to the zero register is lost.
    pub fn finish_mmio_read(&mut self, read: MmioRead, data: [u8; 8])
        requires
            old(self).entry().pc <= u64::MAX - 4,
            read.srt < RSI_PLANE_NR_GPRS ==> 1 <= read.len <= 8,
        ensures
            final(self).runner.keeps_all_but_gprs(old(self).advanced().runner),
            *final(self) == (UhProcessor { runner: final(self).runner, ..*old(self) }),
            final(self).entry().gprs@ == (if read.srt < RSI_PLANE_NR_GPRS {
                old(self).entry().gprs@.update(
                    read.srt as int,
                    exit::loaded_value(data@, read.len as nat, read.sse, read.sf) as u64,
                )
            } else {
                old(self).entry().gprs@
            }),
    {
        if read.srt != AARCH64_ZERO_REGISTER_INDEX {
            if (read.srt as usize) < RSI_PLANE_NR_GPRS {
                let value: u64 = extend_mmio_read(data, read.len, read.sse, read.sf);
                self.runner.cca_set_entry_gpr(read.srt as usize, value);
            }
        }
        let entry = self.runner.cca_rsi_plane_entry();
        entry.pc = entry.pc + 4;
    }

    fn request_virtual_timer_interrupt(&mut self, shared: &CcaBackedShared, vtl: GuestVtl) -> (
    result: Result<(), CcaUnsupportedExit>)
        ensures
            match old(self).requested(vtl, shared.virt_timer_ppi) {
                Ok(after) => result is Ok && *final(self) == after,
                Err(error) => result == Err::<(), _>(error) && *final(self) == *old(self),
            },
    {
        self.request_gic_interrupt(vtl, shared.virt_timer_ppi)
    }

    fn request_asserted_local_interrupts(
        &mut self,
        shared: &CcaBackedShared,
        irq_exit: CcaLocalInterruptExit,
    ) -> (result: Result<(), CcaUnsupportedExit>)
        requires
            irq_exit.exception_class == ExceptionClass::SystemRegister && is_emulated_write(
                IssSystem(irq_exit.esr_el2.spec_iss()),
            ) ==> old(self).entry().pc <= u64::MAX - 4,
        ensures
            match old(self).locally_interrupted(irq_exit, shared.virt_timer_ppi) {
                Ok(after) => result is Ok && *final(self) == after,
                Err(error) => result == Err::<(), _>(error) && *final(self) == *old(self),
            },
    {
        if irq_exit.exception_class == ExceptionClass::SystemRegister {
            let iss = IssSystem(irq_exit.esr_el2.iss());
            self.handle_system_register_trap(iss, irq_exit.source_value, irq_exit.exit_esr_el2)
        } else if irq_exit.virtual_timer_asserted {
            let vtl = self.backing.exit_vtl;
            self.request_virtual_timer_interrupt(shared, vtl)
        } else {
            Ok(())
        }
    }

    fn handle_system_register_trap(
        &mut self,
        iss: IssSystem,
        source_value: Option<u64>,
        exit_esr_el2: u64,
    ) -> (result: Result<(), CcaUnsupportedExit>)
        requires
            is_emulated_write(iss) ==> old(self).entry().pc <= u64::MAX - 4,
        ensures
            match old(self).trapped(iss, source_value, exit_esr_el2) {
                Ok(after) => result is Ok && *final(self) == after,
                Err(error) => result == Err::<(), _>(error) && *final(self) == *old(self),
            },
    {
        let system_reg = iss.system_reg();
        let missing = CcaUnsupportedExit::MissingSystemRegisterValue {
            system_reg,
            esr_el2: exit_esr_el2,
        };
        if system_reg.0 == ICC_PMR_EL1 && !iss.direction() {
            let value: u64 = match source_value {
                Some(value) => value,
                None => return Err(missing),
            };
            let vtl = self.backing.exit_vtl;
            let mut gic = self.backing.gic(vtl);
            gic.priority_mask = (value % 0x100) as u8;
            self.backing.set_gic(vtl, gic);
            let entry = self.runner.cca_rsi_plane_entry();
            entry.pc = entry.pc + 4;
        } else if system_reg.0 == ICC_SGI1R_EL1 && !iss.direction() {
            let value: u64 = match source_value {
                Some(value) => value,
                None => return Err(missing),
            };
            if let Err(error) = self.handle_icc_sgi1r_el1_write(value) {
                return Err(error);
            }
            let entry = self.runner.cca_rsi_plane_entry();
            entry.pc = entry.pc + 4;
        } else {
            return Err(
                CcaUnsupportedExit::UnsupportedSystemRegister { system_reg, esr_el2: exit_esr_el2 },
            );
        }
        Ok(())
    }

    fn handle_icc_sgi1r_el1_write(&mut self, value: u64) -> (result: Result<(), CcaUnsupportedExit>)
        ensures
            result is Ok,
            *final(self) == old(self).sgi_sent(value),
    {
        let sgi = GicrSgi::from_bits(value);
        if sgi_targets_current_vp(sgi, self.mpidr) {
            let vtl = self.backing.exit_vtl;
            self.request_gic_interrupt(vtl, sgi.intid as u32)
        } else {
            Ok(())
        }
    }

    fn request_gic_interrupt(&mut self, vtl: GuestVtl, intid: u32) -> (result: Result<
        (),
        CcaUnsupportedExit,
    >)
        ensures
            match old(self).requested(vtl, intid) {
                Ok(after) => result is Ok && *final(self) == after,
                Err(error) => result == Err::<(), _>(error) && *final(self) == *old(self),
            },
    {
        let mut gic = self.backing.gic(vtl);
        match gic.request_interrupt(intid) {
            Ok(()) => {
                self.backing.set_gic(vtl, gic);
                Ok(())
            },
            Err(CcaGicRequestError::InvalidIntid) => Err(
                CcaUnsupportedExit::InvalidPrivateGicInterrupt(intid),
            ),
        }
    }

    /// Copy the exit context to the entry context.
    pub fn preserve_plane_context(&mut self)
        ensures
            *final(self) == old(self).with_run(preserved(old(self).runner.state.plane_run)),
    {
        let plane_run = self.runner.cca_rsi_plane_run_mut();
        // Copy GPRs across.
        plane_run.entry.gprs = plane_run.exit.gprs;
        // Set the PC to the ELR_EL2 value from the exit context.
        plane_run.entry.pc = plane_run.exit.elr_el2;
        // Restore the interrupted PSTATE, including the IRQ mask.
        plane_run.entry.pstate = plane_run.exit.pstate;
        // Preserve the virtual GIC state across plane exits.
        plane_run.entry.gicv3_hcr = plane_run.exit.gicv3_hcr;
        plane_run.entry.gicv3_lrs = plane_run.exit.gicv3_lrs;
    }

    /// Makes `target_vtl` the one that the processor runs in next.
    pub fn switch_vtl(&mut self, _source_vtl: GuestVtl, target_vtl: GuestVtl)
        ensures
            *final(self) == (UhProcessor {
                backing: CcaBacked { exit_vtl: target_vtl, ..old(self).backing },
                ..*old(self)
            }),
    {
        self.backing.exit_vtl = target_vtl;
    }
}

} // verus!
