//! Virtual processors in planes.

use cca_vmm::cca::exit::{
    extend_mmio_read, mmio_write_bytes, CcaExit, CcaUnsupportedExit, ExceptionClass, ExitAction,
    GetIpaStateError, MmioRead, PlaneExitReason,
};
use cca_vmm::cca::list_registers::{
    inject_virtual_interrupt, sgi_targets_current_vp, virtual_interrupt_is_listed, ICH_LR_ACTIVE,
    ICH_LR_PENDING, ICH_LR_STATE_MASK,
};
use cca_vmm::cca::plane::{
    encode_rsi_sysreg, mshv_realm_config, realm_config_reply, set_mem_perm_reply,
    sysreg_write_reply, Cca, Hcl, HvError, HvRegisterName, HvRegisterValue, MemoryBlock, MshvVtl,
    ProcessorRunner, SetRegError,
};
use cca_vmm::cca::processor::{
    CcaBacked, CcaBackedShared, CcaGic, CcaGicRequestError, UhPartitionInner, UhProcessor,
    GIC_PRIVATE_INTERRUPT_COUNT,
};
use cca_vmm::cca::syndrome::{EsrEl2, HpfarEl2, InstructionAbortReason, IssSystem};
use cca_vmm::cca::vp_state::{
    init_writes, intercept_message_state, set_system_registers, system_register_reads,
    system_registers, UhVpStateAccess,
};
use cca_vmm::cca::vtl::GuestVtl;
use cca_vmm::gic::interrupt::PendingInterrupt;
use cca_vmm::gic::model::GicV3Model;
use cca_vmm::gic::registers::{
    GicrSgi, MpidrEl1, VpIndex, GICD_CTLR, GICD_IGROUPR, GICD_ISENABLER, GICR_IGROUPR0,
    GICR_ISENABLER0,
};
use cca_vmm::memory_range::MemoryRange;
use cca_vmm::rsi::{
    cca_realm_config, cca_rsi_plane_entry, cca_rsi_plane_exit, cca_rsi_plane_run, CcaMemPermIndex,
};
use cca_vmm::sysreg::{SystemReg, ICC_PMR_EL1, ICC_SGI1R_EL1, SCTLR_EL1, VBAR_EL1};
use cca_vmm::topology::{Aarch64Topology, GicVersion};

fn sgi_for(mpidr: MpidrEl1) -> GicrSgi {
    GicrSgi::new()
        .with_aff3(mpidr.aff3)
        .with_aff2(mpidr.aff2)
        .with_aff1(mpidr.aff1)
        .with_rs(mpidr.aff0 / 16)
        .with_target_list(1 << (mpidr.aff0 % 16))
}

#[test]
fn private_interrupt_queue_rejects_non_private_intid() {
    let mut gic = CcaGic::new();

    assert_eq!(
        gic.request_interrupt(GIC_PRIVATE_INTERRUPT_COUNT),
        Err(CcaGicRequestError::InvalidIntid)
    );
    assert_eq!(gic.pending_mask(), 0);
}

#[test]
fn private_interrupt_bitmap_holds_every_private_intid() {
    let mut gic = CcaGic::new();

    for intid in 0..GIC_PRIVATE_INTERRUPT_COUNT {
        assert_eq!(gic.request_interrupt(intid), Ok(()));
    }
    assert_eq!(gic.pending_mask(), u32::MAX);

    const COMPLETED_INTID: u32 = 17;
    gic.complete_interrupt(COMPLETED_INTID);
    assert_eq!(gic.pending_mask(), u32::MAX & !(1 << COMPLETED_INTID));

    assert_eq!(gic.request_interrupt(COMPLETED_INTID), Ok(()));
    assert_eq!(gic.pending_mask(), u32::MAX);
}

#[test]
fn reinjecting_active_interrupt_marks_it_pending() {
    const INTID: u32 = 7;
    let mut lrs = [ICH_LR_ACTIVE | u64::from(INTID)];

    assert!(inject_virtual_interrupt(
        &mut lrs,
        PendingInterrupt {
            intid: INTID,
            priority: 0x80,
            group1: true,
        }
    ));
    assert_eq!(lrs[0] & ICH_LR_STATE_MASK, ICH_LR_ACTIVE | ICH_LR_PENDING);
}

#[test]
fn sgi_target_matches_current_vp() {
    let mpidr = MpidrEl1::new()
        .with_aff3(4)
        .with_aff2(3)
        .with_aff1(2)
        .with_aff0(17);

    assert!(sgi_targets_current_vp(sgi_for(mpidr), mpidr));
}

#[test]
fn sgi_target_rejects_other_vps() {
    let mpidr = MpidrEl1::new()
        .with_aff3(4)
        .with_aff2(3)
        .with_aff1(2)
        .with_aff0(1);
    let matching = sgi_for(mpidr);

    assert!(!sgi_targets_current_vp(matching.with_aff1(1), mpidr));
    assert!(!sgi_targets_current_vp(
        matching.with_target_list(1 << 2),
        mpidr
    ));
    assert!(!sgi_targets_current_vp(matching.with_rs(1), mpidr));
    assert!(!sgi_targets_current_vp(matching.with_irm(true), mpidr));
}

#[test]
fn injection_takes_the_first_free_register() {
    let mut lrs = [ICH_LR_PENDING | 3, 0, 0];
    let interrupt = PendingInterrupt {
        intid: 40,
        priority: 0x80,
        group1: true,
    };
    assert!(inject_virtual_interrupt(&mut lrs, interrupt));
    assert_eq!(lrs, [ICH_LR_PENDING | 3, 0x5080_0000_0000_0028, 0]);
    assert!(virtual_interrupt_is_listed(&lrs, 40));
    assert!(!virtual_interrupt_is_listed(&lrs, 41));
    // Injecting it again changes nothing.
    assert!(inject_virtual_interrupt(&mut lrs, interrupt));
    assert_eq!(lrs, [ICH_LR_PENDING | 3, 0x5080_0000_0000_0028, 0]);
}

#[test]
fn full_list_registers_refuse_an_interrupt() {
    let mut lrs = [ICH_LR_PENDING | 3, ICH_LR_ACTIVE | 4];
    let interrupt = PendingInterrupt {
        intid: 5,
        priority: 0,
        group1: false,
    };
    assert!(!inject_virtual_interrupt(&mut lrs, interrupt));
    assert_eq!(lrs, [ICH_LR_PENDING | 3, ICH_LR_ACTIVE | 4]);
}

#[test]
fn loads_are_extended_to_their_register() {
    let data = [0x80, 0xff, 0xff, 0xff, 0xff, 0xff, 0xff, 0xff];
    assert_eq!(extend_mmio_read(data, 1, false, true), 0x80);
    assert_eq!(extend_mmio_read(data, 1, true, true), 0xffff_ffff_ffff_ff80);
    assert_eq!(extend_mmio_read(data, 1, true, false), 0xffff_ff80);
    assert_eq!(extend_mmio_read(data, 4, false, false), 0xffff_ff80);
    assert_eq!(extend_mmio_read(data, 8, false, true), 0xffff_ffff_ffff_ff80);
    let data = [0x7f, 0, 0, 0, 0, 0, 0, 0];
    assert_eq!(extend_mmio_read(data, 1, true, true), 0x7f);
    assert_eq!(mmio_write_bytes(0x1122_3344, 2), [0x44, 0x33]);
}

#[test]
fn exception_classes_and_exit_reasons() {
    assert_eq!(ExceptionClass::from(0x24), ExceptionClass::DataAbort);
    assert_eq!(ExceptionClass::from(0x20), ExceptionClass::InstructionAbort);
    assert_eq!(ExceptionClass::from(0x07), ExceptionClass::SimdAccess);
    assert_eq!(ExceptionClass::from(0x17), ExceptionClass::SmcError);
    assert_eq!(ExceptionClass::from(0x18), ExceptionClass::SystemRegister);
    assert_eq!(ExceptionClass::from(0x25), ExceptionClass::Unknown(0x25));
    assert_eq!(PlaneExitReason::from(0), PlaneExitReason::Sync);
    assert_eq!(PlaneExitReason::from(1), PlaneExitReason::Irq);
    assert_eq!(PlaneExitReason::from(2), PlaneExitReason::Unknown(2));
}

fn empty_run() -> cca_rsi_plane_run {
    cca_rsi_plane_run::from_bytes(&[0; 0x1000])
}

fn processor(run: cca_rsi_plane_run) -> UhProcessor {
    UhProcessor {
        runner: ProcessorRunner {
            hcl: Hcl {
                mshv_vtl: MshvVtl { fd: 5 },
            },
            state: Cca {
                plane_run: run,
                pfns: vec![0x1234],
            },
            context: 0,
        },
        backing: CcaBacked::new(),
        vp_index: VpIndex::new(0),
        mpidr: MpidrEl1::from_bits(0x8000_0000),
        partition: UhPartitionInner {
            shared_addr_start: 0x7000,
            shared_addr_start_command: 0x8000,
        },
    }
}

fn model() -> GicV3Model {
    let topology = Aarch64Topology {
        mpidrs: vec![0],
        gic_version: GicVersion::V3 {
            redistributors_base: 0x2000_0000,
        },
        gic_distributor_base: 0x1000_0000,
        gic_nr_irqs: 96,
    };
    let mut model = GicV3Model::new(&topology).unwrap();
    for (address, value) in [
        (0x1000_0000 + u64::from(GICD_CTLR), 2u32),
        (0x1000_0000 + u64::from(GICD_IGROUPR) + 4, u32::MAX),
        (0x1000_0000 + u64::from(GICD_ISENABLER) + 4, u32::MAX),
        (0x2001_0000 + u64::from(GICR_IGROUPR0), u32::MAX),
        (0x2001_0000 + u64::from(GICR_ISENABLER0), u32::MAX),
    ] {
        assert!(model.write(address, &value.to_ne_bytes()));
    }
    model
}

fn shared() -> CcaBackedShared {
    CcaBackedShared::new(Some(model()), 27)
}

/// The syndrome of a data abort: `sas` is the size, and `srt` the register.
fn data_abort(sas: u64, srt: u64, write: bool) -> u64 {
    (0x24 << 26) | (1 << 24) | (sas << 22) | (srt << 16) | (1 << 15) | (u64::from(write) << 6)
}

/// The syndrome of a trapped write of a system register from register `rt`.
fn sysreg_trap(reg: u16, rt: u64, read: bool) -> u64 {
    let reg = SystemReg(reg);
    (0x18 << 26)
        | (u64::from(reg.op0()) << 20)
        | (u64::from(reg.op2()) << 17)
        | (u64::from(reg.op1()) << 14)
        | (u64::from(reg.crn()) << 10)
        | (rt << 5)
        | (u64::from(reg.crm()) << 1)
        | u64::from(read)
}

#[test]
fn entering_points_the_driver_at_the_page() {
    let mut vp = processor(empty_run());
    vp.begin_run();
    assert_eq!(vp.runner.context, 0x123_4000);
    assert_eq!(vp.runner.state.plane_run.entry.gicv3_hcr, 0x400);
    assert_eq!(vp.runner.state.plane_run.exit.exit_reason, u64::MAX);
    // The plane was not entered: nothing is to be done.
    assert_eq!(vp.handle_exit(&shared(), true), Ok(ExitAction::Continue));
    assert_eq!(vp.runner.state.plane_run.entry.pc, 0);
}

#[test]
fn exit_context_is_preserved() {
    let mut run = empty_run();
    run.exit.exit_reason = 0;
    run.exit.esr_el2 = 0x17 << 26;
    run.exit.elr_el2 = 0x4000;
    run.exit.pstate = 0x5;
    run.exit.gprs[3] = 33;
    run.exit.gicv3_hcr = 7;
    run.exit.gicv3_lrs[2] = 22;
    let mut vp = processor(run);
    assert_eq!(vp.handle_exit(&shared(), true), Ok(ExitAction::Continue));
    let entry = &vp.runner.state.plane_run.entry;
    assert_eq!(entry.pc, 0x4000);
    assert_eq!(entry.pstate, 0x5);
    assert_eq!(entry.gprs[3], 33);
    assert_eq!(entry.gicv3_hcr, 7);
    assert_eq!(entry.gicv3_lrs[2], 22);
}

#[test]
fn mmio_write_is_asked_for_and_finished() {
    let mut run = empty_run();
    run.exit.exit_reason = 0;
    run.exit.esr_el2 = data_abort(2, 4, true);
    run.exit.far_el2 = 0xffff_0000;
    run.exit.elr_el2 = 0x4000;
    run.exit.gprs[4] = 0xabcd;
    let mut vp = processor(run);
    assert_eq!(
        vp.handle_exit(&shared(), true),
        Ok(ExitAction::WriteMmio {
            address: 0xffff_0000,
            value: 0xabcd,
            len: 4
        })
    );
    vp.finish_mmio_write();
    assert_eq!(vp.runner.state.plane_run.entry.pc, 0x4004);
}

#[test]
fn mmio_read_fills_its_register() {
    let mut run = empty_run();
    run.exit.exit_reason = 0;
    run.exit.esr_el2 = data_abort(1, 9, false);
    run.exit.far_el2 = 0x1000_0000;
    run.exit.elr_el2 = 0x4000;
    let mut vp = processor(run);
    let read = MmioRead {
        address: 0x1000_0000,
        len: 2,
        srt: 9,
        sse: false,
        sf: true,
    };
    assert_eq!(vp.handle_exit(&shared(), true), Ok(ExitAction::ReadMmio(read)));
    vp.finish_mmio_read(read, [0x34, 0x12, 0, 0, 0, 0, 0, 0]);
    assert_eq!(vp.runner.state.plane_run.entry.gprs[9], 0x1234);
    assert_eq!(vp.runner.state.plane_run.entry.pc, 0x4004);
    // The zero register takes nothing.
    let zero = MmioRead { srt: 31, ..read };
    vp.finish_mmio_read(zero, [0xff; 8]);
    assert_eq!(vp.runner.state.plane_run.entry.gprs[30], 0);
    assert_eq!(vp.runner.state.plane_run.entry.pc, 0x4008);
}

#[test]
fn write_of_the_zero_register_stores_zero() {
    let mut run = empty_run();
    run.exit.esr_el2 = data_abort(3, 31, true);
    run.exit.far_el2 = 0x5000;
    assert_eq!(
        CcaExit(&run.exit).data_abort(),
        Ok(ExitAction::WriteMmio {
            address: 0x5000,
            value: 0,
            len: 8
        })
    );
}

#[test]
fn unsupported_exits() {
    let mut run = empty_run();
    run.exit.exit_reason = 7;
    let mut vp = processor(run);
    assert_eq!(
        vp.handle_exit(&shared(), true),
        Err(CcaUnsupportedExit::ExitReason(7))
    );

    let mut run = empty_run();
    run.exit.esr_el2 = 0x3f << 26;
    let mut vp = processor(run);
    assert_eq!(
        vp.handle_exit(&shared(), true),
        Err(CcaUnsupportedExit::ExceptionClass {
            exception_class: 0x3f,
            esr_el2: 0x3f << 26
        })
    );

    let mut run = empty_run();
    run.exit.esr_el2 = 0x24 << 26;
    let mut vp = processor(run);
    assert_eq!(
        vp.handle_exit(&shared(), true),
        Err(CcaUnsupportedExit::InvalidDataAbortIss(0x24 << 26))
    );
    // Without an exit nothing is looked at.
    assert_eq!(vp.handle_exit(&shared(), false), Ok(ExitAction::Continue));
}

#[test]
fn instruction_abort_names_the_faulting_address() {
    let mut run = empty_run();
    run.exit.esr_el2 = (0x20 << 26) | 0x07;
    run.exit.elr_el2 = 0x1111;
    run.exit.far_el2 = 0x2_2345;
    run.exit.hpfar_el2 = 0x847f << 4;
    let mut vp = processor(run);
    let action = vp.handle_exit(&shared(), true).unwrap();
    let ExitAction::ReadIpaState(fault) = action else {
        panic!("no instruction fault");
    };
    assert_eq!(fault.fipa, 0x847_f345);
    let error = fault.with_ipa_state(Ok(Some(0x102)));
    assert_eq!(
        error,
        CcaUnsupportedExit::InstructionAbort {
            esr_el2: (0x20 << 26) | 0x07,
            elr_el2: 0x1111,
            far_el2: 0x2_2345,
            fipa: 0x847_f345,
            fipa_state: 2,
            ifsc: 7,
            reason: InstructionAbortReason::Translation(3),
            far_not_valid: false,
        }
    );
    let CcaUnsupportedExit::InstructionAbort { fipa_state, .. } =
        fault.with_ipa_state(Err(GetIpaStateError(22)))
    else {
        panic!("no instruction abort");
    };
    assert_eq!(fipa_state, u8::MAX);
}

#[test]
fn instruction_abort_without_an_address() {
    let mut run = empty_run();
    run.exit.esr_el2 = (0x20 << 26) | (1 << 10) | 0x10;
    let mut vp = processor(run);
    assert_eq!(
        vp.handle_exit(&shared(), true),
        Err(CcaUnsupportedExit::InstructionAbort {
            esr_el2: (0x20 << 26) | (1 << 10) | 0x10,
            elr_el2: 0,
            far_el2: 0,
            fipa: 0,
            fipa_state: u8::MAX,
            ifsc: 0x10,
            reason: InstructionAbortReason::External,
            far_not_valid: true,
        })
    );
}

#[test]
fn simd_access_is_no_longer_trapped() {
    let mut run = empty_run();
    run.entry.flags = 0x11;
    run.exit.esr_el2 = 0x07 << 26;
    let mut vp = processor(run);
    assert_eq!(vp.handle_exit(&shared(), true), Ok(ExitAction::Continue));
    assert_eq!(vp.runner.state.plane_run.entry.flags, 0x01);
}

#[test]
fn priority_mask_write_is_emulated() {
    let mut run = empty_run();
    run.exit.esr_el2 = sysreg_trap(ICC_PMR_EL1, 2, false);
    run.exit.gprs[2] = 0x1f0;
    run.exit.elr_el2 = 0x100;
    let mut vp = processor(run);
    assert_eq!(vp.handle_exit(&shared(), true), Ok(ExitAction::Continue));
    assert_eq!(vp.backing.gic(GuestVtl::Vtl0).priority_mask, 0xf0);
    assert_eq!(vp.backing.gic(GuestVtl::Vtl1).priority_mask, 0xff);
    assert_eq!(vp.runner.state.plane_run.entry.pc, 0x104);
}

#[test]
fn self_sgi_is_requested() {
    let mut run = empty_run();
    run.exit.exit_reason = 1;
    run.exit.esr_el2 = sysreg_trap(ICC_SGI1R_EL1, 3, false);
    run.exit.gprs[3] = GicrSgi::new().with_target_list(1).with_intid(5).into_bits();
    let mut vp = processor(run);
    assert_eq!(vp.handle_exit(&shared(), true), Ok(ExitAction::Continue));
    assert_eq!(vp.backing.gic(GuestVtl::Vtl0).pending_mask(), 1 << 5);
}

#[test]
fn sgi_for_others_is_ignored() {
    let mut run = empty_run();
    run.exit.esr_el2 = sysreg_trap(ICC_SGI1R_EL1, 3, false);
    run.exit.gprs[3] = GicrSgi::new().with_target_list(2).with_intid(5).into_bits();
    let mut vp = processor(run);
    assert_eq!(vp.handle_exit(&shared(), true), Ok(ExitAction::Continue));
    assert_eq!(vp.backing.gic(GuestVtl::Vtl0).pending_mask(), 0);
    assert_eq!(vp.runner.state.plane_run.entry.pc, 4);
}

#[test]
fn other_system_registers_are_not_emulated() {
    let esr_el2 = sysreg_trap(ICC_PMR_EL1, 2, true);
    let mut run = empty_run();
    run.exit.esr_el2 = esr_el2;
    let mut vp = processor(run);
    assert_eq!(
        vp.handle_exit(&shared(), true),
        Err(CcaUnsupportedExit::UnsupportedSystemRegister {
            system_reg: SystemReg(ICC_PMR_EL1),
            esr_el2
        })
    );
    assert_eq!(
        IssSystem(EsrEl2(esr_el2).iss()).system_reg(),
        SystemReg(ICC_PMR_EL1)
    );
}

#[test]
fn expired_timer_is_requested() {
    let mut run = empty_run();
    run.exit.exit_reason = 1;
    run.exit.cntv_ctl_el0 = 5;
    let mut vp = processor(run);
    assert_eq!(vp.handle_exit(&shared(), true), Ok(ExitAction::Continue));
    assert_eq!(vp.backing.gic(GuestVtl::Vtl0).pending_mask(), 1 << 27);

    // A masked timer is not.
    let mut run = empty_run();
    run.exit.exit_reason = 1;
    run.exit.cntv_ctl_el0 = 7;
    let mut vp = processor(run);
    assert_eq!(vp.handle_exit(&shared(), true), Ok(ExitAction::Continue));
    assert_eq!(vp.backing.gic(GuestVtl::Vtl0).pending_mask(), 0);

    // Nor is one that is no private interrupt.
    let mut run = empty_run();
    run.exit.exit_reason = 1;
    run.exit.cntv_ctl_el0 = 5;
    let mut vp = processor(run);
    let shared = CcaBackedShared::new(Some(model()), 32);
    assert_eq!(
        vp.handle_exit(&shared, true),
        Err(CcaUnsupportedExit::InvalidPrivateGicInterrupt(32))
    );
}

#[test]
fn interrupts_are_injected_in_their_order() {
    let mut vp = processor(empty_run());
    let mut shared = shared();
    let mut gic = vp.backing.gic(GuestVtl::Vtl0);
    gic.request_interrupt(27).unwrap();
    gic.request_interrupt(5).unwrap();
    vp.backing.set_gic(GuestVtl::Vtl0, gic);
    shared.gic.set_spi_irq(40, true);
    let mut first_scan_irr = true;
    assert!(!vp.process_interrupts(&mut shared, &mut first_scan_irr));
    assert!(!first_scan_irr);
    let lrs = vp.runner.state.plane_run.entry.gicv3_lrs;
    assert_eq!(lrs[0] & 0xffff_ffff, 5);
    assert_eq!(lrs[1] & 0xffff_ffff, 27);
    assert_eq!(lrs[2] & 0xffff_ffff, 40);
    assert_eq!(lrs[3], 0);
    assert_eq!(vp.backing.gic(GuestVtl::Vtl0).pending_mask(), 0);

    // In flight: not again.
    vp.poll_gic(&mut shared, GuestVtl::Vtl0);
    assert_eq!(vp.runner.state.plane_run.entry.gicv3_lrs, lrs);

    // The guest ends the shared interrupt, whose line is still high.
    vp.runner.state.plane_run.entry.gicv3_lrs[2] = 0;
    vp.poll_gic(&mut shared, GuestVtl::Vtl0);
    assert_eq!(vp.runner.state.plane_run.entry.gicv3_lrs, lrs);
}

#[test]
fn interrupts_wait_for_a_list_register() {
    let mut run = empty_run();
    for (i, lr) in run.entry.gicv3_lrs.iter_mut().enumerate() {
        *lr = ICH_LR_PENDING | (64 + i as u64);
    }
    let mut vp = processor(run);
    let mut shared = shared();
    shared.gic.set_spi_irq(40, true);
    vp.poll_gic(&mut shared, GuestVtl::Vtl0);
    assert!(!virtual_interrupt_is_listed(
        &vp.runner.state.plane_run.entry.gicv3_lrs,
        40
    ));
    vp.runner.state.plane_run.entry.gicv3_lrs[7] = 0;
    vp.poll_gic(&mut shared, GuestVtl::Vtl0);
    assert!(virtual_interrupt_is_listed(
        &vp.runner.state.plane_run.entry.gicv3_lrs,
        40
    ));
}

#[test]
fn registers_are_read_as_they_were_set() {
    let mut vp = processor(empty_run());
    let access = UhVpStateAccess::new(&mut vp, GuestVtl::Vtl0);
    assert_eq!(access.shared_address_start, 0x7000);
    assert_eq!(access.shared_address_start_command, 0x8000);
    let mut registers = access.vp.registers();
    registers.x0 = 1;
    registers.x28 = 28;
    registers.fp = 29;
    registers.lr = 30;
    registers.pc = 0x8000;
    access.vp.set_registers(&registers);
    assert_eq!(access.vp.registers(), registers);
    assert_eq!(vp.runner.state.plane_run.entry.pstate, 0x3c5);
    assert_eq!(vp.runner.state.plane_run.entry.flags, 0x10);
}

#[test]
fn system_registers_are_written_in_the_order_of_reading() {
    let names = system_register_reads();
    assert_eq!(names[0], SystemReg(SCTLR_EL1));
    assert_eq!(names[8], SystemReg(VBAR_EL1));
    let registers = system_registers(&[1, 2, 3, 4, 5, 6, 7, 8, 9]);
    let writes = set_system_registers(&registers);
    for i in 0..9 {
        assert_eq!(writes[i], (names[i], i as u64 + 1));
    }
    assert_eq!(
        init_writes(),
        [(SystemReg(0xdce0), 0x40), (SystemReg(0x8012), 0x800)]
    );
    assert_eq!(intercept_message_state().rip, 0);
    assert_eq!(intercept_message_state().optional, None);
}

#[test]
fn named_registers_are_loaded_as_stored() {
    let mut runner = processor(empty_run()).runner;
    let name = HvRegisterName(0x2_0003);
    let value = HvRegisterValue { low: 77, high: 0 };
    assert!(Cca::try_set_reg(&mut runner, GuestVtl::Vtl0, name, value));
    assert_eq!(Cca::try_get_reg(&runner, GuestVtl::Vtl0, name), Some(value));
    let other = HvRegisterName(0x2_001f);
    assert!(!Cca::try_set_reg(&mut runner, GuestVtl::Vtl0, other, value));
    assert_eq!(Cca::try_get_reg(&runner, GuestVtl::Vtl0, other), None);
    assert!(!Cca::must_flush_regs_on(&runner, name));
}

#[test]
fn switching_vtls_is_remembered() {
    let mut vp = processor(empty_run());
    vp.switch_vtl(GuestVtl::Vtl0, GuestVtl::Vtl1);
    assert_eq!(vp.backing.exit_vtl, GuestVtl::Vtl1);
}

#[test]
fn page_is_read_as_it_was_written() {
    let mut run = empty_run();
    run.entry.pc = 0x1122_3344_5566_7788;
    run.entry.gprs[30] = 30;
    run.exit.cntv_ctl_el0 = 5;
    let page = run.to_bytes();
    assert_eq!(page.len(), 0x1000);
    assert_eq!(&page[8..16], &[0x88, 0x77, 0x66, 0x55, 0x44, 0x33, 0x22, 0x11]);
    assert_eq!(page[0x1f0], 30);
    assert_eq!(page[0x800 + 0x3a8], 5);
    let block = MemoryBlock {
        data: page,
        offset_in_page: 0,
        pfns: vec![9],
    };
    let cca = Cca::new(&block);
    assert_eq!(cca.plane_run.entry.pc, 0x1122_3344_5566_7788);
    assert_eq!(cca.plane_run.exit.cntv_ctl_el0, 5);
    assert_eq!(cca.plane_run_phys(), 9 * 4096);
    let entry = cca_rsi_plane_entry::from_bytes(&cca.plane_run.entry.to_bytes());
    assert_eq!(entry.gprs[30], 30);
    let exit = cca_rsi_plane_exit::from_bytes(&cca.plane_run.exit.to_bytes());
    assert_eq!(exit.cntv_ctl_el0, 5);
    let config = cca_realm_config::from_bytes(&cca_realm_config::empty().to_bytes());
    assert_eq!(config.ipa_width, 0);
    assert_eq!(CcaMemPermIndex::default(), CcaMemPermIndex::Index14);
}

#[test]
fn driver_requests_and_replies() {
    let hcl = Hcl {
        mshv_vtl: MshvVtl { fd: 3 },
    };
    let request = hcl.rsi_set_mem_perm(GuestVtl::Vtl0, MemoryRange::new(0x1000, 0x3000));
    assert_eq!(request.fd, 3);
    assert_eq!(request.argument.plane, 1);
    assert_eq!(request.argument.base_addr, 0x1000);
    assert_eq!(request.argument.top_addr, 0x3000);
    let runner = processor(empty_run()).runner;
    let request = runner.cca_sysreg_write(GuestVtl::Vtl0, SystemReg(SCTLR_EL1), 9);
    assert_eq!(request.fd, 5);
    assert_eq!(request.argument.sysreg, 0xc080);
    assert_eq!(request.argument.value, 9);
    assert_eq!(encode_rsi_sysreg(SystemReg::new(3, 0, 12, 12, 5)), 0xc665);
    let config = mshv_realm_config {
        ipa_width: 48,
        algorithm: 1,
        num_aux_planes: 2,
        gicv3_vtr: 3,
    };
    assert_eq!(realm_config_reply(Ok(config)).unwrap().ipa_width(), 48);
    assert_eq!(
        realm_config_reply(Err(22)),
        Err(HvError::InvalidRegisterValue)
    );
    assert_eq!(sysreg_write_reply(Ok(())), Ok(()));
    assert_eq!(sysreg_write_reply(Err(22)), Err(SetRegError::Ioctl(22)));
    assert_eq!(set_mem_perm_reply(Ok(())), Ok(()));
    assert_eq!(
        set_mem_perm_reply(Err(1)),
        Err(HvError::InvalidRegisterValue)
    );
    assert_eq!(hcl.get_realm_config().argument.ipa_width, 0);
    assert_eq!(HpfarEl2(0x12_3450).fipa(), 0x1_2345);
}

#[test]
fn entry_setters_write_their_fields() {
    let mut runner = processor(empty_run()).runner;
    assert_eq!(*runner.cpu_context(), 0);
    *runner.cpu_context_mut() = 7;
    assert_eq!(*runner.cpu_context(), 7);
    runner.cca_set_entry_flags(1);
    runner.cca_set_entry_pc(0x4000);
    runner.cca_set_entry_gprs([3; 31]);
    runner.cca_set_entry_gicv3_hcr(5);
    runner.cca_set_entry_gicv3_lrs([9; 16]);
    let entry = &runner.state.plane_run.entry;
    assert_eq!(entry.flags, 1);
    assert_eq!(entry.pc, 0x4000);
    assert_eq!(entry.gprs, [3; 31]);
    assert_eq!(entry.gicv3_hcr, 5);
    assert_eq!(entry.gicv3_lrs, [9; 16]);
}

#[test]
fn exit_that_was_not_intercepted_is_left_alone() {
    let mut run = empty_run();
    run.exit.esr_el2 = 0x18 << 26;
    run.exit.elr_el2 = u64::MAX;
    let mut vp = processor(run);
    let gic = GicV3Model::new(&Aarch64Topology {
        gic_version: GicVersion::V3 {
            redistributors_base: 0x2000_0000,
        },
        gic_distributor_base: 0x1000_0000,
        gic_nr_irqs: 64,
        mpidrs: vec![0],
    })
    .unwrap();
    let shared = CcaBackedShared::new(Some(gic), 20);
    assert_eq!(vp.handle_exit(&shared, false), Ok(ExitAction::Continue));
    assert_eq!(vp.runner.state.plane_run.entry.pc, 0);
}
