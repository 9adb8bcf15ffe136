//! The software GIC.

use cca_vmm::gic::distributor::Distributor;
use cca_vmm::gic::model::{GicV3Model, GicV3ModelError};
use cca_vmm::gic::registers::{
    GicrSgi, MpidrEl1, VpIndex, GICD_CTLR, GICD_ICENABLER, GICD_ICFGR, GICD_ICPENDR, GICD_IGROUPR,
    GICD_IPRIORITYR, GICD_IROUTER, GICD_ISENABLER, GICD_ISPENDR, GICD_PIDR2, GICD_TYPER,
    GICR_ICENABLER0, GICR_ICFGR0, GICR_ICFGR1, GICR_IGROUPR0, GICR_IPRIORITYR0, GICR_ISENABLER0,
    GICR_ISPENDR0, GICR_PIDR2, GICR_TYPER, GICR_WAKER, GIC_DISTRIBUTOR_SIZE,
    GIC_REDISTRIBUTOR_FRAME_SIZE, GIC_REDISTRIBUTOR_SIZE,
};
use cca_vmm::gic::software_device::{
    GicInterruptError, GicSoftwareDevice, VpciInterruptParameters,
};
use cca_vmm::memory_range::MemoryRange;
use cca_vmm::sysreg::{SystemReg, ICC_EOIR1_EL1, ICC_IAR1_EL1, ICC_SGI1R_EL1};
use cca_vmm::topology::{Aarch64Topology, GicVersion};

const TEST_SPI: u32 = 32;

fn write_gicd(distributor: &mut Distributor, register: u16, value: u32) {
    assert!(distributor.write(u64::from(register), &value.to_ne_bytes()));
}

fn read_gicd(distributor: &Distributor, register: u16) -> u32 {
    let mut data = [0; 4];
    assert!(distributor.read(u64::from(register), &mut data));
    u32::from_ne_bytes(data)
}

fn test_distributor() -> Distributor {
    let mut distributor = Distributor::new(
        0,
        MemoryRange::new(
            GIC_DISTRIBUTOR_SIZE,
            GIC_DISTRIBUTOR_SIZE + GIC_REDISTRIBUTOR_SIZE,
        ),
        64,
    );
    distributor.add_redistributor(0, true);

    write_gicd(&mut distributor, GICD_CTLR, 2);
    write_gicd(&mut distributor, GICD_ISENABLER + 4, 1);
    write_gicd(&mut distributor, GICD_IGROUPR + 4, 1);

    distributor
}

fn write_gicr_sgi(distributor: &mut Distributor, register: u16, value: u32) {
    let address = GIC_DISTRIBUTOR_SIZE + GIC_REDISTRIBUTOR_FRAME_SIZE + u64::from(register);
    assert!(distributor.write(address, &value.to_ne_bytes()));
}

fn read_gicr_sgi(distributor: &Distributor, register: u16) -> u32 {
    let address = GIC_DISTRIBUTOR_SIZE + GIC_REDISTRIBUTOR_FRAME_SIZE + u64::from(register);
    let mut data = [0; 4];
    assert!(distributor.read(address, &mut data));
    u32::from_ne_bytes(data)
}

fn set_private_priority(distributor: &mut Distributor, intid: u32, priority: u8) {
    let register = GICR_IPRIORITYR0 + (intid / 4 * 4) as u16;
    let value = u32::from(priority) << ((intid % 4) * 8);
    write_gicr_sgi(distributor, register, value);
}

#[test]
fn level_spi_is_redelivered_until_deasserted() {
    let mut distributor = test_distributor();
    let vp = VpIndex::new(0);

    // A newly asserted level-sensitive line wakes its target VP and
    // makes the SPI eligible for injection.
    assert_eq!(distributor.set_spi_irq(TEST_SPI, true), [vp]);
    assert_eq!(
        distributor
            .next_pending_spi_interrupt(vp, u8::MAX)
            .map(|interrupt| interrupt.intid),
        Some(TEST_SPI)
    );

    // Once the SPI is represented in an LR, do not select it again
    // while that delivery remains in flight.
    distributor.mark_spi_injected(vp, TEST_SPI);
    assert!(
        distributor
            .next_pending_spi_interrupt(vp, u8::MAX)
            .is_none()
    );

    // Reporting the INTID as still present in an LR preserves its
    // in-flight state and continues to suppress duplicate injection.
    distributor.retain_in_flight_spis(vp, |intid| intid == TEST_SPI);
    assert!(
        distributor
            .next_pending_spi_interrupt(vp, u8::MAX)
            .is_none()
    );

    // Simulate guest EOI followed by LR retirement. The device line
    // is still asserted, so the level-sensitive SPI is eligible again.
    distributor.retain_in_flight_spis(vp, |_| false);
    assert_eq!(
        distributor
            .next_pending_spi_interrupt(vp, u8::MAX)
            .map(|interrupt| interrupt.intid),
        Some(TEST_SPI)
    );

    // After the second injection, the device deasserts its line. Once
    // that LR retires, the SPI must not be delivered again.
    distributor.mark_spi_injected(vp, TEST_SPI);
    assert!(distributor.set_spi_irq(TEST_SPI, false).is_empty());
    distributor.retain_in_flight_spis(vp, |_| false);
    assert!(
        distributor
            .next_pending_spi_interrupt(vp, u8::MAX)
            .is_none()
    );
}

#[test]
fn deasserting_line_does_not_clear_software_pending_spi() {
    let mut distributor = test_distributor();
    let vp = VpIndex::new(0);

    assert_eq!(distributor.set_pending(TEST_SPI, true), Some(0));
    assert!(distributor.set_spi_irq(TEST_SPI, false).is_empty());
    assert_eq!(
        distributor
            .next_pending_spi_interrupt(vp, u8::MAX)
            .map(|interrupt| interrupt.intid),
        Some(TEST_SPI)
    );
}

#[test]
fn edge_spi_is_latched_until_injected() {
    let mut distributor = test_distributor();
    let vp = VpIndex::new(0);
    write_gicd(&mut distributor, GICD_ICFGR + 8, 1 << 1);

    assert_eq!(distributor.set_spi_irq(TEST_SPI, true), [vp]);
    assert!(distributor.set_spi_irq(TEST_SPI, false).is_empty());
    assert_eq!(
        distributor
            .next_pending_spi_interrupt(vp, u8::MAX)
            .map(|interrupt| interrupt.intid),
        Some(TEST_SPI)
    );

    distributor.mark_spi_injected(vp, TEST_SPI);
    distributor.retain_in_flight_spis(vp, |_| false);
    assert!(
        distributor
            .next_pending_spi_interrupt(vp, u8::MAX)
            .is_none()
    );
}

#[test]
fn private_interrupts_obey_enable_and_priority() {
    const TEST_SGI: u32 = 5;
    const TEST_PPI: u32 = 20;

    let mut distributor = test_distributor();
    let vp = VpIndex::new(0);
    let both_pending = (1 << TEST_SGI) | (1 << TEST_PPI);

    // A requested private interrupt is not deliverable until its
    // redistributor enable and Group 1 bits are both set.
    assert!(
        distributor
            .next_pending_private_interrupt(vp, both_pending, u8::MAX)
            .is_none()
    );
    write_gicr_sgi(&mut distributor, GICR_IGROUPR0, both_pending);
    assert!(
        distributor
            .next_pending_private_interrupt(vp, both_pending, u8::MAX)
            .is_none()
    );
    write_gicr_sgi(&mut distributor, GICR_ISENABLER0, both_pending);

    set_private_priority(&mut distributor, TEST_SGI, 0x40);
    set_private_priority(&mut distributor, TEST_PPI, 0x80);

    // A priority equal to the PMR threshold is masked. Raising the
    // threshold admits the SGI and preserves its programmed priority.
    assert!(
        distributor
            .next_pending_private_interrupt(vp, both_pending, 0x40)
            .is_none()
    );
    let interrupt = distributor
        .next_pending_private_interrupt(vp, both_pending, 0x41)
        .unwrap();
    assert_eq!((interrupt.intid, interrupt.priority), (TEST_SGI, 0x40));

    // With only the PPI requested, its independently programmed
    // priority is subject to the same PMR threshold.
    let ppi_pending = 1 << TEST_PPI;
    assert!(
        distributor
            .next_pending_private_interrupt(vp, ppi_pending, 0x80)
            .is_none()
    );
    let interrupt = distributor
        .next_pending_private_interrupt(vp, ppi_pending, 0x81)
        .unwrap();
    assert_eq!((interrupt.intid, interrupt.priority), (TEST_PPI, 0x80));

    write_gicd(&mut distributor, GICD_CTLR, 0);
    assert!(
        distributor
            .next_pending_private_interrupt(vp, both_pending, u8::MAX)
            .is_none()
    );
}

#[test]
fn lines_are_independent_of_each_other() {
    let mut distributor = test_distributor();
    let vp = VpIndex::new(0);
    write_gicd(&mut distributor, GICD_ISENABLER + 4, 2);
    write_gicd(&mut distributor, GICD_IGROUPR + 4, 3);
    distributor.set_spi_irq(TEST_SPI, true);
    distributor.set_spi_irq(TEST_SPI + 1, true);
    assert!(distributor.set_spi_irq(TEST_SPI, false).is_empty());
    let next = distributor.next_pending_spi_interrupt(vp, u8::MAX).unwrap();
    assert_eq!(next.intid, TEST_SPI + 1);
}

#[test]
fn driving_a_line_again_changes_nothing() {
    let mut distributor = test_distributor();
    let vp = VpIndex::new(0);
    assert_eq!(distributor.set_spi_irq(TEST_SPI, true), [vp]);
    assert!(distributor.set_spi_irq(TEST_SPI, true).is_empty());
    assert!(distributor.set_spi_irq(TEST_SPI, false).is_empty());
    assert!(distributor.set_spi_irq(TEST_SPI, false).is_empty());
}

#[test]
fn lines_of_private_or_unknown_interrupts_do_nothing() {
    let mut distributor = test_distributor();
    assert!(distributor.set_spi_irq(31, true).is_empty());
    assert!(distributor.set_spi_irq(64, true).is_empty());
    assert!(distributor.set_spi_irq(u32::MAX, true).is_empty());
}

#[test]
fn lower_priority_value_goes_first() {
    let mut distributor = test_distributor();
    let vp = VpIndex::new(0);
    write_gicd(&mut distributor, GICD_ISENABLER + 4, 0xff);
    write_gicd(&mut distributor, GICD_IGROUPR + 4, 0xff);
    // INTIDs 32, 33, 34 and 35, from the low byte up.
    write_gicd(&mut distributor, GICD_IPRIORITYR + 32, 0x3020_2040);
    for intid in 32..36 {
        distributor.set_spi_irq(intid, true);
    }
    let next = distributor.next_pending_spi_interrupt(vp, u8::MAX).unwrap();
    assert_eq!((next.intid, next.priority), (33, 0x20));
    assert!(next.group1);
    assert!(distributor.next_pending_spi_interrupt(vp, 0x20).is_none());
    assert_eq!(
        distributor.next_pending_spi_interrupt(vp, 0x21).unwrap().intid,
        33
    );
}

#[test]
fn reserved_interrupt_is_not_given_twice() {
    let mut distributor = test_distributor();
    let vp = VpIndex::new(0);
    distributor.set_spi_irq(TEST_SPI, true);
    let next = distributor.reserve_pending_spi_interrupt(vp, u8::MAX).unwrap();
    assert_eq!(next.intid, TEST_SPI);
    assert!(distributor.reserve_pending_spi_interrupt(vp, u8::MAX).is_none());
    distributor.cancel_spi_reservation(vp, TEST_SPI);
    let again = distributor.reserve_pending_spi_interrupt(vp, u8::MAX).unwrap();
    assert_eq!(again.intid, TEST_SPI);
}

#[test]
fn set_and_clear_registers_touch_only_the_ones() {
    let mut distributor = test_distributor();
    write_gicd(&mut distributor, GICD_ISENABLER + 4, 0xf0);
    assert_eq!(read_gicd(&distributor, GICD_ISENABLER + 4), 0xf1);
    write_gicd(&mut distributor, GICD_ICENABLER + 4, 0x11);
    assert_eq!(read_gicd(&distributor, GICD_ISENABLER + 4), 0xe0);
    assert_eq!(read_gicd(&distributor, GICD_ICENABLER + 4), 0xe0);
    write_gicd(&mut distributor, GICD_ISPENDR + 4, 0x5);
    assert_eq!(read_gicd(&distributor, GICD_ISPENDR + 4), 0x5);
    write_gicd(&mut distributor, GICD_ICPENDR + 4, 0x4);
    assert_eq!(read_gicd(&distributor, GICD_ICPENDR + 4), 0x1);
}

#[test]
fn identification_registers() {
    let distributor = test_distributor();
    assert_eq!(read_gicd(&distributor, GICD_PIDR2), 0x30);
    assert_eq!(read_gicd(&distributor, GICD_TYPER) & 0x1f, 0x1f);
    // Affinity routing, one security state, and group 1.
    assert_eq!(read_gicd(&distributor, GICD_CTLR), 0x52);
    let mut data = [0; 4];
    assert!(distributor.read(GIC_DISTRIBUTOR_SIZE + u64::from(GICR_PIDR2), &mut data));
    assert_eq!(u32::from_ne_bytes(data), 0x30);
}

#[test]
fn redistributor_identifies_its_processor() {
    let mut distributor = Distributor::new(
        0,
        MemoryRange::new(
            GIC_DISTRIBUTOR_SIZE,
            GIC_DISTRIBUTOR_SIZE + 2 * GIC_REDISTRIBUTOR_SIZE,
        ),
        64,
    );
    let first = distributor.add_redistributor(0x1, false);
    let second = distributor.add_redistributor(0x4_0003_0201, true);
    let mut data = [0; 8];
    assert!(distributor.read(GIC_DISTRIBUTOR_SIZE + u64::from(GICR_TYPER), &mut data));
    assert_eq!(u64::from_ne_bytes(data), 0x1 << 32);
    let address = GIC_DISTRIBUTOR_SIZE + GIC_REDISTRIBUTOR_SIZE + u64::from(GICR_TYPER);
    assert!(distributor.read(address, &mut data));
    assert_eq!(u64::from_ne_bytes(data), (0x0403_0201 << 32) | 0x10);
    assert!(!distributor.irq_pending(&first));
    assert!(!distributor.irq_pending(&second));
}

#[test]
fn private_registers_read_back_what_was_written() {
    let mut distributor = test_distributor();
    write_gicr_sgi(&mut distributor, GICR_IGROUPR0, 0x1234_5678);
    assert_eq!(read_gicr_sgi(&distributor, GICR_IGROUPR0), 0x1234_5678);
    write_gicr_sgi(&mut distributor, GICR_IPRIORITYR0 + 8, 0x8070_6050);
    assert_eq!(read_gicr_sgi(&distributor, GICR_IPRIORITYR0 + 8), 0x8070_6050);
    write_gicr_sgi(&mut distributor, GICR_ISENABLER0, 0xff);
    write_gicr_sgi(&mut distributor, GICR_ICENABLER0, 0x0f);
    assert_eq!(read_gicr_sgi(&distributor, GICR_ISENABLER0), 0xf0);
    write_gicr_sgi(&mut distributor, GICR_ICFGR1, 0x5);
    assert_eq!(read_gicr_sgi(&distributor, GICR_ICFGR1), 0x5);
    // SGIs are always edge triggered.
    write_gicr_sgi(&mut distributor, GICR_ICFGR0, 0);
    assert_eq!(read_gicr_sgi(&distributor, GICR_ICFGR0), 0xaaaa_aaaa);
    let waker = GIC_DISTRIBUTOR_SIZE + u64::from(GICR_WAKER);
    assert!(distributor.write(waker, &2u32.to_ne_bytes()));
    let mut data = [0; 4];
    assert!(distributor.read(waker, &mut data));
    assert_eq!(u32::from_ne_bytes(data), 0x6);
}

#[test]
fn misaligned_and_unknown_accesses_are_inert() {
    let mut distributor = test_distributor();
    let mut data = [0x55; 4];
    assert!(distributor.read(u64::from(GICD_CTLR) + 1, &mut data));
    assert!(distributor.write(u64::from(GICD_CTLR) + 1, &[0xff; 4]));
    assert_eq!(read_gicd(&distributor, GICD_CTLR), 0x52);
    // Outside the frames nothing is claimed.
    let outside = GIC_DISTRIBUTOR_SIZE + GIC_REDISTRIBUTOR_SIZE;
    let mut data = [0x55; 4];
    assert!(!distributor.read(outside, &mut data));
    assert_eq!(data, [0x55; 4]);
    assert!(!distributor.write(outside, &[0; 4]));
}

#[test]
fn routes_take_and_give_eight_bytes() {
    let mut distributor = test_distributor();
    let route = u64::from(GICD_IROUTER) + 8 * u64::from(TEST_SPI);
    assert!(distributor.write(route, &0x1_0203_u64.to_ne_bytes()));
    let mut data = [0; 8];
    assert!(distributor.read(route, &mut data));
    assert_eq!(u64::from_ne_bytes(data), 0x1_0203);
}

#[test]
fn private_interrupt_life_cycle() {
    let mut distributor = Distributor::new(
        0,
        MemoryRange::new(
            GIC_DISTRIBUTOR_SIZE,
            GIC_DISTRIBUTOR_SIZE + GIC_REDISTRIBUTOR_SIZE,
        ),
        64,
    );
    let mut gicr = distributor.add_redistributor(0, true);
    write_gicd(&mut distributor, GICD_CTLR, 2);
    write_gicr_sgi(&mut distributor, GICR_IGROUPR0, 1 << 27);
    write_gicr_sgi(&mut distributor, GICR_ISENABLER0, 1 << 27);
    // A write does not make a private interrupt pending.
    write_gicr_sgi(&mut distributor, GICR_ISPENDR0, 1 << 27);
    assert!(!distributor.irq_pending(&gicr));
    gicr.raise(&mut distributor, 27);
    assert!(distributor.irq_pending(&gicr));
    assert_eq!(distributor.read_sysreg(&mut gicr, SystemReg(ICC_IAR1_EL1)), Some(27));
    assert!(!distributor.irq_pending(&gicr));
    assert!(gicr.is_pending_or_active(&distributor, 27));
    assert!(distributor.write_sysreg(&mut gicr, SystemReg(ICC_EOIR1_EL1), 27).is_some());
    assert!(!gicr.is_pending_or_active(&distributor, 27));
    assert_eq!(distributor.read_sysreg(&mut gicr, SystemReg(ICC_IAR1_EL1)), Some(1023));
}

#[test]
fn broadcast_sgi_reaches_all_but_the_sender() {
    let mut distributor = Distributor::new(
        0,
        MemoryRange::new(
            GIC_DISTRIBUTOR_SIZE,
            GIC_DISTRIBUTOR_SIZE + 3 * GIC_REDISTRIBUTOR_SIZE,
        ),
        64,
    );
    let mut first = distributor.add_redistributor(0, false);
    let second = distributor.add_redistributor(1, false);
    let third = distributor.add_redistributor(2, true);
    let sgi = GicrSgi::new().with_irm(true).with_intid(3);
    let woken = distributor.write_sysreg(&mut first, SystemReg(ICC_SGI1R_EL1), sgi.into_bits());
    assert_eq!(woken, Some(vec![1, 2]));
    assert!(!first.is_pending_or_active(&distributor, 3));
    assert!(second.is_pending_or_active(&distributor, 3));
    assert!(third.is_pending_or_active(&distributor, 3));
    // One target.
    let sgi = GicrSgi::new().with_target_list(1 << 2).with_intid(4);
    let woken = distributor.write_sysreg(&mut first, SystemReg(ICC_SGI1R_EL1), sgi.into_bits());
    assert_eq!(woken, Some(vec![2]));
    assert!(!second.is_pending_or_active(&distributor, 4));
    assert!(third.is_pending_or_active(&distributor, 4));
}

#[test]
fn unknown_system_register_is_not_handled() {
    let mut distributor = Distributor::new(
        0,
        MemoryRange::new(
            GIC_DISTRIBUTOR_SIZE,
            GIC_DISTRIBUTOR_SIZE + GIC_REDISTRIBUTOR_SIZE,
        ),
        64,
    );
    let mut gicr = distributor.add_redistributor(0, true);
    let unknown = SystemReg::new(3, 0, 1, 0, 0);
    assert_eq!(distributor.read_sysreg(&mut gicr, unknown), None);
    assert_eq!(distributor.write_sysreg(&mut gicr, unknown, 1), None);
}

fn topology(vps: usize) -> Aarch64Topology {
    Aarch64Topology {
        mpidrs: (0..vps as u64).collect(),
        gic_version: GicVersion::V3 {
            redistributors_base: 0x2000_0000,
        },
        gic_distributor_base: 0x1000_0000,
        gic_nr_irqs: 96,
    }
}

#[test]
fn model_claims_its_frames() {
    let model = GicV3Model::new(&topology(2)).unwrap();
    assert!(model.contains(0x1000_0000));
    assert!(model.contains(0x1000_ffff));
    assert!(!model.contains(0x1001_0000));
    assert!(model.contains(0x2000_0000));
    assert!(model.contains(0x2003_ffff));
    assert!(!model.contains(0x2004_0000));
}

#[test]
fn model_errors() {
    let mut bad = topology(1);
    bad.gic_version = GicVersion::V2 {
        cpu_interface_base: 0,
    };
    let error = GicV3Model::new(&bad).unwrap_err();
    assert_eq!(error, GicV3ModelError::UnsupportedGicVersion);
    assert_eq!(error.message(), "software GIC requires GICv3");

    let mut bad = topology(1);
    bad.gic_version = GicVersion::V3 {
        redistributors_base: u64::MAX - 0xfff,
    };
    let error = GicV3Model::new(&bad).unwrap_err();
    assert_eq!(error, GicV3ModelError::RedistributorRangeOverflow);
    assert_eq!(error.message(), "GIC redistributor range overflowed");

    let mut bad = topology(1);
    bad.gic_distributor_base = u64::MAX - 0xfff;
    let error = GicV3Model::new(&bad).unwrap_err();
    assert_eq!(error, GicV3ModelError::DistributorRangeOverflow);
    assert_eq!(error.message(), "GIC distributor range overflowed");
}

#[test]
fn model_delivers_the_first_of_all_interrupts() {
    let mut model = GicV3Model::new(&topology(1)).unwrap();
    let vp = VpIndex::new(0);
    assert!(model.write(0x1000_0000 + u64::from(GICD_CTLR), &2u32.to_ne_bytes()));
    assert!(model.write(
        0x1000_0000 + u64::from(GICD_IGROUPR) + 4,
        &1u32.to_ne_bytes()
    ));
    assert!(model.write(
        0x1000_0000 + u64::from(GICD_ISENABLER) + 4,
        &1u32.to_ne_bytes()
    ));
    assert_eq!(model.set_spi_irq(TEST_SPI, true), [vp]);
    let next = model.next_pending_interrupt(vp, u8::MAX).unwrap();
    assert_eq!(next.intid, TEST_SPI);
    let mut data = [0xff; 4];
    assert!(!model.read(0, &mut data));
    assert_eq!(data, [0xff; 4]);
}

#[test]
fn msi_latches_an_edge_interrupt() {
    let mut model = GicV3Model::new(&topology(1)).unwrap();
    let vp = VpIndex::new(0);
    let base = 0x1000_0000;
    assert!(model.write(base + u64::from(GICD_CTLR), &2u32.to_ne_bytes()));
    assert!(model.write(base + u64::from(GICD_IGROUPR) + 4, &1u32.to_ne_bytes()));
    assert!(model.write(base + u64::from(GICD_ISENABLER) + 4, &1u32.to_ne_bytes()));
    assert!(model.write(base + u64::from(GICD_ICFGR) + 8, &2u32.to_ne_bytes()));
    let mut device = GicSoftwareDevice::new(model);
    device.signal_msi_gicv3(None, 0, 31);
    assert!(device.irqcon().next_pending_spi_interrupt(vp, u8::MAX).is_none());
    device.signal_msi_gicv3(None, 0, TEST_SPI);
    let next = device.irqcon().next_pending_spi_interrupt(vp, u8::MAX);
    assert_eq!(next.unwrap().intid, TEST_SPI);
}

#[test]
fn interrupts_are_registered_by_their_vector() {
    let model = GicV3Model::new(&topology(1)).unwrap();
    let device = GicSoftwareDevice::new(model);
    let params = VpciInterruptParameters { vector: 40 };
    let msi = device.register_interrupt(1, &params).unwrap();
    assert_eq!(msi.data, 40);
    device.unregister_interrupt(msi.address, msi.data);
    let bad = VpciInterruptParameters { vector: 31 };
    assert_eq!(
        device.register_interrupt(1, &bad).unwrap_err(),
        GicInterruptError::InvalidVector { start: 31, count: 1 }
    );
    assert_eq!(
        device.register_interrupt(3, &params).unwrap_err(),
        GicInterruptError::InvalidVectorCount(3)
    );
    let last = VpciInterruptParameters { vector: 1018 };
    assert!(device.register_interrupt(2, &last).is_ok());
    assert_eq!(
        device.register_interrupt(4, &last).unwrap_err(),
        GicInterruptError::InvalidVector { start: 1018, count: 4 }
    );
}

#[test]
fn affinity_fields_keep_their_places() {
    let mpidr = MpidrEl1::new().with_aff0(1).with_aff1(2).with_aff2(3).with_aff3(4);
    assert_eq!(mpidr.into_bits() & 0xff_00ff_ffff, 0x04_0003_0201);
    assert_eq!(MpidrEl1::from_bits(0x04_0003_0201).aff3, 4);
    let sgi = GicrSgi::new()
        .with_target_list(0x8001)
        .with_aff1(0x12)
        .with_intid(9)
        .with_aff2(0x34)
        .with_rs(5)
        .with_aff3(0x56);
    assert_eq!(sgi.into_bits(), 0x0056_5034_0912_8001);
    assert_eq!(GicrSgi::from_bits(sgi.into_bits()), sgi);
}

#[test]
fn raised_interrupt_is_newly_pending_once() {
    let mut distributor = test_distributor();
    let vp = VpIndex::new(0);
    assert!(distributor.raise_ppi(vp, 20));
    assert!(!distributor.raise_ppi(vp, 20));
    assert_eq!(read_gicr_sgi(&distributor, GICR_ISPENDR0), 1 << 20);
    assert!(!distributor.raise_ppi(VpIndex::new(1), 20));
}

#[test]
fn plain_msi_leaves_the_line_asserted() {
    let mut model = GicV3Model::new(&topology(1)).unwrap();
    let vp = VpIndex::new(0);
    let base = 0x1000_0000;
    assert!(model.write(base + u64::from(GICD_CTLR), &2u32.to_ne_bytes()));
    assert!(model.write(base + u64::from(GICD_IGROUPR) + 4, &1u32.to_ne_bytes()));
    assert!(model.write(base + u64::from(GICD_ISENABLER) + 4, &1u32.to_ne_bytes()));
    let mut device = GicSoftwareDevice::new(model);
    device.signal_msi(None, 0, 31);
    assert!(device.irqcon().next_pending_spi_interrupt(vp, u8::MAX).is_none());
    device.signal_msi(None, 0, TEST_SPI);
    let next = device.irqcon().next_pending_spi_interrupt(vp, u8::MAX);
    assert_eq!(next.unwrap().intid, TEST_SPI);
}

#[test]
fn write_touches_the_addressed_word_alone() {
    let mut distributor = test_distributor();
    write_gicd(&mut distributor, GICD_IPRIORITYR + 32, 0x1122_3344);
    assert_eq!(read_gicd(&distributor, GICD_IPRIORITYR + 32), 0x1122_3344);
    assert_eq!(read_gicd(&distributor, GICD_IPRIORITYR + 36), 0);
    assert_eq!(read_gicd(&distributor, GICD_IGROUPR + 4), 1);
    // The words of private interrupts and those behind the last interrupt.
    write_gicd(&mut distributor, GICD_IPRIORITYR + 28, 0x1122_3344);
    assert_eq!(read_gicd(&distributor, GICD_IPRIORITYR + 28), 0);
    write_gicd(&mut distributor, GICD_IGROUPR + 8, u32::MAX);
    assert_eq!(read_gicd(&distributor, GICD_IGROUPR + 8), 0);
    // A register that takes no writes.
    let typer = read_gicd(&distributor, GICD_TYPER);
    write_gicd(&mut distributor, GICD_TYPER, 0);
    assert_eq!(read_gicd(&distributor, GICD_TYPER), typer);
}

#[test]
fn empty_access_elsewhere_is_not_answered() {
    let mut model = GicV3Model::new(&topology(1)).unwrap();
    assert!(!model.read(0, &mut []));
    assert!(!model.write(0, &[]));
}
