//! What the interrupt controller makes of a test microkernel's accesses.

use super::guest;
use super::guest::{GicStep, DEFAULT_PRIORITY, GIC_REDISTRIBUTOR_SGI_BASE, GIC_SPECIAL_INTID};
use super::protocol::{GIC_DISTRIBUTOR_BASE, GIC_REDISTRIBUTOR_BASE};
use crate::bits;
use crate::bytes;
use crate::gic::redistributor;
use crate::gic::redistributor::RedistributorView;
use crate::gic::registers;
use crate::gic::registers::{
    GICD_CTLR, GICD_ICENABLER, GICD_IGROUPR, GICD_IPRIORITYR, GICD_ISENABLER, GICD_ISPENDR,
    GICR_ICENABLER0, GICR_IGROUPR0, GICR_IPRIORITYR0, GICR_ISENABLER0, GICR_WAKER,
};
use crate::gic::state;
use crate::gic::state::DistributorView;
use vstd::prelude::*;

verus! {

/// The word that a guest loads.
pub open spec fn load(gic: DistributorView, address: u64) -> u32 {
    bytes::le_value(gic.read(address, 4)) as u32
}

/// The controller after a guest stored a word.
pub open spec fn store(gic: DistributorView, address: u64, value: u32) -> DistributorView {
    gic.write(address, bytes::le_bytes(value as nat, 4))
}

/// The controller after one step of a guest, or `None` if the step waits for
/// ever.
pub open spec fn stepped(gic: DistributorView, step: GicStep) -> Option<DistributorView> {
    match step {
        GicStep::Write { address, value } => Some(store(gic, address, value)),
        GicStep::Update { address, clear, set } => Some(
            store(gic, address, (load(gic, address) & !clear) | set),
        ),
        GicStep::WaitClear { address, mask } => if load(gic, address) & mask == 0 {
            Some(gic)
        } else {
            None
        },
        GicStep::Read { .. } | GicStep::EnableCpuInterface | GicStep::Barrier => Some(gic),
    }
}

/// The controller after all steps of a guest.
pub open spec fn run(gic: DistributorView, steps: Seq<GicStep>) -> Option<DistributorView>
    decreases steps.len(),
{
    if steps.len() == 0 {
        Some(gic)
    } else {
        match run(gic, steps.drop_last()) {
            Some(before) => stepped(before, steps.last()),
            None => None,
        }
    }
}

/// Whether the controller lies where the test platform has it, with a
/// redistributor for the processor that runs the guest.
pub open spec fn on_test_platform(gic: DistributorView) -> bool {
    &&& gic.wf()
    &&& gic.gicd_range.spec_start() == GIC_DISTRIBUTOR_BASE
    &&& gic.gicr_range.spec_start() == GIC_REDISTRIBUTOR_BASE
    &&& gic.redistributors.len() > 0
}

proof fn lemma_aligned(address: u64)
    by (bit_vector)
    requires
        address % 4 == 0,
    ensures
        address & 3 == 0,
{
}

/// A word of the distributor's frame.
proof fn lemma_distributor_word(gic: DistributorView, reg: u16, value: u32)
    requires
        on_test_platform(gic),
        reg % 4 == 0,
    ensures
        store(gic, (GIC_DISTRIBUTOR_BASE + reg) as u64, value) == gic.write32(reg, value),
        gic.read32(reg) is Some ==> load(gic, (GIC_DISTRIBUTOR_BASE + reg) as u64)
            == gic.read32(reg)->0,
{
    lemma_aligned(reg as u64);
    bytes::lemma_pow256();
    bytes::lemma_le_bytes_len(value as nat, 4);
    bytes::lemma_le_round_trip(value as nat, 4);
    if gic.read32(reg) is Some {
        bytes::lemma_le_round_trip(gic.read32(reg)->0 as nat, 4);
    }
}

/// A word of the first frame of the first redistributor.
proof fn lemma_control_word(gic: DistributorView, reg: u16, value: u32)
    requires
        on_test_platform(gic),
        reg % 4 == 0,
    ensures
        store(gic, (GIC_REDISTRIBUTOR_BASE + reg) as u64, value) == gic.with_redistributor(
            0,
            gic.redistributors[0].rd_write32(reg, value),
        ),
        gic.redistributors[0].rd_read32(reg) is Some ==> load(
            gic,
            (GIC_REDISTRIBUTOR_BASE + reg) as u64,
        ) == gic.redistributors[0].rd_read32(reg)->0,
{
    lemma_aligned(reg as u64);
    bytes::lemma_pow256();
    bytes::lemma_le_bytes_len(value as nat, 4);
    bytes::lemma_le_round_trip(value as nat, 4);
    let offset = reg as u64;
    assert(offset % 0x1_0000 == reg);
    assert(redistributor::in_control_frame(offset));
    if gic.redistributors[0].rd_read32(reg) is Some {
        bytes::lemma_le_round_trip(gic.redistributors[0].rd_read32(reg)->0 as nat, 4);
    }
}

/// A word of the second frame of the first redistributor.
proof fn lemma_private_word(gic: DistributorView, reg: u16, value: u32)
    requires
        on_test_platform(gic),
        reg % 4 == 0,
    ensures
        store(gic, (GIC_REDISTRIBUTOR_SGI_BASE + reg) as u64, value) == gic.with_redistributor(
            0,
            gic.redistributors[0].sgi_write32(reg, value),
        ),
        gic.redistributors[0].sgi_read32(reg) is Some ==> load(
            gic,
            (GIC_REDISTRIBUTOR_SGI_BASE + reg) as u64,
        ) == gic.redistributors[0].sgi_read32(reg)->0,
{
    let offset = (0x1_0000 + reg) as u64;
    lemma_aligned(offset);
    bytes::lemma_pow256();
    bytes::lemma_le_bytes_len(value as nat, 4);
    bytes::lemma_le_round_trip(value as nat, 4);
    assert(offset % 0x1_0000 == reg);
    assert(!redistributor::in_control_frame(offset));
    if gic.redistributors[0].sgi_read32(reg) is Some {
        bytes::lemma_le_round_trip(gic.redistributors[0].sgi_read32(reg)->0 as nat, 4);
    }
}

/// One more step.
proof fn lemma_run_push(gic: DistributorView, steps: Seq<GicStep>, step: GicStep)
    ensures
        run(gic, steps.push(step)) == (match run(gic, steps) {
            Some(before) => stepped(before, step),
            None => None,
        }),
{
    assert(steps.push(step).drop_last() =~= steps);
}

/// The controller that `enable_gic_steps` leaves behind.
pub open spec fn gic_enabled(gic: DistributorView) -> DistributorView {
    DistributorView { enable_grp0: false, enable_grp1: true, ..gic }.with_redistributor(
        0,
        RedistributorView { sleep: false, ..gic.redistributors[0] },
    )
}

/// Enabling the GIC turns group 1 on and wakes the redistributor, without
/// waiting for ever.
pub proof fn enabling_the_gic(gic: DistributorView)
    requires
        on_test_platform(gic),
    ensures
        run(gic, guest::enable_gic_steps()) == Some(gic_enabled(gic)),
{
    let all = guest::enable_gic_steps();
    let none = Seq::<GicStep>::empty();
    let one = none.push(all[0]);
    let two = one.push(all[1]);
    let three = two.push(all[2]);
    assert(all =~= three.push(all[3]));
    lemma_run_push(gic, none, all[0]);
    lemma_run_push(gic, one, all[1]);
    lemma_run_push(gic, two, all[2]);
    lemma_run_push(gic, three, all[3]);
    // Group 1 and affinity routing.
    let first = gic.write32(GICD_CTLR, 0x12);
    lemma_distributor_word(gic, GICD_CTLR, 0x12);
    assert(0x12u32 & 1u32 == 0 && 0x12u32 & 2u32 != 0) by (bit_vector);
    assert(run(gic, one) == Some(first));
    // The redistributor wakes up.
    lemma_control_word(first, GICR_WAKER, 0);
    let waker = load(first, (GIC_REDISTRIBUTOR_BASE + GICR_WAKER) as u64);
    let awake = (waker & !2u32) | 0u32;
    assert(awake & 2u32 == 0) by (bit_vector)
        requires
            awake == (waker & !2u32) | 0u32,
    ;
    lemma_control_word(first, GICR_WAKER, awake);
    let second = first.with_redistributor(0, first.redistributors[0].rd_write32(GICR_WAKER, awake));
    assert(run(gic, two) == Some(second));
    lemma_control_word(second, GICR_WAKER, 0);
    assert(0u32 & 4u32 == 0) by (bit_vector);
    assert(run(gic, three) == Some(second));
    assert(second =~= gic_enabled(gic));
}

proof fn lemma_priority_byte(word: u32, intid: u32)
    ensures
        registers::priority_byte(
            (word & !(0xffu32 << (intid % 4 * 8) as u32)) | (0x80u32 << (intid % 4 * 8) as u32),
            intid,
        ) == 0x80,
{
    lemma_priority_bits(word);
}

proof fn lemma_priority_bits(word: u32)
    by (bit_vector)
    ensures
        ((word & !(0xffu32 << 0u32)) | (0x80u32 << 0u32)) % 0x100 == 0x80,
        ((word & !(0xffu32 << 8u32)) | (0x80u32 << 8u32)) / 0x100 % 0x100 == 0x80,
        ((word & !(0xffu32 << 16u32)) | (0x80u32 << 16u32)) / 0x1_0000 % 0x100 == 0x80,
        ((word & !(0xffu32 << 24u32)) | (0x80u32 << 24u32)) / 0x100_0000 == 0x80,
{
}

proof fn lemma_set_bit(word: u32, index: u32)
    requires
        index < 32,
    ensures
        bits::bit((word & !0u32) | (1u32 << index), index),
{
    bits::lemma_bit_update(word & !0u32, index, index);
}

/// Enabling an interrupt puts it into group 1, gives it a priority and enables
/// it; what is pending, active or in flight stays as it is.
pub proof fn enabling_a_private_interrupt(gic: DistributorView, intid: u32)
    requires
        on_test_platform(gic),
        intid < 32,
    ensures
        run(gic, guest::enable_irq_steps(intid)) is Some,
        ({
            let after = run(gic, guest::enable_irq_steps(intid))->0;
            let gicr = after.redistributors[0];
            &&& after.enable_grp1
            &&& bits::bit(gicr.group, intid)
            &&& bits::bit(gicr.enable, intid)
            &&& gicr.priority_of(intid) == DEFAULT_PRIORITY
            &&& gicr.pending == gic.redistributors[0].pending
            &&& gicr.active == gic.redistributors[0].active
            &&& forall|other: u32|
                other < 32 && other != intid ==> #[trigger] bits::bit(gicr.group, other)
                    == bits::bit(gic.redistributors[0].group, other)
            &&& forall|other: u32|
                other < 32 && other != intid ==> #[trigger] bits::bit(gicr.enable, other)
                    == bits::bit(gic.redistributors[0].enable, other)
            &&& forall|other: u32|
                other < 32 && other != intid ==> #[trigger] gicr.priority_of(other)
                    == gic.redistributors[0].priority_of(other)
        }),
{
    let all = guest::enable_irq_steps(intid);
    let head = guest::enable_gic_steps();
    let group = head.push(all[4]);
    let priority = group.push(all[5]);
    let enable = priority.push(all[6]);
    assert(all =~= enable.push(all[7]));
    enabling_the_gic(gic);
    lemma_run_push(gic, head, all[4]);
    lemma_run_push(gic, group, all[5]);
    lemma_run_push(gic, priority, all[6]);
    lemma_run_push(gic, enable, all[7]);
    let ready = gic_enabled(gic);
    let word = load(ready, (GIC_REDISTRIBUTOR_SGI_BASE + GICR_IGROUPR0) as u64);
    let set = (word & !0u32) | (1u32 << (intid % 32));
    lemma_private_word(ready, GICR_IGROUPR0, set);
    lemma_set_bit(word, intid);
    let grouped = ready.with_redistributor(
        0,
        ready.redistributors[0].sgi_write32(GICR_IGROUPR0, set),
    );
    assert(run(gic, group) == Some(grouped));
    let reg = (GICR_IPRIORITYR0 + intid / 4 * 4) as u16;
    let place = (GIC_REDISTRIBUTOR_SGI_BASE + reg) as u64;
    let before = load(grouped, place);
    let after = (before & !(0xffu32 << (intid % 4 * 8) as u32)) | (DEFAULT_PRIORITY << (intid % 4
        * 8) as u32);
    lemma_private_word(grouped, reg, after);
    lemma_priority_byte(before, intid);
    let urgent = grouped.with_redistributor(0, grouped.redistributors[0].sgi_write32(reg, after));
    assert(run(gic, priority) == Some(urgent));
    let mask = 1u32 << (intid % 32);
    lemma_private_word(urgent, GICR_ISENABLER0, mask);
    bits::lemma_bit_update(urgent.redistributors[0].enable, intid, intid);
    let own = gic.redistributors[0];
    let gicr = run(gic, all)->0.redistributors[0];
    assert(word == own.group);
    assert(before == own.priority[(intid / 4) as int]);
    assert forall|other: u32| other < 32 && other != intid implies #[trigger] bits::bit(
        gicr.group,
        other,
    ) == bits::bit(own.group, other) by {
        bits::lemma_bit_ops(word & !0u32, 1u32 << (intid % 32), other);
        bits::lemma_bit_ops(word, 0, other);
        bits::lemma_bit_update(word, intid % 32, other);
    }
    assert forall|other: u32| other < 32 && other != intid implies #[trigger] bits::bit(
        gicr.enable,
        other,
    ) == bits::bit(own.enable, other) by {
        bits::lemma_bit_update(own.enable, intid % 32, other);
    }
    assert forall|other: u32| other < 32 && other != intid implies #[trigger] gicr.priority_of(
        other,
    ) == own.priority_of(other) by {
        if other / 4 == intid / 4 {
            lemma_other_priorities(before, (intid % 4) as u32);
        }
    }
}

/// Giving one of four interrupts a priority leaves the bytes of the others alone.
proof fn lemma_other_priorities(word: u32, place: u32)
    by (bit_vector)
    requires
        place < 4,
    ensures
        ({
            let set = (word & !(0xffu32 << (place * 8) as u32)) | (0x80u32 << (place * 8) as u32);
            &&& place != 0 ==> set % 0x100 == word % 0x100
            &&& place != 1 ==> set / 0x100 % 0x100 == word / 0x100 % 0x100
            &&& place != 2 ==> set / 0x1_0000 % 0x100 == word / 0x1_0000 % 0x100
            &&& place != 3 ==> set / 0x100_0000 == word / 0x100_0000
        }),
{
}

/// The step that puts a shared interrupt into group 1.
proof fn lemma_shared_group(gic: DistributorView, intid: u32)
    requires
        on_test_platform(gic),
        32 <= intid < GIC_SPECIAL_INTID,
        gic.valid_spi(intid),
    ensures
        stepped(gic, guest::enable_irq_steps(intid)[4]) is Some,
        ({
            let after = stepped(gic, guest::enable_irq_steps(intid)[4])->0;
            &&& on_test_platform(after)
            &&& after == (DistributorView { group: after.group, ..gic })
            &&& state::is_set(after.group, intid)
            &&& forall|other: u32|
                other != intid ==> #[trigger] state::is_set(after.group, other) == state::is_set(
                    gic.group,
                    other,
                )
        }),
{
    let i = (intid / 32) as int;
    let reg = (GICD_IGROUPR + intid / 32 * 4) as u16;
    let word = load(gic, (GIC_DISTRIBUTOR_BASE + reg) as u64);
    let set = (word & !0u32) | (1u32 << (intid % 32));
    lemma_distributor_word(gic, reg, set);
    lemma_set_bit(word, intid % 32);
    assert(state::in_bitmap(reg, GICD_IGROUPR));
    assert((reg - GICD_IGROUPR) / 4 == i);
    let after = gic.write32(reg, set);
    assert(after.group == gic.group.update(i, set));
    assert(word == gic.group[i]);
    assert forall|other: u32| other != intid implies #[trigger] state::is_set(after.group, other)
        == state::is_set(gic.group, other) by {
        bits::lemma_bit_ops(word, word, other % 32);
        bits::lemma_bit_ops(word & !0u32, 1u32 << (intid % 32), other % 32);
        bits::lemma_bit_ops(word, 0, other % 32);
        bits::lemma_bit_update(word, intid % 32, other % 32);
    }
    assert(stepped(gic, guest::enable_irq_steps(intid)[4]) == Some(after));
}

/// The step that gives a shared interrupt a priority.
proof fn lemma_shared_priority(gic: DistributorView, intid: u32)
    requires
        on_test_platform(gic),
        32 <= intid < GIC_SPECIAL_INTID,
        gic.valid_spi(intid),
    ensures
        stepped(gic, guest::enable_irq_steps(intid)[5]) is Some,
        ({
            let after = stepped(gic, guest::enable_irq_steps(intid)[5])->0;
            &&& on_test_platform(after)
            &&& after == (DistributorView { priority: after.priority, ..gic })
            &&& after.priority_of(intid) == DEFAULT_PRIORITY
            &&& forall|other: u32|
                other != intid ==> #[trigger] after.priority_of(other) == gic.priority_of(other)
        }),
{
    let i = (intid / 4) as int;
    let reg = (GICD_IPRIORITYR + intid / 4 * 4) as u16;
    let word = load(gic, (GIC_DISTRIBUTOR_BASE + reg) as u64);
    let set = (word & !(0xffu32 << (intid % 4 * 8) as u32)) | (DEFAULT_PRIORITY << (intid % 4
        * 8) as u32);
    lemma_distributor_word(gic, reg, set);
    lemma_priority_byte(word, intid);
    assert(state::in_ipriorityr(reg));
    assert((reg - GICD_IPRIORITYR) / 4 == i);
    let after = gic.write32(reg, set);
    assert(after.priority == gic.priority.update(i, set));
    assert(word == gic.priority[i]);
    assert forall|other: u32| other != intid implies #[trigger] after.priority_of(other)
        == gic.priority_of(other) by {
        if other / 4 == intid / 4 {
            lemma_other_priorities(word, (intid % 4) as u32);
        }
    }
    assert(stepped(gic, guest::enable_irq_steps(intid)[5]) == Some(after));
}

/// The step that enables a shared interrupt.
proof fn lemma_shared_enable(gic: DistributorView, intid: u32)
    requires
        on_test_platform(gic),
        32 <= intid < GIC_SPECIAL_INTID,
        gic.valid_spi(intid),
    ensures
        stepped(gic, guest::enable_irq_steps(intid)[6]) is Some,
        ({
            let after = stepped(gic, guest::enable_irq_steps(intid)[6])->0;
            &&& after == (DistributorView { enable: after.enable, ..gic })
            &&& state::is_set(after.enable, intid)
            &&& forall|other: u32|
                other != intid ==> #[trigger] state::is_set(after.enable, other) == state::is_set(
                    gic.enable,
                    other,
                )
        }),
{
    let i = (intid / 32) as int;
    let reg = (GICD_ISENABLER + intid / 32 * 4) as u16;
    let mask = 1u32 << (intid % 32);
    lemma_distributor_word(gic, reg, mask);
    bits::lemma_bit_update(gic.enable[i], intid % 32, intid % 32);
    assert(state::in_bitmap(reg, GICD_ISENABLER));
    assert((reg - GICD_ISENABLER) / 4 == i);
    let after = gic.write32(reg, mask);
    assert(after.enable == gic.enable.update(i, gic.enable[i] | mask));
    assert forall|other: u32| other != intid implies #[trigger] state::is_set(after.enable, other)
        == state::is_set(gic.enable, other) by {
        bits::lemma_bit_update(gic.enable[i], intid % 32, other % 32);
    }
    assert(stepped(gic, guest::enable_irq_steps(intid)[6]) == Some(after));
}

/// Enabling a shared interrupt puts it into group 1, gives it a priority and
/// enables it; what is pending, active or in flight stays as it is, and so does
/// every other interrupt.
#[verifier::rlimit(40)]
pub proof fn enabling_a_shared_interrupt(gic: DistributorView, intid: u32)
    requires
        on_test_platform(gic),
        32 <= intid < GIC_SPECIAL_INTID,
        gic.valid_spi(intid),
    ensures
        run(gic, guest::enable_irq_steps(intid)) is Some,
        ({
            let after = run(gic, guest::enable_irq_steps(intid))->0;
            &&& after.enable_grp1
            &&& state::is_set(after.group, intid)
            &&& state::is_set(after.enable, intid)
            &&& after.priority_of(intid) == DEFAULT_PRIORITY
            &&& after.pending == gic.pending
            &&& after.active == gic.active
            &&& after.in_flight == gic.in_flight
            &&& after.route == gic.route
            &&& after.cfg == gic.cfg
            &&& forall|other: u32|
                other != intid ==> #[trigger] state::is_set(after.group, other) == state::is_set(
                    gic.group,
                    other,
                )
            &&& forall|other: u32|
                other != intid ==> #[trigger] state::is_set(after.enable, other) == state::is_set(
                    gic.enable,
                    other,
                )
            &&& forall|other: u32|
                other != intid ==> #[trigger] after.priority_of(other) == gic.priority_of(other)
        }),
{
    let all = guest::enable_irq_steps(intid);
    let head = guest::enable_gic_steps();
    let group = head.push(all[4]);
    let priority = group.push(all[5]);
    let enable = priority.push(all[6]);
    assert(all =~= enable.push(all[7]));
    enabling_the_gic(gic);
    lemma_run_push(gic, head, all[4]);
    lemma_run_push(gic, group, all[5]);
    lemma_run_push(gic, priority, all[6]);
    lemma_run_push(gic, enable, all[7]);
    let ready = gic_enabled(gic);
    lemma_shared_group(ready, intid);
    let grouped = stepped(ready, all[4])->0;
    lemma_shared_priority(grouped, intid);
    let urgent = stepped(grouped, all[5])->0;
    lemma_shared_enable(urgent, intid);
    let after = stepped(urgent, all[6])->0;
    assert(run(gic, group) == Some(grouped));
    assert(run(gic, priority) == Some(urgent));
    assert(run(gic, enable) == Some(after));
    assert(run(gic, all) == Some(after));
    assert(after.group == grouped.group && after.priority == urgent.priority);
    assert(ready.group == gic.group && ready.priority == gic.priority && ready.enable == gic.enable);
    assert(after.priority_of(intid) == urgent.priority_of(intid));
    assert forall|other: u32| other != intid implies #[trigger] after.priority_of(other)
        == gic.priority_of(other) by {
        assert(after.priority_of(other) == urgent.priority_of(other));
        assert(urgent.priority_of(other) == grouped.priority_of(other));
        assert(grouped.priority == gic.priority);
    }
    assert forall|other: u32| other != intid implies #[trigger] state::is_set(after.enable, other)
        == state::is_set(gic.enable, other) by {
        assert(urgent.enable == gic.enable);
    }
    assert forall|other: u32| other != intid implies #[trigger] state::is_set(after.group, other)
        == state::is_set(gic.group, other) by {
        assert(state::is_set(grouped.group, other) == state::is_set(ready.group, other));
    }
}

/// Disabling an interrupt clears its enable bit and changes nothing else, of it or
/// of any other.
pub proof fn disabling_an_interrupt(gic: DistributorView, intid: u32, other: u32)
    requires
        other != intid,
        on_test_platform(gic),
        intid < GIC_SPECIAL_INTID,
        intid < 32 || gic.valid_spi(intid),
    ensures
        run(gic, guest::disable_irq_steps(intid)) is Some,
        ({
            let after = run(gic, guest::disable_irq_steps(intid))->0;
            if intid < 32 {
                let own = after.redistributors[0];
                &&& !bits::bit(own.enable, intid)
                &&& other < 32 ==> bits::bit(own.enable, other) == bits::bit(
                    gic.redistributors[0].enable,
                    other,
                )
                &&& after == gic.with_redistributor(
                    0,
                    RedistributorView { enable: own.enable, ..gic.redistributors[0] },
                )
            } else {
                &&& !state::is_set(after.enable, intid)
                &&& state::is_set(after.enable, other) == state::is_set(gic.enable, other)
                &&& after == (DistributorView { enable: after.enable, ..gic })
            }
        }),
{
    let all = guest::disable_irq_steps(intid);
    let none = Seq::<GicStep>::empty();
    let one = none.push(all[0]);
    assert(all =~= one.push(all[1]));
    lemma_run_push(gic, none, all[0]);
    lemma_run_push(gic, one, all[1]);
    let mask = 1u32 << (intid % 32);
    if intid < 32 {
        lemma_private_word(gic, GICR_ICENABLER0, mask);
        bits::lemma_bit_update(gic.redistributors[0].enable, intid, intid);
        if other < 32 {
            bits::lemma_bit_update(gic.redistributors[0].enable, intid, other);
        }
    } else {
        let i = (intid / 32) as int;
        let reg = (GICD_ICENABLER + intid / 32 * 4) as u16;
        lemma_distributor_word(gic, reg, mask);
        bits::lemma_bit_update(gic.enable[i], intid % 32, intid % 32);
        bits::lemma_bit_update(gic.enable[i], intid % 32, other % 32);
        assert(run(gic, one) == Some(gic.write32(reg, mask)));
    }
}

/// Pending a shared interrupt latches it, whatever its line does, and leaves
/// every other interrupt alone.
pub proof fn pending_a_shared_interrupt(gic: DistributorView, intid: u32, other: u32)
    requires
        on_test_platform(gic),
        32 <= intid < GIC_SPECIAL_INTID,
        gic.valid_spi(intid),
        other != intid,
    ensures
        run(gic, guest::pend_spi_steps(intid)) is Some,
        state::is_set(run(gic, guest::pend_spi_steps(intid))->0.pending, intid),
        state::is_set(run(gic, guest::pend_spi_steps(intid))->0.pending, other)
            == state::is_set(gic.pending, other),
{
    let all = guest::pend_spi_steps(intid);
    let none = Seq::<GicStep>::empty();
    let one = none.push(all[0]);
    assert(all =~= one.push(all[1]));
    lemma_run_push(gic, none, all[0]);
    lemma_run_push(gic, one, all[1]);
    let mask = 1u32 << (intid % 32);
    let i = (intid / 32) as int;
    let reg = (GICD_ISPENDR + intid / 32 * 4) as u16;
    lemma_distributor_word(gic, reg, mask);
    bits::lemma_low_five(intid);
    bits::lemma_low_five(other);
    bits::lemma_bit_update(gic.pending[i], intid % 32, intid % 32);
    bits::lemma_bit_update(gic.pending[i], intid % 32, other % 32);
    assert(run(gic, one) == Some(gic.write32(reg, mask)));
}

} // verus!
