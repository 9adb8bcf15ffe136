//! What holds of the GIC as a whole: properties that span several of its
//! operations.

use super::interrupt;
use super::interrupt::PendingInterrupt;
use super::redistributor;
use super::redistributor::RedistributorView;
use super::registers::{
    GicrSgi, GICD_CTLR, GICD_CTLR_ENABLE_GRP0, GICD_CTLR_ENABLE_GRP1, GICD_ICACTIVER,
    GICD_ICENABLER, GICD_ICFGR, GICD_ICPENDR, GICD_IGROUPR, GICD_IPRIORITYR, GICD_IROUTER,
    GICD_ISACTIVER, GICD_ISENABLER, GICD_ISPENDR, GIC_REDISTRIBUTOR_SIZE, ICFGR_TRIGGER_MASK,
};
use super::state;
use super::state::DistributorView;
use crate::bits;
use crate::bytes;
use vstd::prelude::*;

verus! {

/// Setting or clearing the bit of one interrupt leaves those of all others
/// alone.
pub proof fn lemma_with_bit(words: Seq<u32>, intid: u32, value: bool, other: u32)
    requires
        intid / 32 < words.len(),
    ensures
        state::is_set(state::with_bit(words, intid, value), other) == (if other == intid {
            value
        } else {
            state::is_set(words, other)
        }),
        state::with_bit(words, intid, value).len() == words.len(),
{
    bits::lemma_low_five(intid);
    bits::lemma_low_five(other);
    bits::lemma_bit_update(words[(intid / 32) as int], intid % 32, other % 32);
}

/// Whether a shared interrupt can be chosen for `vp` at all, as long as group 1 is
/// enabled: it is enabled, in group 1, neither active nor in flight, latched or
/// held by a level-sensitive line, routed to the processor and more urgent than
/// what runs.
pub open spec fn spi_is_eligible(
    view: DistributorView,
    vp: u32,
    running_priority: u8,
    intid: u32,
) -> bool {
    &&& 32 <= intid <= view.max_spi_intid
    &&& state::is_set(view.enable, intid)
    &&& state::is_set(view.group, intid)
    &&& !state::is_set(view.active, intid)
    &&& view.in_flight[intid as int] is None
    &&& state::is_set(view.pending, intid) || (state::is_set(view.asserted, intid)
        && !view.edge_triggered(intid))
    &&& view.targets(intid, vp)
    &&& view.priority_of(intid) < running_priority
}

/// What the choice of the next shared interrupt comes to: with group 1 disabled
/// there is none; otherwise there is one exactly where one is eligible, and the
/// one that is chosen has the lowest priority value of these, and among equals the
/// lowest interrupt ID.
pub proof fn most_urgent_spi_is_chosen(
    view: DistributorView,
    vp: u32,
    running_priority: u8,
    next: Option<PendingInterrupt>,
)
    requires
        interrupt::is_first(
            view.spi_deliverable(vp, running_priority),
            |i: u32| view.priority_of(i),
            next,
        ),
    ensures
        !view.enable_grp1 ==> next is None,
        view.enable_grp1 ==> (next is None <==> forall|i: u32|
            !#[trigger] spi_is_eligible(view, vp, running_priority, i)),
        next matches Some(chosen) ==> {
            &&& spi_is_eligible(view, vp, running_priority, chosen.intid)
            &&& chosen.priority == view.priority_of(chosen.intid)
            &&& chosen.group1
            &&& forall|i: u32| #[trigger]
                spi_is_eligible(view, vp, running_priority, i) ==> chosen.priority
                    < view.priority_of(i) || (chosen.priority == view.priority_of(i)
                    && chosen.intid <= i)
        },
{
    let all = view.spi_deliverable(vp, running_priority);
    assert forall|i: u32|
        all.contains(i) == (view.enable_grp1 && #[trigger] spi_is_eligible(
            view,
            vp,
            running_priority,
            i,
        )) by {}
    match next {
        Some(chosen) => {
            assert(spi_is_eligible(view, vp, running_priority, chosen.intid));
        },
        None => {},
    }
}

/// An interrupt that is in a list register is delivered to nobody, until it is
/// retired from there.
pub proof fn injected_is_not_delivered(
    before: DistributorView,
    vp: u32,
    intid: u32,
    other: u32,
    running_priority: u8,
)
    requires
        before.wf(),
        before.valid_spi(intid),
    ensures
        !before.injected(vp, intid).spi_deliverable(other, running_priority).contains(intid),
        !before.reserved(vp, intid).spi_deliverable(other, running_priority).contains(intid),
{
}

/// A level-sensitive interrupt whose line stays high is delivered again each
/// time that it is retired from its list register.
pub proof fn level_interrupt_is_redelivered(
    before: DistributorView,
    vp: u32,
    intid: u32,
    running_priority: u8,
)
    requires
        before.wf(),
        before.spi_deliverable(vp, running_priority).contains(intid),
        !before.edge_triggered(intid),
        state::is_set(before.asserted, intid),
    ensures
        before.injected(vp, intid).with_in_flight(intid, None).spi_deliverable(
            vp,
            running_priority,
        ).contains(intid),
{
    lemma_with_bit(before.pending, intid, false, intid);
}

/// Once its line is low, a level-sensitive interrupt that was put into a list
/// register is not delivered again, to any processor.
pub proof fn deasserted_level_interrupt_is_not_redelivered(
    before: DistributorView,
    vp: u32,
    intid: u32,
    other: u32,
    running_priority: u8,
)
    requires
        before.wf(),
        before.valid_spi(intid),
        !before.edge_triggered(intid),
    ensures
        !before.injected(vp, intid).with_line(intid, false).with_in_flight(
            intid,
            None,
        ).spi_deliverable(other, running_priority).contains(intid),
{
    lemma_with_bit(before.pending, intid, false, intid);
    lemma_with_bit(before.asserted, intid, false, intid);
}

/// Lowering a line never clears a latched interrupt.
pub proof fn deassertion_keeps_latched_interrupts(before: DistributorView, intid: u32)
    ensures
        before.with_line(intid, false).pending == before.pending,
        before.with_line(intid, false).in_flight == before.in_flight,
{
}

/// A rising edge on the line of an edge-triggered interrupt is remembered after
/// the line has fallen, and forgotten once the interrupt was put into a list
/// register.
pub proof fn edge_interrupt_is_latched_until_injected(
    before: DistributorView,
    vp: u32,
    intid: u32,
)
    requires
        before.wf(),
        before.valid_spi(intid),
        before.edge_triggered(intid),
        !state::is_set(before.asserted, intid),
    ensures
        ({
            let pulsed = before.with_line(intid, true).with_line(intid, false);
            &&& pulsed.requested(intid)
            &&& !pulsed.injected(vp, intid).with_in_flight(intid, None).requested(intid)
        }),
{
    lemma_with_bit(before.asserted, intid, true, intid);
    lemma_with_bit(before.pending, intid, true, intid);
    let raised = before.with_line(intid, true);
    lemma_with_bit(raised.asserted, intid, false, intid);
    let pulsed = raised.with_line(intid, false);
    lemma_with_bit(pulsed.pending, intid, false, intid);
}

/// Driving a line to the level that it has changes nothing and wakes nobody.
pub proof fn driving_a_line_twice_is_driving_it_once(
    before: DistributorView,
    intid: u32,
    high: bool,
)
    requires
        before.wf(),
    ensures
        ({
            let after = before.with_line(intid, high);
            &&& after.with_line(intid, high) == after
            &&& after.woken_by_line(intid, high) == Seq::<super::registers::VpIndex>::empty()
        }),
{
    let after = before.with_line(intid, high);
    if before.valid_spi(intid) {
        lemma_with_bit(before.asserted, intid, high, intid);
        let i = (intid / 32) as int;
        let word = after.asserted[i];
        let b = intid % 32;
        bits::lemma_low_five(intid);
        assert(b < 32 ==> (word & (1u32 << b) != 0 ==> word | (1u32 << b) == word) && (word & (1u32
            << b) == 0 ==> word & !(1u32 << b) == word)) by (bit_vector);
        assert(after.with_line(intid, high).asserted =~= after.asserted);
    }
}

/// Driving the line of one interrupt leaves every other interrupt as requested
/// as it was.
pub proof fn lines_are_independent(before: DistributorView, intid: u32, high: bool, other: u32)
    requires
        before.wf(),
        other != intid,
    ensures
        before.with_line(intid, high).requested(other) == before.requested(other),
{
    if before.valid_spi(intid) {
        lemma_with_bit(before.asserted, intid, high, other);
        lemma_with_bit(before.pending, intid, true, other);
    }
}

/// Giving back an interrupt that was set aside undoes the reservation.
pub proof fn cancelling_undoes_a_reservation(
    before: DistributorView,
    vp: u32,
    intid: u32,
    running_priority: u8,
)
    requires
        before.wf(),
        before.spi_deliverable(vp, running_priority).contains(intid),
    ensures
        before.reserved(vp, intid).reservation_cancelled(vp, intid) == before,
{
    assert(before.reserved(vp, intid).reservation_cancelled(vp, intid) =~= before);
}

/// With group 1 disabled, or at the most urgent running priority, nothing is
/// delivered.
pub proof fn masked_processor_gets_nothing(
    before: DistributorView,
    vp: u32,
    running_priority: u8,
    intid: u32,
)
    requires
        !before.enable_grp1 || running_priority == 0,
    ensures
        !before.deliverable(vp, running_priority).contains(intid),
{
}

/// A higher running priority value admits every interrupt that a lower one
/// does.
pub proof fn priority_mask_is_monotonic(
    before: DistributorView,
    vp: u32,
    lower: u8,
    higher: u8,
    intid: u32,
)
    requires
        lower <= higher,
        before.deliverable(vp, lower).contains(intid),
    ensures
        before.deliverable(vp, higher).contains(intid),
{
}

/// An interrupt that was acknowledged is active and no longer latched, so it is
/// delivered to nobody; ending it makes it inactive again.
pub proof fn acknowledged_until_ended(
    before: DistributorView,
    intid: u32,
    vp: u32,
    running_priority: u8,
)
    requires
        before.wf(),
        intid / 32 < before.pending.len(),
    ensures
        ({
            let taken = before.acknowledged(intid);
            &&& state::is_set(taken.active, intid)
            &&& !state::is_set(taken.pending, intid)
            &&& !taken.spi_deliverable(vp, running_priority).contains(intid)
            &&& !state::is_set(taken.ended(intid).active, intid)
        }),
{
    lemma_with_bit(before.pending, intid, false, intid);
    lemma_with_bit(before.active, intid, true, intid);
    lemma_with_bit(before.acknowledged(intid).active, intid, false, intid);
}

/// A private interrupt that was acknowledged is active and no longer pending,
/// until it is ended; the other private interrupts stay as they are.
pub proof fn private_acknowledged_until_ended(before: RedistributorView, intid: u32, other: u32)
    requires
        intid < 32,
        other < 32,
    ensures
        ({
            let taken = before.raised(intid).acknowledged(intid);
            let ended = taken.ended(intid);
            &&& bits::bit(taken.active, intid) && !bits::bit(taken.pending, intid)
            &&& !bits::bit(ended.active, intid) && !bits::bit(ended.pending, intid)
            &&& other != intid ==> bits::bit(ended.active, other) == bits::bit(
                before.active,
                other,
            )
            &&& other != intid ==> bits::bit(ended.pending, other) == bits::bit(
                before.pending,
                other,
            )
        }),
{
    let raised = before.raised(intid);
    let taken = raised.acknowledged(intid);
    bits::lemma_bit_update(before.pending, intid, intid);
    bits::lemma_bit_update(before.pending, intid, other);
    bits::lemma_bit_update(raised.pending, intid, intid);
    bits::lemma_bit_update(raised.pending, intid, other);
    bits::lemma_bit_update(raised.active, intid, intid);
    bits::lemma_bit_update(raised.active, intid, other);
    bits::lemma_bit_update(taken.active, intid, intid);
    bits::lemma_bit_update(taken.active, intid, other);
}

/// A broadcast SGI becomes pending at every processor but its sender, and
/// changes nothing there.
pub proof fn broadcast_reaches_all_but_the_sender(
    before: DistributorView,
    sender: int,
    sgi: GicrSgi,
    i: int,
)
    requires
        sgi.irm,
        sgi.intid < 16,
        0 <= i < before.redistributors.len(),
    ensures
        i == sender ==> before.with_sgi(sender, sgi).redistributors[i]
            == before.redistributors[i],
        i != sender ==> bits::bit(
            before.with_sgi(sender, sgi).redistributors[i].pending,
            sgi.intid as u32,
        ),
{
    bits::lemma_bit_update(before.redistributors[i].pending, sgi.intid as u32, sgi.intid as u32);
}

/// A group, priority or route that a guest writes is what it reads back, and a
/// configuration too, but for its reserved bits.
pub proof fn registers_read_back(before: DistributorView, i: u16, value: u32, route: u64)
    requires
        before.wf(),
    ensures
        1 <= i < 32 && i < before.group.len() ==> ({
            let reg = (GICD_IGROUPR + i * 4) as u16;
            before.write32(reg, value).read32(reg) == Some(value)
        }),
        8 <= i < 256 && i < before.priority.len() ==> ({
            let reg = (GICD_IPRIORITYR + i * 4) as u16;
            before.write32(reg, value).read32(reg) == Some(value)
        }),
        2 <= i < 64 && i < before.cfg.len() ==> ({
            let reg = (GICD_ICFGR + i * 4) as u16;
            before.write32(reg, value).read32(reg) == Some(value & ICFGR_TRIGGER_MASK)
        }),
        32 <= i < 1024 && i < before.route.len() ==> ({
            let reg = (GICD_IROUTER + i * 8) as u16;
            before.write64(reg, route).read64(reg) == Some(route)
        }),
{
}

/// The bytes that a guest stores in a group or priority register of the
/// distributor are the bytes that it loads from there.
pub proof fn stored_bytes_are_loaded(before: DistributorView, offset: u64, data: Seq<u8>)
    requires
        before.wf(),
        data.len() == 4,
        !redistributor::misaligned(offset, 4),
        offset < 0x1_0000,
        ({
            let reg = offset as u16;
            ||| state::in_bitmap(reg, GICD_IGROUPR) && 1 <= (reg - GICD_IGROUPR) / 4
                < before.group.len()
            ||| state::in_ipriorityr(reg) && 8 <= (reg - GICD_IPRIORITYR) / 4
                < before.priority.len()
        }),
    ensures
        before.write_gicd(offset, data).read_gicd(offset, 4) == data,
{
    bytes::lemma_pow256();
    bytes::lemma_le_value_bound(data);
    bytes::lemma_le_bytes_of_value(data);
}

/// Writing a one to a set-enable or set-pending register sets the bit of that
/// interrupt, writing it to the clear register clears it, and every bit that is
/// written as zero stays as it is.
pub proof fn set_and_clear_registers_touch_the_ones(
    before: DistributorView,
    intid: u32,
    value: u32,
)
    requires
        before.wf(),
        32 <= intid < 1024,
        intid / 32 < before.pending.len(),
    ensures
        ({
            let offset = intid / 32 * 4;
            let one = bits::bit(value, intid % 32);
            &&& state::is_set(before.write32((GICD_ISENABLER + offset) as u16, value).enable, intid)
                == (state::is_set(before.enable, intid) || one)
            &&& state::is_set(before.write32((GICD_ICENABLER + offset) as u16, value).enable, intid)
                == (state::is_set(before.enable, intid) && !one)
            &&& state::is_set(before.write32((GICD_ISPENDR + offset) as u16, value).pending, intid)
                == (state::is_set(before.pending, intid) || one)
            &&& state::is_set(before.write32((GICD_ICPENDR + offset) as u16, value).pending, intid)
                == (state::is_set(before.pending, intid) && !one)
        }),
{
    let i = (intid / 32) as int;
    bits::lemma_low_five(intid);
    bits::lemma_bit_ops(before.enable[i], value, intid % 32);
    bits::lemma_bit_ops(before.pending[i], value, intid % 32);
}

/// That at most the word at `i` differs, and none where `i` is below `first`, among
/// the words of the private interrupts, or behind the implemented ones.
pub open spec fn at_most_word(before: Seq<u32>, after: Seq<u32>, first: int, i: int) -> bool {
    &&& after.len() == before.len()
    &&& forall|j: int| 0 <= j < before.len() && j != i ==> #[trigger] after[j] == before[j]
    &&& i < first || i >= before.len() ==> after == before
}

/// A guest's write of a word to the distributor changes the word that it addresses
/// and nothing else, or for the control register the enables of the two groups. It
/// changes nothing in the words of private interrupts, in those behind the
/// implemented interrupts, and where no register takes it.
pub proof fn writes_touch_one_word(before: DistributorView, reg: u16, value: u32)
    requires
        reg % 4 == 0,
    ensures
        ({
            let after = before.write32(reg, value);
            &&& !state::takes_write32(reg) ==> after == before
            &&& reg == GICD_CTLR ==> after == (DistributorView {
                enable_grp0: value & GICD_CTLR_ENABLE_GRP0 != 0,
                enable_grp1: value & GICD_CTLR_ENABLE_GRP1 != 0,
                ..before
            })
            &&& state::in_bitmap(reg, GICD_IGROUPR) ==> {
                &&& after == (DistributorView { group: after.group, ..before })
                &&& at_most_word(before.group, after.group, 1, (reg - GICD_IGROUPR) / 4)
            }
            &&& state::in_bitmap(reg, GICD_ISENABLER) ==> {
                &&& after == (DistributorView { enable: after.enable, ..before })
                &&& at_most_word(before.enable, after.enable, 1, (reg - GICD_ISENABLER) / 4)
            }
            &&& state::in_bitmap(reg, GICD_ICENABLER) ==> {
                &&& after == (DistributorView { enable: after.enable, ..before })
                &&& at_most_word(before.enable, after.enable, 1, (reg - GICD_ICENABLER) / 4)
            }
            &&& state::in_bitmap(reg, GICD_ISPENDR) ==> {
                &&& after == (DistributorView { pending: after.pending, ..before })
                &&& at_most_word(before.pending, after.pending, 1, (reg - GICD_ISPENDR) / 4)
            }
            &&& state::in_bitmap(reg, GICD_ICPENDR) ==> {
                &&& after == (DistributorView { pending: after.pending, ..before })
                &&& at_most_word(before.pending, after.pending, 1, (reg - GICD_ICPENDR) / 4)
            }
            &&& state::in_bitmap(reg, GICD_ISACTIVER) ==> {
                &&& after == (DistributorView { active: after.active, ..before })
                &&& at_most_word(before.active, after.active, 1, (reg - GICD_ISACTIVER) / 4)
            }
            &&& state::in_bitmap(reg, GICD_ICACTIVER) ==> {
                &&& after == (DistributorView { active: after.active, ..before })
                &&& at_most_word(before.active, after.active, 1, (reg - GICD_ICACTIVER) / 4)
            }
            &&& state::in_ipriorityr(reg) ==> {
                &&& after == (DistributorView { priority: after.priority, ..before })
                &&& at_most_word(before.priority, after.priority, 8, (reg - GICD_IPRIORITYR) / 4)
            }
            &&& state::in_icfgr(reg) ==> {
                &&& after == (DistributorView { cfg: after.cfg, ..before })
                &&& at_most_word(before.cfg, after.cfg, 2, (reg - GICD_ICFGR) / 4)
            }
        }),
{
}

/// The registers of the private interrupts do not belong to the distributor:
/// writes to them in its frame change nothing.
pub proof fn private_registers_ignore_writes(before: DistributorView, reg: u16, value: u32)
    requires
        reg != GICD_CTLR,
        ({
            let offset = if state::in_ipriorityr(reg) {
                (reg - GICD_IPRIORITYR) / 32
            } else if state::in_icfgr(reg) {
                (reg - GICD_ICFGR) / 8
            } else {
                (reg % 0x80) as int / 4
            };
            offset == 0
        }),
    ensures
        before.write32(reg, value) == before,
{
}

/// A guest's write in the range of one redistributor leaves the distributor and
/// every other redistributor alone.
pub proof fn redistributor_writes_are_local(
    before: DistributorView,
    address: u64,
    data: Seq<u8>,
    i: int,
)
    requires
        before.wf(),
        before.gicr_range.spec_contains(address),
        !before.gicd_range.spec_contains(address),
        0 <= i < before.redistributors.len(),
        i != before.redistributor_at(address),
    ensures
        ({
            let after = before.write(address, data);
            &&& after.redistributors[i] == before.redistributors[i]
            &&& after == (DistributorView { redistributors: after.redistributors, ..before })
        }),
{
}

/// Every address in the range of `n` redistributors belongs to one of them.
pub proof fn redistributor_range_is_covered(before: DistributorView, address: u64)
    requires
        before.wf(),
        before.gicr_range.spec_contains(address),
        before.gicr_range.spec_end() - before.gicr_range.spec_start()
            == before.redistributors.len() * GIC_REDISTRIBUTOR_SIZE,
    ensures
        0 <= before.redistributor_at(address) < before.redistributors.len(),
{
}

/// A guest's write of a word to a redistributor is what it reads back, for the
/// groups, the priorities and the configuration.
pub proof fn private_registers_read_back(before: RedistributorView, i: u16, value: u32)
    requires
        before.wf(),
    ensures
        ({
            let reg = super::registers::GICR_IGROUPR0;
            before.sgi_write32(reg, value).sgi_read32(reg) == Some(value)
        }),
        i < 8 ==> ({
            let reg = (super::registers::GICR_IPRIORITYR0 + i * 4) as u16;
            before.sgi_write32(reg, value).sgi_read32(reg) == Some(value)
        }),
        ({
            let reg = super::registers::GICR_ICFGR1;
            before.sgi_write32(reg, value).sgi_read32(reg) == Some(value)
        }),
{
}

/// An access that is not aligned to its size reads as ones and writes nothing.
pub proof fn misaligned_access_is_inert(before: DistributorView, offset: u64, data: Seq<u8>)
    requires
        redistributor::misaligned(offset, data.len()),
    ensures
        before.read_gicd(offset, data.len()) == Seq::new(data.len(), |i: int| 0xffu8),
        before.write_gicd(offset, data) == before,
{
}

} // verus!
