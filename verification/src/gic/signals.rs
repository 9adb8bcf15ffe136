//! What interrupt lines, software-generated interrupts and acknowledgements do to
//! the controller, bit by bit.

use super::delivery;
use super::laws;
use super::model;
use super::model::GicV3ModelError;
use super::redistributor::RedistributorView;
use super::registers::{GicrSgi, VpIndex};
use super::state::DistributorView;
use crate::bits;
use crate::bytes;
use crate::memory_range::MemoryRange;
use crate::topology::{Aarch64Topology, GicVersion};
use vstd::prelude::*;

verus! {

/// What driving the line of a shared interrupt does: the line has the level it is
/// driven to; a rising edge is latched if the upper configuration bit says so; and
/// exactly on a rising edge the processors that the route admits are woken. The
/// line and latch of every other interrupt stay as they are, and an ID that is no
/// shared interrupt does nothing.
pub proof fn lines_by_bits(
    before: DistributorView,
    intid: u32,
    high: bool,
    other: u32,
    vp: u32,
)
    requires
        before.wf(),
        before.redistributors.len() <= 0x1_0000_0000,
        other <= before.max_spi_intid,
        before.pending.len() > 0,
    ensures
        ({
            let after = before.with_line(intid, high);
            let woken = before.woken_by_line(intid, high);
            let is_spi = 32 <= intid <= before.max_spi_intid;
            let was_high = delivery::bit_of(before.asserted, intid);
            let edge = (before.cfg[(intid / 16) as int] >> (2 * (intid % 16) + 1)) & 1 == 1;
            &&& after == (DistributorView {
                asserted: after.asserted,
                pending: after.pending,
                ..before
            })
            &&& !is_spi ==> after == before && woken.len() == 0
            &&& is_spi ==> delivery::bit_of(after.asserted, intid) == high
            &&& is_spi ==> (delivery::bit_of(after.pending, intid) <==> delivery::bit_of(
                before.pending,
                intid,
            ) || (high && !was_high && edge))
            &&& other != intid ==> (delivery::bit_of(after.asserted, other) <==> delivery::bit_of(
                before.asserted,
                other,
            ))
            &&& other != intid ==> (delivery::bit_of(after.pending, other) <==> delivery::bit_of(
                before.pending,
                other,
            ))
            &&& is_spi ==> (woken.contains(VpIndex(vp)) <==> {
                &&& high
                &&& !was_high
                &&& vp < before.redistributors.len()
                &&& delivery::route_admits(
                    before.route[intid as int],
                    before.redistributors[vp as int].mpidr,
                )
            })
        }),
{
    let after = before.with_line(intid, high);
    if 32 <= intid <= before.max_spi_intid {
        let (w, o) = ((intid / 32) as int, (other / 32) as int);
        laws::lemma_with_bit(before.asserted, intid, high, intid);
        laws::lemma_with_bit(before.asserted, intid, high, other);
        laws::lemma_with_bit(before.pending, intid, true, intid);
        laws::lemma_with_bit(before.pending, intid, true, other);
        bits::lemma_bit_shifted(before.asserted[w], intid % 32);
        bits::lemma_bit_shifted(before.asserted[o], other % 32);
        bits::lemma_bit_shifted(before.pending[w], intid % 32);
        bits::lemma_bit_shifted(before.pending[o], other % 32);
        bits::lemma_bit_shifted(after.asserted[w], intid % 32);
        bits::lemma_bit_shifted(after.asserted[o], other % 32);
        bits::lemma_bit_shifted(after.pending[w], intid % 32);
        bits::lemma_bit_shifted(after.pending[o], other % 32);
        bits::lemma_bit_shifted(before.cfg[(intid / 16) as int], (2 * (intid % 16) + 1) as u32);
        delivery::lemma_targets_contain(before, intid, vp);
        delivery::lemma_route_admits(before.route[intid as int], before.redistributors[vp as int].mpidr);
    }
}

/// What a private interrupt that is raised does: its own bit is pending, and no
/// other changes.
pub proof fn raised_by_bits(before: RedistributorView, intid: u32, other: u32)
    requires
        intid < 32,
        other < 32,
    ensures
        ({
            let after = before.raised(intid);
            &&& after == (RedistributorView { pending: after.pending, ..before })
            &&& (after.pending >> other) & 1 == 1 <==> (before.pending >> other) & 1 == 1 || other
                == intid
        }),
{
    bits::lemma_bit_update(before.pending, intid, other);
    bits::lemma_bit_shifted(before.pending, other);
    bits::lemma_bit_shifted(before.pending | (1u32 << intid), other);
}

/// What acknowledging an interrupt gives a processor. While it has a private one
/// pending, it gets the one of the highest ID that is not active; otherwise
/// processor 0 gets a latched shared one that is not active, and where there is
/// none, ID 1023. What it gets is then active and no longer pending.
pub proof fn acknowledged_by_bits(
    before: DistributorView,
    index: int,
    intid: u32,
    after: DistributorView,
    other: u32,
)
    requires
        before.wf(),
        0 <= index < before.redistributors.len(),
        before.acks(index, intid, after),
        other < 32,
    ensures
        ({
            let (old_own, own) = (before.redistributors[index], after.redistributors[index]);
            if old_own.pending != 0 {
                &&& intid < 32
                &&& (old_own.pending >> intid) & 1 == 1
                &&& (old_own.active >> intid) & 1 == 0
                &&& (old_own.pending >> other) & 1 == 1 && (old_own.active >> other) & 1 == 0
                    ==> other <= intid
                &&& (own.pending >> other) & 1 == 1 <==> (old_own.pending >> other) & 1 == 1 && other
                    != intid
                &&& (own.active >> other) & 1 == 1 <==> (old_own.active >> other) & 1 == 1 || other
                    == intid
                &&& after.pending == before.pending
                &&& after.active == before.active
            } else {
                &&& own == old_own
                &&& index != 0 ==> intid == 1023 && after == before
                &&& after != before ==> {
                    &&& intid / 32 < before.pending.len()
                    &&& delivery::bit_of(before.pending, intid)
                    &&& !delivery::bit_of(before.active, intid)
                    &&& !delivery::bit_of(after.pending, intid)
                    &&& delivery::bit_of(after.active, intid)
                }
                &&& after == before ==> intid == 1023 || before.pending.len() > 31
            }
        }),
{
    let old_own = before.redistributors[index];
    if old_own.pending != 0 {
        bits::lemma_bit_ops(old_own.pending, !old_own.active, intid);
        bits::lemma_bit_ops(old_own.active, old_own.active, intid);
        bits::lemma_bit_ops(old_own.pending, !old_own.active, other);
        bits::lemma_bit_ops(old_own.active, old_own.active, other);
        bits::lemma_bit_shifted(old_own.pending, intid);
        bits::lemma_bit_shifted(old_own.active, intid);
        bits::lemma_bit_shifted(old_own.pending, other);
        bits::lemma_bit_shifted(old_own.active, other);
        bits::lemma_bit_update(old_own.pending, intid, other);
        bits::lemma_bit_update(old_own.active, intid, other);
        bits::lemma_bit_shifted(old_own.pending & !(1u32 << intid), other);
        bits::lemma_bit_shifted(old_own.active | (1u32 << intid), other);
    } else if index == 0 && exists|i: int| before.waiting(i) {
        let w = (intid / 32) as int;
        let low = intid % 32;
        bits::lemma_bit_ops(before.pending[w], !before.active[w], low);
        bits::lemma_bit_ops(before.active[w], before.active[w], low);
        bits::lemma_bit_shifted(before.pending[w], low);
        bits::lemma_bit_shifted(before.active[w], low);
        laws::lemma_with_bit(before.pending, intid, false, intid);
        laws::lemma_with_bit(before.active, intid, true, intid);
        bits::lemma_bit_shifted(after.pending[w], low);
        bits::lemma_bit_shifted(after.active[w], low);
        assert(after.active[w] != before.active[w]);
    }
}

/// What ending an interrupt does: a private one is no longer active at the
/// processor that ends it, and a shared one no longer active where processor 0
/// ends it. Nothing else changes.
pub proof fn ended_by_bits(before: DistributorView, index: int, intid: u32, other: u32)
    requires
        before.wf(),
        0 <= index < before.redistributors.len(),
        before.can_end(index, intid),
    ensures
        ({
            let after = before.ended_by(index, intid);
            let (old_own, own) = (before.redistributors[index], after.redistributors[index]);
            &&& intid < 32 ==> {
                &&& after == before.with_redistributor(index, own)
                &&& own == (RedistributorView { active: own.active, ..old_own })
                &&& other < 32 ==> ((own.active >> other) & 1 == 1 <==> (old_own.active >> other) & 1
                    == 1 && other != intid)
            }
            &&& intid >= 32 && index == 0 ==> {
                &&& after == (DistributorView { active: after.active, ..before })
                &&& other / 32 < before.active.len() ==> (delivery::bit_of(after.active, other)
                    <==> delivery::bit_of(before.active, other) && other != intid)
            }
            &&& intid >= 32 && index != 0 ==> after == before
        }),
{
    let old_own = before.redistributors[index];
    let after = before.ended_by(index, intid);
    if intid < 32 && other < 32 {
        bits::lemma_bit_update(old_own.active, intid, other);
        bits::lemma_bit_shifted(old_own.active, other);
        bits::lemma_bit_shifted(old_own.active & !(1u32 << intid), other);
    }
    if intid >= 32 && index == 0 && other / 32 < before.active.len() {
        laws::lemma_with_bit(before.active, intid, false, other);
        bits::lemma_bit_shifted(before.active[(other / 32) as int], other % 32);
        bits::lemma_bit_shifted(after.active[(other / 32) as int], other % 32);
    }
}

/// A processor has an interrupt to take exactly where one of its private ones is
/// pending, not active, enabled and in group 1; and processor 0 also where a
/// shared one is latched, enabled and not active.
pub proof fn pending_by_bits(view: DistributorView, index: int)
    requires
        view.wf(),
        0 <= index < view.redistributors.len(),
    ensures
        view.irq_pending(index) <==> {
            ||| exists|i: u32| i < 32 && #[trigger] own_signals(view.redistributors[index], i)
            ||| index == 0 && exists|i: u32|
                i / 32 < view.pending.len() && #[trigger] shared_signals(view, i)
        },
{
    let own = view.redistributors[index];
    let word = own.pending & !own.active & own.enable & own.group;
    assert forall|i: u32| i < 32 implies bits::bit(word, i) == #[trigger] own_signals(own, i) by {
        bits::lemma_bit_ops(own.pending & !own.active & own.enable, own.group, i);
        bits::lemma_bit_ops(own.pending & !own.active, own.enable, i);
        bits::lemma_bit_ops(own.pending, !own.active, i);
        bits::lemma_bit_ops(own.active, own.active, i);
        bits::lemma_bit_shifted(own.pending, i);
        bits::lemma_bit_shifted(own.active, i);
        bits::lemma_bit_shifted(own.enable, i);
        bits::lemma_bit_shifted(own.group, i);
    }
    lemma_has_bit(word);
    if word != 0 {
        let k = choose|k: u32| k < 32 && #[trigger] bits::bit(word, k);
        assert(own_signals(own, k));
    }
    if exists|i: u32| i < 32 && #[trigger] own_signals(own, i) {
        let k = choose|i: u32| i < 32 && #[trigger] own_signals(own, i);
        assert(bits::bit(word, k));
    }
    assert forall|w: int, low: u32|
        0 <= w < view.pending.len() && low < 32 implies #[trigger] bits::bit(
        view.pending[w] & !view.active[w] & view.enable[w],
        low,
    ) == shared_signals(view, (w * 32 + low) as u32) by {
        let (p, a, e) = (view.pending[w], view.active[w], view.enable[w]);
        bits::lemma_bit_ops(p & !a, e, low);
        bits::lemma_bit_ops(p, !a, low);
        bits::lemma_bit_ops(a, a, low);
        bits::lemma_bit_shifted(p, low);
        bits::lemma_bit_shifted(a, low);
        bits::lemma_bit_shifted(e, low);
        let i = (w * 32 + low) as u32;
        assert(i / 32 == w && i % 32 == low);
    }
    if exists|w: int| view.signalled(w) {
        let w = choose|w: int| view.signalled(w);
        let shared = view.pending[w] & !view.active[w] & view.enable[w];
        lemma_has_bit(shared);
        let low = choose|k: u32| k < 32 && #[trigger] bits::bit(shared, k);
        let i = (w * 32 + low) as u32;
        assert(i / 32 == w && i % 32 == low);
        assert(shared_signals(view, i));
    }
    if exists|i: u32| i / 32 < view.pending.len() && #[trigger] shared_signals(view, i) {
        let i = choose|i: u32| i / 32 < view.pending.len() && #[trigger] shared_signals(view, i);
        let w = (i / 32) as int;
        let shared = view.pending[w] & !view.active[w] & view.enable[w];
        assert(w * 32 + i % 32 == i);
        assert(bits::bit(shared, i % 32));
        lemma_has_bit(shared);
        assert(view.signalled(w));
    }
}

/// Whether a private interrupt is pending, not active, enabled and in group 1.
pub open spec fn own_signals(own: RedistributorView, i: u32) -> bool {
    &&& (own.pending >> i) & 1 == 1
    &&& (own.active >> i) & 1 == 0
    &&& (own.enable >> i) & 1 == 1
    &&& (own.group >> i) & 1 == 1
}

/// Whether a shared interrupt is latched, enabled and not active.
pub open spec fn shared_signals(view: DistributorView, i: u32) -> bool {
    &&& delivery::bit_of(view.pending, i)
    &&& delivery::bit_of(view.enable, i)
    &&& !delivery::bit_of(view.active, i)
}

/// A word is zero exactly where it has no bit.
proof fn lemma_has_bit(word: u32)
    ensures
        word != 0 <==> exists|k: u32| k < 32 && #[trigger] bits::bit(word, k),
{
    if word != 0 {
        bits::lemma_some_bit(word);
    } else {
        assert forall|k: u32| k < 32 implies !#[trigger] bits::bit(word, k) by {
            bits::lemma_bit_ops(0, 0, k);
        }
    }
}

/// What an SGI request does. With bit 40 it goes to every processor but its
/// sender, and otherwise to those whose affinity levels 3, 2 and 1 are bits 55 to
/// 48, 39 to 32 and 23 to 16 and whose level 0 is set in bits 15 to 0. There the
/// interrupt of bits 27 to 24 is pending, and a processor is woken where it was
/// not before. Nothing else changes.
pub proof fn sgis_by_bits(before: DistributorView, sender: int, value: u64, i: int, bit: u32)
    requires
        before.can_send(GicrSgi::decode(value)),
        before.redistributors.len() <= usize::MAX,
        0 <= i < before.redistributors.len(),
        bit < 32,
    ensures
        ({
            let after = before.with_sgi(sender, GicrSgi::decode(value));
            let woken = before.woken_by_sgi(sender, GicrSgi::decode(value));
            let (old_own, own) = (before.redistributors[i], after.redistributors[i]);
            let mpidr = old_own.mpidr;
            let reached = if (value >> 40) & 1 == 1 {
                i != sender
            } else {
                &&& mpidr.aff3 as u64 == (value >> 48) & 0xff
                &&& mpidr.aff2 as u64 == (value >> 32) & 0xff
                &&& mpidr.aff1 as u64 == (value >> 16) & 0xff
                &&& mpidr.aff0 < 16
                &&& (value >> (mpidr.aff0 as u64)) & 1 == 1
            };
            let intid = (value >> 24) & 0xf;
            &&& after == (DistributorView { redistributors: after.redistributors, ..before })
            &&& after.redistributors.len() == before.redistributors.len()
            &&& own == (RedistributorView { pending: own.pending, ..old_own })
            &&& (own.pending >> bit) & 1 == 1 <==> {
                ||| (old_own.pending >> bit) & 1 == 1
                ||| reached && bit as u64 == intid
            }
            &&& bit as u64 == intid ==> (woken.contains(i as usize) <==> reached && (old_own.pending
                >> bit) & 1 == 0)
        }),
{
    let sgi = GicrSgi::decode(value);
    let old_own = before.redistributors[i];
    let place = if old_own.mpidr.aff0 < 16 {
        old_own.mpidr.aff0 as u64
    } else {
        0
    };
    delivery::sgi_requests_by_bits(value, place);
    assert(sgi.intid < 16);
    if !sgi.irm && before.sgi_addresses(sgi, i) {
        assert(old_own.mpidr.aff0 < 16);
    }
    bits::lemma_bit_update(old_own.pending, sgi.intid as u32, bit);
    bits::lemma_bit_shifted(old_own.pending, bit);
    bits::lemma_bit_shifted(old_own.pending | (1u32 << (sgi.intid as u32)), bit);
    let all = Seq::new(before.redistributors.len(), |k: int| k as usize);
    let pred = |k: usize| before.sgi_wakes(sender, sgi, k as int);
    assert(all[i] == i as usize);
    if pred(i as usize) {
        all.lemma_filter_contains(pred, i);
    }
    if all.filter(pred).contains(i as usize) {
        let k = all.filter(pred).index_of(i as usize);
        all.lemma_filter_pred(pred, k);
    }
}

/// A controller out of reset has nothing pending, in flight, active, enabled or in
/// group 1, delivers nothing, and has shared interrupts 32 up to the number of
/// interrupts that it was made for.
pub proof fn reset_is_quiet(
    gicd_range: MemoryRange,
    gicr_range: MemoryRange,
    interrupt_count: u32,
    intid: u32,
)
    ensures
        ({
            let view = DistributorView::reset(gicd_range, gicr_range, interrupt_count);
            &&& view.valid_spi(intid) <==> 32 <= intid < interrupt_count
            &&& intid < interrupt_count ==> {
                &&& view.pending[(intid / 32) as int] == 0
                &&& view.asserted[(intid / 32) as int] == 0
                &&& view.active[(intid / 32) as int] == 0
                &&& view.enable[(intid / 32) as int] == 0
                &&& view.group[(intid / 32) as int] == 0
                &&& view.cfg[(intid / 16) as int] == 0
                &&& view.priority[(intid / 4) as int] == 0
                &&& view.route[intid as int] == 0
                &&& view.in_flight[intid as int] is None
            }
            &&& !view.enable_grp0 && !view.enable_grp1
            &&& view.redistributors.len() == 0
        }),
{
}

/// Each processor of a guest has its own redistributor, with the affinity levels
/// of bits 7 to 0, 15 to 8, 23 to 16 and 39 to 32 of its MPIDR, nothing pending,
/// active, enabled or in group 1; and only the last one is marked as the last.
pub proof fn processors_have_redistributors(mpidrs: Seq<u64>, i: int)
    requires
        0 <= i < mpidrs.len(),
    ensures
        ({
            let all = model::initial_redistributors(mpidrs);
            let own = all[i];
            &&& all.len() == mpidrs.len()
            &&& own.mpidr.aff0 as u64 == mpidrs[i] & 0xff
            &&& own.mpidr.aff1 as u64 == (mpidrs[i] >> 8) & 0xff
            &&& own.mpidr.aff2 as u64 == (mpidrs[i] >> 16) & 0xff
            &&& own.mpidr.aff3 as u64 == (mpidrs[i] >> 32) & 0xff
            &&& own.last <==> i == mpidrs.len() - 1
            &&& own.pending == 0 && own.active == 0 && own.enable == 0 && own.group == 0
            &&& !own.sleep
            &&& own.priority.len() == 8
            &&& forall|k: int| 0 <= k < 8 ==> #[trigger] own.priority[k] == 0
        }),
{
    delivery::lemma_route_fields(mpidrs[i]);
}

/// A software GIC is there for a version 3 whose frames fit into the address space:
/// 128 KiB for each processor, and 64 KiB for the distributor. What does not fit is
/// told, the redistributors first.
pub proof fn models_fit_the_address_space(topology: Aarch64Topology)
    ensures
        ({
            let end = 0x1_0000_0000_0000_0000int;
            match topology.gic_version {
                GicVersion::V2 { .. } => model::model_error(&topology) == Some(
                    GicV3ModelError::UnsupportedGicVersion,
                ),
                GicVersion::V3 { redistributors_base } => {
                    let all = redistributors_base + topology.mpidrs@.len() * 0x2_0000;
                    let own = topology.gic_distributor_base + 0x1_0000;
                    &&& model::model_error(&topology) is None <==> all < end && own < end
                    &&& all >= end ==> model::model_error(&topology) == Some(
                        GicV3ModelError::RedistributorRangeOverflow,
                    )
                    &&& all < end && own >= end ==> model::model_error(&topology) == Some(
                        GicV3ModelError::DistributorRangeOverflow,
                    )
                },
            }
        }),
{
}

/// The GIC answers at the addresses of its two ranges and nowhere else, with a frame
/// of 128 KiB behind each other for each processor that it has.
pub proof fn frames_by_address(gic: DistributorView, address: u64)
    ensures
        ({
            let own = gic.gicd_range.spec_start() <= address < gic.gicd_range.spec_end();
            let others = gic.gicr_range.spec_start() <= address < gic.gicr_range.spec_end();
            &&& gic.claims(address) <==> own || others
            &&& gic.has_frame(address) <==> own || (others && address
                - gic.gicr_range.spec_start() < gic.redistributors.len() * 0x2_0000)
        }),
{
}

/// A guest that reads or writes at an offset behind 128 KiB for each processor before
/// one reads or writes the registers of that one, and no other changes. Where there is
/// no such processor, it reads zeros, and writes nothing.
pub proof fn redistributors_lie_behind_each_other(
    gic: DistributorView,
    vp: int,
    other: int,
    offset: int,
    data: Seq<u8>,
)
    requires
        0 <= vp,
        0 <= offset < 0x2_0000,
        gic.gicr_range.spec_start() + vp * 0x2_0000 + offset < gic.gicr_range.spec_end(),
        0 <= other < gic.redistributors.len(),
    ensures
        ({
            let place = (vp * 0x2_0000 + offset) as u64;
            let address = (gic.gicr_range.spec_start() + vp * 0x2_0000 + offset) as u64;
            let own = gic.redistributors[vp];
            !(gic.gicd_range.spec_start() <= address < gic.gicd_range.spec_end()) ==> {
                &&& vp < gic.redistributors.len() ==> {
                    &&& gic.read(address, data.len()) == own.read(place, data.len())
                    &&& gic.write(address, data).redistributors[other] == (if other == vp {
                        own.write(place, data)
                    } else {
                        gic.redistributors[other]
                    })
                }
                &&& vp >= gic.redistributors.len() ==> {
                    &&& gic.read(address, data.len()) == Seq::new(data.len(), |k: int| 0u8)
                    &&& gic.write(address, data) == gic
                }
            }
        }),
{
    let address = (gic.gicr_range.spec_start() + vp * 0x2_0000 + offset) as u64;
    assert(gic.redistributor_at(address) == vp);
}

/// What the control frame of a redistributor reads as. At 8, eight bytes: bit 4 of
/// the first says whether the processor is the last one, and the upper four are
/// its affinity levels 0 to 3. At 0x14, four bytes: bits 1 and 2 say whether it
/// sleeps, which a write of bit 1 there decides.
pub proof fn control_frame_by_offset(own: RedistributorView, address: u64, data: Seq<u8>)
    requires
        address % 0x2_0000 == 0,
        address <= 0xffff_ffff_0000_0000,
        data.len() == 4,
    ensures
        ({
            let typer = own.read((address + 8) as u64, 8);
            let waker = own.read((address + 0x14) as u64, 4);
            let written = own.write((address + 0x14) as u64, data);
            &&& typer.len() == 8
            &&& typer[0] == (if own.last {
                0x10u8
            } else {
                0u8
            })
            &&& typer[1] == 0 && typer[2] == 0 && typer[3] == 0
            &&& typer[4] == own.mpidr.aff0
            &&& typer[5] == own.mpidr.aff1
            &&& typer[6] == own.mpidr.aff2
            &&& typer[7] == own.mpidr.aff3
            &&& waker.len() == 4
            &&& waker[0] == (if own.sleep {
                6u8
            } else {
                0u8
            })
            &&& waker[1] == 0 && waker[2] == 0 && waker[3] == 0
            &&& written == (RedistributorView { sleep: data[0] / 2 % 2 == 1, ..own })
        }),
{
    delivery::lemma_aligned((address + 8) as u64);
    delivery::lemma_aligned((address + 0x14) as u64);
    delivery::lemma_word_of(data, 0);
    let typer = super::registers::gicr_typer(own.mpidr, own.last);
    let digits = seq![
        if own.last {
            0x10u8
        } else {
            0u8
        },
        0u8,
        0u8,
        0u8,
        own.mpidr.aff0,
        own.mpidr.aff1,
        own.mpidr.aff2,
        own.mpidr.aff3,
    ];
    bytes::lemma_le_value_of_eight(digits);
    assert(bytes::le_value(digits) == typer);
    bytes::lemma_le_bytes_of_value(digits);
    assert(own.read((address + 8) as u64, 8) == bytes::le_bytes(typer as nat, 8));
    let waker = super::registers::gicr_waker(own.sleep);
    reveal_with_fuel(bytes::le_bytes, 5);
    assert(own.read((address + 0x14) as u64, 4) == bytes::le_bytes(waker as nat, 4));
}

proof fn lemma_private_reads(own: RedistributorView, address: u64, reg: u16, word: u32, intid: u32)
    requires
        address % 0x2_0000 == 0,
        address <= 0xffff_ffff_0000_0000,
        reg % 4 == 0,
        own.sgi_read32(reg) == Some(word),
        intid < 32,
    ensures
        ({
            let data = own.read((address + 0x1_0000 + reg) as u64, 4);
            &&& data.len() == 4
            &&& delivery::bit_in(data, intid) <==> (word >> intid) & 1 == 1
            &&& data[(intid % 4) as int] == (word >> (8 * (intid % 4))) & 0xff
        }),
{
    let at = (address + 0x1_0000 + reg) as u64;
    assert(at % 4 == 0);
    assert(at % 0x1_0000 == reg);
    assert(at / 0x1_0000 % 2 == 1);
    delivery::lemma_aligned(at);
    delivery::lemma_bytes_of(word, intid);
    assert(own.read(at, 4) == bytes::le_bytes(word as nat, 4));
}

/// What four bytes of a processor's private registers read as, in the second
/// frame of its redistributor: the bits of the group at 0x80, of what is enabled
/// at 0x100 and 0x180, pending at 0x200 and 0x280, and active at 0x300 and 0x380;
/// and at 0x400 the priority of each interrupt.
pub proof fn private_registers_are_read_by_offset(
    own: RedistributorView,
    address: u64,
    intid: u32,
)
    requires
        own.wf(),
        address % 0x2_0000 == 0,
        address <= 0xffff_ffff_0000_0000,
        intid < 32,
    ensures
        ({
            let at = |reg: int| own.read((address + 0x1_0000 + reg) as u64, 4);
            &&& delivery::bit_in(at(0x80), intid) <==> (own.group >> intid) & 1 == 1
            &&& delivery::bit_in(at(0x100), intid) <==> (own.enable >> intid) & 1 == 1
            &&& delivery::bit_in(at(0x180), intid) <==> (own.enable >> intid) & 1 == 1
            &&& delivery::bit_in(at(0x200), intid) <==> (own.pending >> intid) & 1 == 1
            &&& delivery::bit_in(at(0x280), intid) <==> (own.pending >> intid) & 1 == 1
            &&& delivery::bit_in(at(0x300), intid) <==> (own.active >> intid) & 1 == 1
            &&& delivery::bit_in(at(0x380), intid) <==> (own.active >> intid) & 1 == 1
            &&& at(0x400 + intid / 4 * 4)[(intid % 4) as int] == delivery::byte_of(
                own.priority,
                intid,
            )
        }),
{
    lemma_private_reads(own, address, 0x80, own.group, intid);
    lemma_private_reads(own, address, 0x100, own.enable, intid);
    lemma_private_reads(own, address, 0x180, own.enable, intid);
    lemma_private_reads(own, address, 0x200, own.pending, intid);
    lemma_private_reads(own, address, 0x280, own.pending, intid);
    lemma_private_reads(own, address, 0x300, own.active, intid);
    lemma_private_reads(own, address, 0x380, own.active, intid);
    let q = (intid / 4) as int;
    let reg = (0x400 + q * 4) as u16;
    assert((0x400 + q * 4) % 4 == 0);
    lemma_private_reads(own, address, reg, own.priority[q], intid);
}

/// What the distributor says of itself: at 0 that affinity routing is on and that
/// there is one security state, in bits 4 and 6, and which groups are enabled, in
/// bits 0 and 1; at 4 the number of interrupts and the width of their IDs; and at
/// 0xffe8 version 3 of the architecture, in bits 7 to 4.
pub proof fn identification_by_offset(view: DistributorView)
    requires
        view.wf(),
    ensures
        ({
            let start = view.gicd_range.spec_start();
            let control = view.read(start, 4);
            let kind = view.read((start + 4) as u64, 4);
            let version = view.read((start + 0xffe8) as u64, 4);
            &&& control =~= seq![
                (0x50 + (if view.enable_grp0 {
                    1int
                } else {
                    0
                }) + (if view.enable_grp1 {
                    2int
                } else {
                    0
                })) as u8,
                0u8,
                0u8,
                0u8,
            ]
            &&& kind =~= seq![0x1fu8, 0u8, 0x28u8, 0u8]
            &&& version =~= seq![0x30u8, 0u8, 0u8, 0u8]
        }),
{
    delivery::lemma_offset_reads(view, 0);
    delivery::lemma_offset_reads(view, 4);
    delivery::lemma_offset_reads(view, 0xffe8);
    reveal_with_fuel(bytes::le_bytes, 5);
}

} // verus!
