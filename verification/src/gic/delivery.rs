//! What a guest gets from the registers that it programs: which interrupts reach
//! which processor, in terms of register offsets, bytes and bits.

use super::interrupt;
use super::interrupt::PendingInterrupt;
use super::redistributor;
use super::redistributor::RedistributorView;
use super::registers;
use super::registers::{GicrSgi, MpidrEl1, VpIndex};
use super::state::DistributorView;
use crate::bits;
use crate::bytes;
use vstd::prelude::*;

verus! {

/// Bit `intid % 32` of word `intid / 32`.
pub open spec fn bit_of(words: Seq<u32>, intid: u32) -> bool {
    (words[(intid / 32) as int] >> (intid % 32)) & 1 == 1
}

/// Byte `intid % 4` of word `intid / 4`, counted from the low end.
pub open spec fn byte_of(words: Seq<u32>, intid: u32) -> u32 {
    (words[(intid / 4) as int] >> (8 * (intid % 4))) & 0xff
}

/// Whether a route names any processor by its bit 31, or the four affinity
/// levels of this one by bits 7 to 0, 15 to 8, 23 to 16 and 39 to 32.
pub open spec fn route_admits(route: u64, mpidr: MpidrEl1) -> bool {
    ||| (route >> 31) & 1 == 1
    ||| {
        &&& mpidr.aff0 as u64 == route & 0xff
        &&& mpidr.aff1 as u64 == (route >> 8) & 0xff
        &&& mpidr.aff2 as u64 == (route >> 16) & 0xff
        &&& mpidr.aff3 as u64 == (route >> 32) & 0xff
    }
}

/// Whether a shared interrupt is latched, or held by a line whose upper
/// configuration bit says that it is level-sensitive.
pub open spec fn spi_asks(view: DistributorView, intid: u32) -> bool {
    ||| bit_of(view.pending, intid)
    ||| {
        &&& bit_of(view.asserted, intid)
        &&& (view.cfg[(intid / 16) as int] >> (2 * (intid % 16) + 1)) & 1 == 0
    }
}

proof fn lemma_priority_byte(word: u32, i: u32)
    by (bit_vector)
    ensures
        i % 4 == 0 ==> (word >> (8 * (i % 4))) & 0xff == word % 0x100,
        i % 4 == 1 ==> (word >> (8 * (i % 4))) & 0xff == word / 0x100 % 0x100,
        i % 4 == 2 ==> (word >> (8 * (i % 4))) & 0xff == word / 0x1_0000 % 0x100,
        i % 4 == 3 ==> (word >> (8 * (i % 4))) & 0xff == word / 0x100_0000,
        word / 0x100_0000 < 0x100,
{
}

/// The priority of an interrupt is its byte of the priority words.
pub proof fn lemma_byte_is_priority(word: u32, intid: u32)
    ensures
        registers::priority_byte(word, intid) as u32 == (word >> (8 * (intid % 4))) & 0xff,
{
    lemma_priority_byte(word, intid);
}

pub proof fn lemma_route_fields(route: u64)
    by (bit_vector)
    ensures
        route & 0xff == route % 0x100,
        (route >> 8) & 0xff == route / 0x100 % 0x100,
        (route >> 16) & 0xff == route / 0x1_0000 % 0x100,
        (route >> 32) & 0xff == route / 0x1_0000_0000 % 0x100,
        (route >> 31) & 1 == route / 0x8000_0000 % 2,
{
}

/// A route by its bits.
pub proof fn lemma_route_admits(route: u64, mpidr: MpidrEl1)
    ensures
        route_admits(route, mpidr) <==> route / 0x8000_0000 % 2 == 1 || mpidr == MpidrEl1::decode(
            route,
        ),
{
    lemma_route_fields(route);
}

/// A shared interrupt may be delivered to a processor below a priority exactly
/// where group 1 is enabled, the interrupt exists, asks, is enabled, is in group
/// 1, is neither active nor in flight, its route admits the processor, and its
/// priority byte is less.
pub proof fn shared_delivery_by_bits(view: DistributorView, vp: u32, running_priority: u8, intid: u32)
    requires
        view.wf(),
    ensures
        view.spi_deliverable(vp, running_priority).contains(intid) <==> {
            &&& view.enable_grp1
            &&& 32 <= intid <= view.max_spi_intid
            &&& spi_asks(view, intid)
            &&& bit_of(view.enable, intid)
            &&& bit_of(view.group, intid)
            &&& !bit_of(view.active, intid)
            &&& view.in_flight[intid as int] is None
            &&& vp < view.redistributors.len()
            &&& route_admits(view.route[intid as int], view.redistributors[vp as int].mpidr)
            &&& byte_of(view.priority, intid) < running_priority
        },
{
    if 32 <= intid <= view.max_spi_intid {
        let w = (intid / 32) as int;
        bits::lemma_bit_shifted(view.pending[w], intid % 32);
        bits::lemma_bit_shifted(view.asserted[w], intid % 32);
        bits::lemma_bit_shifted(view.enable[w], intid % 32);
        bits::lemma_bit_shifted(view.group[w], intid % 32);
        bits::lemma_bit_shifted(view.active[w], intid % 32);
        bits::lemma_bit_shifted(view.cfg[(intid / 16) as int], (2 * (intid % 16) + 1) as u32);
        lemma_byte_is_priority(view.priority[(intid / 4) as int], intid);
        lemma_route_fields(view.route[intid as int]);
    }
}

/// A private interrupt may be delivered to a processor below a priority exactly
/// where group 1 is enabled, it is among those asked for, the processor's own
/// registers have it enabled, in group 1 and not active, and its priority byte
/// there is less.
pub proof fn private_delivery_by_bits(
    view: DistributorView,
    vp: u32,
    pending: u32,
    running_priority: u8,
    intid: u32,
)
    requires
        view.wf(),
    ensures
        view.private_deliverable(vp, pending, running_priority).contains(intid) <==> {
            let own = view.redistributors[vp as int];
            &&& view.enable_grp1
            &&& intid < 32
            &&& vp < view.redistributors.len()
            &&& (pending >> intid) & 1 == 1
            &&& (own.enable >> intid) & 1 == 1
            &&& (own.group >> intid) & 1 == 1
            &&& (own.active >> intid) & 1 == 0
            &&& byte_of(own.priority, intid) < running_priority
        },
{
    if intid < 32 && vp < view.redistributors.len() {
        let own = view.redistributors[vp as int];
        bits::lemma_bit_shifted(pending, intid);
        bits::lemma_bit_shifted(own.enable, intid);
        bits::lemma_bit_shifted(own.group, intid);
        bits::lemma_bit_shifted(own.active, intid);
        lemma_byte_is_priority(own.priority[(intid / 4) as int], intid);
    }
}

/// The next interrupt of a processor is taken from both kinds: below 32 from the
/// pending ones of its own, and from 32 on from the shared ones; among all of these
/// it has the lowest priority value, and where several have that, the lowest number.
pub proof fn most_urgent_of_both_kinds_is_next(
    view: DistributorView,
    vp: u32,
    running_priority: u8,
    next: Option<PendingInterrupt>,
    other: u32,
)
    requires
        view.wf(),
        vp < view.redistributors.len(),
        interrupt::is_first(
            view.deliverable(vp, running_priority),
            |i: u32| view.priority_at(vp, i),
            next,
        ),
    ensures
        ({
            let own = view.redistributors[vp as int];
            let private = view.private_deliverable(vp, own.pending, running_priority);
            let shared = view.spi_deliverable(vp, running_priority);
            let is_ready = private.contains(other) || shared.contains(other);
            let urgency = if other < 32 {
                byte_of(own.priority, other)
            } else {
                byte_of(view.priority, other)
            };
            &&& is_ready ==> next is Some
            &&& next matches Some(next) ==> {
                &&& private.contains(next.intid) || shared.contains(next.intid)
                &&& is_ready ==> next.priority < urgency || (next.priority == urgency && next.intid
                    <= other)
                &&& next.intid == other ==> next.priority == urgency
            }
        }),
{
    let own = view.redistributors[vp as int];
    private_delivery_by_bits(view, vp, own.pending, running_priority, other);
    shared_delivery_by_bits(view, vp, running_priority, other);
    if other < 32 {
        lemma_byte_is_priority(own.priority[(other / 4) as int], other);
    } else if other <= view.max_spi_intid {
        lemma_byte_is_priority(view.priority[(other / 4) as int], other);
    }
    let all = view.deliverable(vp, running_priority);
    assert(all.contains(other) <==> view.private_deliverable(
        vp,
        own.pending,
        running_priority,
    ).contains(other) || view.spi_deliverable(vp, running_priority).contains(other));
    if let Some(chosen) = next {
        assert(all.contains(chosen.intid));
        shared_delivery_by_bits(view, vp, running_priority, chosen.intid);
    }
}

pub proof fn lemma_aligned(address: u64)
    by (bit_vector)
    ensures
        address % 4 == 0 ==> address & 3 == 0,
        address % 8 == 0 ==> address & 7 == 0,
{
}

proof fn lemma_route_bytes(data: Seq<u8>)
    requires
        data.len() == 8,
    ensures
        ({
            let value = bytes::le_value(data);
            &&& value < 0x1_0000_0000_0000_0000
            &&& value % 0x100 == data[0]
            &&& value / 0x100 % 0x100 == data[1]
            &&& value / 0x1_0000 % 0x100 == data[2]
            &&& value / 0x8000_0000 % 2 == 1 <==> data[3] >= 0x80
            &&& value / 0x1_0000_0000 % 0x100 == data[4]
        }),
{
    bytes::lemma_pow256();
    bytes::lemma_le_value_bound(data);
    let t1 = data.drop_first();
    let t2 = t1.drop_first();
    let t3 = t2.drop_first();
    let t4 = t3.drop_first();
    let (v1, v2, v3, v4, v5) = (
        bytes::le_value(t1),
        bytes::le_value(t2),
        bytes::le_value(t3),
        bytes::le_value(t4),
        bytes::le_value(t4.drop_first()),
    );
    assert(bytes::le_value(data) == data[0] + 0x100 * v1);
    assert(v1 == data[1] + 0x100 * v2);
    assert(v2 == data[2] + 0x100 * v3);
    assert(v3 == data[3] + 0x100 * v4);
    assert(v4 == data[4] + 0x100 * v5);
    let value = bytes::le_value(data);
    assert(value / 0x100 == v1 && value / 0x1_0000 == v2 && value / 0x100_0000 == v3);
    assert(value / 0x1_0000_0000 == v4);
    assert(value / 0x8000_0000 == data[3] / 0x80 + 2 * v4);
}

/// What a guest gets by writing eight bytes to the route of a shared interrupt,
/// at offset 0x6000 and eight times its ID of the distributor frame. With bit 31
/// clear, the interrupt can be delivered to, and its rising line wakes, exactly
/// the processors whose affinity levels 0 to 3 are bytes 0, 1, 2 and 4; with
/// bit 31 set, every processor. Nothing else changes with that.
pub proof fn a_route_selects_processors(
    before: DistributorView,
    intid: u32,
    data: Seq<u8>,
    vp: u32,
    running_priority: u8,
)
    requires
        before.wf(),
        before.redistributors.len() <= 0x1_0000_0000,
        32 <= intid <= before.max_spi_intid,
        intid < 0x400,
        data.len() == 8,
    ensures
        ({
            let address = before.gicd_range.spec_start() + 0x6000 + 8 * intid;
            let after = before.write(address as u64, data);
            let own = before.redistributors[vp as int].mpidr;
            let named = vp < before.redistributors.len() && (data[3] >= 0x80 || (own.aff0 == data[0]
                && own.aff1 == data[1] && own.aff2 == data[2] && own.aff3 == data[4]));
            &&& after == (DistributorView { route: after.route, ..before })
            &&& after.targets(intid, vp) <==> named
            &&& after.spi_deliverable(vp, running_priority).contains(intid) <==> {
                &&& named
                &&& before.enable_grp1
                &&& spi_asks(before, intid)
                &&& bit_of(before.enable, intid)
                &&& bit_of(before.group, intid)
                &&& !bit_of(before.active, intid)
                &&& before.in_flight[intid as int] is None
                &&& byte_of(before.priority, intid) < running_priority
            }
            &&& after.woken_by_line(intid, true).contains(VpIndex(vp)) <==> named && !bit_of(
                before.asserted,
                intid,
            )
            &&& forall|other: u32, i: u32|
                other != intid ==> (#[trigger] after.targets(other, i) <==> before.targets(other, i))
        }),
{
    let offset = (0x6000 + 8 * intid) as u64;
    let address = (before.gicd_range.spec_start() + 0x6000 + 8 * intid) as u64;
    let after = before.write(address, data);
    lemma_aligned(offset);
    lemma_route_bytes(data);
    assert(before.gicd_range.spec_contains(address));
    assert(offset as u16 == offset);
    assert(after.route == before.route.update(intid as int, bytes::le_value(data) as u64));
    assert(after.wf());
    lemma_route_fields(after.route[intid as int]);
    shared_delivery_by_bits(after, vp, running_priority, intid);
    bits::lemma_bit_shifted(before.asserted[(intid / 32) as int], intid % 32);
    lemma_targets_contain(after, intid, vp);
    assert forall|other: u32, i: u32| other != intid implies (#[trigger] after.targets(other, i)
        <==> before.targets(other, i)) by {
        assert(after.route_of(other) == before.route_of(other));
    }
}

/// The processors to wake are those that the route names.
pub proof fn lemma_targets_contain(view: DistributorView, intid: u32, vp: u32)
    requires
        view.redistributors.len() <= 0x1_0000_0000,
    ensures
        view.target_vps(intid).contains(VpIndex(vp)) <==> view.targets(intid, vp),
{
    let all = view.vps();
    let pred = |p: VpIndex| view.targets(intid, p.0);
    broadcast use vstd::seq_lib::group_filter_ensures;

    if view.targets(intid, vp) {
        assert(all[vp as int] == VpIndex(vp));
        all.lemma_filter_contains(pred, vp as int);
    }
    if all.filter(pred).contains(VpIndex(vp)) {
        let k = all.filter(pred).index_of(VpIndex(vp));
        all.lemma_filter_pred(pred, k);
    }
}

/// Bit `intid % 32` of four bytes, the lowest byte first.
pub open spec fn bit_in(data: Seq<u8>, intid: u32) -> bool {
    (data[(intid % 32 / 8) as int] >> (intid % 8)) & 1 == 1
}

proof fn lemma_word_bits(b0: u8, b1: u8, b2: u8, b3: u8, i: u32)
    by (bit_vector)
    ensures
        ({
            let word = (b0 + b1 * 0x100 + b2 * 0x1_0000 + b3 * 0x100_0000) as u32;
            &&& i < 8 ==> (word >> i) & 1 == (b0 as u32 >> i) & 1
            &&& 8 <= i < 16 ==> (word >> i) & 1 == (b1 as u32 >> (i % 8)) & 1
            &&& 16 <= i < 24 ==> (word >> i) & 1 == (b2 as u32 >> (i % 8)) & 1
            &&& 24 <= i < 32 ==> (word >> i) & 1 == (b3 as u32 >> (i % 8)) & 1
            &&& word & 0xff == b0 as u32
            &&& (word >> 8) & 0xff == b1 as u32
            &&& (word >> 16) & 0xff == b2 as u32
            &&& (word >> 24) & 0xff == b3 as u32
            &&& (word >> 0) & 0xff == b0 as u32
            &&& (word & 1 != 0) == (b0 as u32 % 2 == 1)
            &&& (word & 2 != 0) == (b0 as u32 / 2 % 2 == 1)
        }),
{
}

/// Four bytes as a word, by its bits and by its bytes.
pub proof fn lemma_word_of(data: Seq<u8>, i: u32)
    requires
        data.len() == 4,
    ensures
        ({
            let word = bytes::le_value(data) as u32;
            &&& bytes::le_value(data) < 0x1_0000_0000
            &&& bits::bit(word, i % 32) <==> bit_in(data, i)
            &&& (word >> (i % 32)) & 1 == 1 <==> bit_in(data, i)
            &&& (word >> (8 * (i % 4))) & 0xff == data[(i % 4) as int]
            &&& word & 1 != 0 <==> data[0] % 2 == 1
            &&& word & 2 != 0 <==> data[0] / 2 % 2 == 1
        }),
{
    reveal_with_fuel(bytes::le_value, 5);
    bytes::lemma_pow256();
    bytes::lemma_le_value_bound(data);
    let t1 = data.drop_first();
    let t2 = t1.drop_first();
    let t3 = t2.drop_first();
    assert(bytes::le_value(data) == data[0] + 0x100 * bytes::le_value(t1));
    assert(bytes::le_value(t1) == data[1] + 0x100 * bytes::le_value(t2));
    assert(bytes::le_value(t2) == data[2] + 0x100 * bytes::le_value(t3));
    assert(bytes::le_value(t3) == data[3]);
    let word = bytes::le_value(data) as u32;
    lemma_word_bits(data[0], data[1], data[2], data[3], i % 32);
    bits::lemma_bit_shifted(word, i % 32);
}

/// Whether the bit of an interrupt in a bank is, after a write, what it was with
/// the ones of the data set, or cleared, or is the bit of the data.
proof fn lemma_bank_bit(old_word: u32, data: Seq<u8>, i: u32)
    requires
        data.len() == 4,
    ensures
        ({
            let word = bytes::le_value(data) as u32;
            &&& ((old_word | word) >> (i % 32)) & 1 == 1 <==> (old_word >> (i % 32)) & 1 == 1
                || bit_in(data, i)
            &&& ((old_word & !word) >> (i % 32)) & 1 == 1 <==> (old_word >> (i % 32)) & 1 == 1
                && !bit_in(data, i)
        }),
{
    let word = bytes::le_value(data) as u32;
    let low = i % 32;
    lemma_word_of(data, i);
    bits::lemma_bit_ops(old_word, word, low);
    bits::lemma_bit_ops(old_word, !word, low);
    bits::lemma_bit_shifted(old_word, low);
    bits::lemma_bit_shifted(old_word | word, low);
    bits::lemma_bit_shifted(old_word & !word, low);
}

/// What the banks of one bit per shared interrupt do, four bytes at a time: at
/// 0x80 the group is set, at 0x100 and 0x180 interrupts are enabled and disabled,
/// at 0x200 and 0x280 latched and unlatched, at 0x300 and 0x380 made active and
/// inactive, each by the ones of its own bit, and no other register changes.
pub proof fn shared_bits_by_offset(before: DistributorView, bank: u16, intid: u32, data: Seq<u8>)
    requires
        before.wf(),
        32 <= intid <= before.max_spi_intid,
        intid < 0x400,
        data.len() == 4,
        bank == 0x80 || bank == 0x100 || bank == 0x180 || bank == 0x200 || bank == 0x280 || bank
            == 0x300 || bank == 0x380,
    ensures
        ({
            let address = before.gicd_range.spec_start() + bank + intid / 32 * 4;
            let after = before.write(address as u64, data);
            let one = bit_in(data, intid);
            &&& after == (DistributorView {
                group: after.group,
                enable: after.enable,
                pending: after.pending,
                active: after.active,
                ..before
            })
            &&& bit_of(after.group, intid) <==> if bank == 0x80 {
                one
            } else {
                bit_of(before.group, intid)
            }
            &&& bit_of(after.enable, intid) <==> if bank == 0x100 {
                bit_of(before.enable, intid) || one
            } else if bank == 0x180 {
                bit_of(before.enable, intid) && !one
            } else {
                bit_of(before.enable, intid)
            }
            &&& bit_of(after.pending, intid) <==> if bank == 0x200 {
                bit_of(before.pending, intid) || one
            } else if bank == 0x280 {
                bit_of(before.pending, intid) && !one
            } else {
                bit_of(before.pending, intid)
            }
            &&& bit_of(after.active, intid) <==> if bank == 0x300 {
                bit_of(before.active, intid) || one
            } else if bank == 0x380 {
                bit_of(before.active, intid) && !one
            } else {
                bit_of(before.active, intid)
            }
            &&& forall|other: u32|
                other / 32 != intid / 32 && other <= before.max_spi_intid ==> (#[trigger] bit_of(
                    after.group,
                    other,
                ) <==> bit_of(
                    before.group,
                    other,
                ))
            &&& forall|other: u32|
                other / 32 != intid / 32 && other <= before.max_spi_intid ==> (#[trigger] bit_of(
                    after.enable,
                    other,
                ) <==> bit_of(
                    before.enable,
                    other,
                ))
            &&& forall|other: u32|
                other / 32 != intid / 32 && other <= before.max_spi_intid ==> (#[trigger] bit_of(
                    after.pending,
                    other,
                ) <==> bit_of(
                    before.pending,
                    other,
                ))
            &&& forall|other: u32|
                other / 32 != intid / 32 && other <= before.max_spi_intid ==> (#[trigger] bit_of(
                    after.active,
                    other,
                ) <==> bit_of(
                    before.active,
                    other,
                ))
        }),
{
    let offset = (bank + intid / 32 * 4) as u64;
    let q = (intid / 32) as int;
    assert(offset == bank + q * 4 && (bank + q * 4) % 4 == 0);
    let w = (intid / 32) as int;
    lemma_offset_writes(before, offset, data);
    lemma_word_of(data, intid);
    lemma_bank_bit(before.enable[w], data, intid);
    lemma_bank_bit(before.pending[w], data, intid);
    lemma_bank_bit(before.active[w], data, intid);
    assert((offset as u16 - bank) / 4 == w);
}

/// Each byte that is written at 0x400 is the priority of one shared interrupt.
pub proof fn shared_priorities_by_offset(before: DistributorView, intid: u32, data: Seq<u8>)
    requires
        before.wf(),
        32 <= intid <= before.max_spi_intid,
        intid < 0x400,
        data.len() == 4,
    ensures
        ({
            let address = before.gicd_range.spec_start() + 0x400 + intid / 4 * 4;
            let after = before.write(address as u64, data);
            &&& after == (DistributorView { priority: after.priority, ..before })
            &&& byte_of(after.priority, intid) == data[(intid % 4) as int]
            &&& forall|other: u32|
                other / 4 != intid / 4 && other <= before.max_spi_intid ==> #[trigger] byte_of(
                    after.priority,
                    other,
                ) == byte_of(before.priority, other)
        }),
{
    let q = (intid / 4) as int;
    let p = (0x400 + q * 4) as u64;
    assert((0x400 + q * 4) % 4 == 0);
    lemma_offset_writes(before, p, data);
    lemma_word_of(data, intid);
    assert((p as u16 - 0x400) / 4 == q);
    let after = before.write32(p as u16, bytes::le_value(data) as u32);
    assert(after.priority == before.priority.update(q, bytes::le_value(data) as u32));
}

/// The upper of the two bits that are written for a shared interrupt at 0xc00
/// makes it edge-triggered.
pub proof fn shared_triggers_by_offset(before: DistributorView, intid: u32, data: Seq<u8>)
    requires
        before.wf(),
        32 <= intid <= before.max_spi_intid,
        intid < 0x400,
        data.len() == 4,
    ensures
        ({
            let address = before.gicd_range.spec_start() + 0xc00 + intid / 16 * 4;
            let after = before.write(address as u64, data);
            &&& after == (DistributorView { cfg: after.cfg, ..before })
            &&& after.edge_triggered(intid) <==> (data[(intid % 16 / 4) as int] >> (2 * (intid % 4)
                + 1)) & 1 == 1
            &&& forall|other: u32|
                other / 16 != intid / 16 ==> (#[trigger] after.edge_triggered(other)
                    <==> before.edge_triggered(other))
        }),
{
    let q = (intid / 16) as int;
    let c = (0xc00 + q * 4) as u64;
    let word = bytes::le_value(data) as u32;
    assert((0xc00 + q * 4) % 4 == 0);
    lemma_offset_writes(before, c, data);
    let upper = (2 * (intid % 16) + 1) as u32;
    lemma_word_of(data, upper);
    assert(upper % 32 == upper);
    assert(upper / 8 == intid % 16 / 4);
    assert(upper % 8 == 2 * (intid % 4) + 1);
    lemma_trigger_mask(word, upper);
    assert((c as u16 - 0xc00) / 4 == q);
    let after = before.write32(c as u16, word);
    assert(after.cfg == before.cfg.update(q, word & registers::ICFGR_TRIGGER_MASK));
}

/// The two lowest bits that are written at 0 enable the two groups.
pub proof fn groups_are_enabled_by_offset(before: DistributorView, data: Seq<u8>)
    requires
        before.wf(),
        data.len() == 4,
    ensures
        before.write(before.gicd_range.spec_start(), data) == (DistributorView {
            enable_grp0: data[0] % 2 == 1,
            enable_grp1: data[0] / 2 % 2 == 1,
            ..before
        }),
{
    lemma_offset_writes(before, 0, data);
    lemma_word_of(data, 0);
}

/// A write of four bytes at an aligned offset of the distributor frame.
proof fn lemma_offset_writes(before: DistributorView, offset: u64, data: Seq<u8>)
    requires
        before.wf(),
        offset < 0x1_0000,
        offset % 4 == 0,
        data.len() == 4,
    ensures
        offset as u16 == offset,
        before.write((before.gicd_range.spec_start() + offset) as u64, data) == before.write32(
            offset as u16,
            bytes::le_value(data) as u32,
        ),
{
    lemma_aligned(offset);
    let address = (before.gicd_range.spec_start() + offset) as u64;
    assert(before.gicd_range.spec_contains(address));
    assert(address - before.gicd_range.spec_start() == offset);
}

proof fn lemma_trigger_mask(word: u32, upper: u32)
    by (bit_vector)
    requires
        upper < 32,
        upper % 2 == 1,
    ensures
        ((word & 0xaaaa_aaaau32) & (1u32 << upper) != 0) == (word & (1u32 << upper) != 0),
{
}

/// Four bytes that hold a word, by its bits and by its bytes.
pub proof fn lemma_bytes_of(word: u32, i: u32)
    ensures
        ({
            let data = bytes::le_bytes(word as nat, 4);
            &&& data.len() == 4
            &&& bit_in(data, i) <==> (word >> (i % 32)) & 1 == 1
            &&& data[(i % 4) as int] == (word >> (8 * (i % 4))) & 0xff
        }),
{
    bytes::lemma_pow256();
    bytes::lemma_le_bytes_len(word as nat, 4);
    bytes::lemma_le_round_trip(word as nat, 4);
    lemma_word_of(bytes::le_bytes(word as nat, 4), i);
}

/// A read of four bytes at an aligned offset of the distributor frame.
pub proof fn lemma_offset_reads(view: DistributorView, offset: u64)
    requires
        view.wf(),
        offset < 0x1_0000,
        offset % 4 == 0,
        view.read32(offset as u16) is Some,
    ensures
        offset as u16 == offset,
        view.read((view.gicd_range.spec_start() + offset) as u64, 4) == bytes::le_bytes(
            view.read32(offset as u16)->0 as nat,
            4,
        ),
{
    lemma_aligned(offset);
    let address = (view.gicd_range.spec_start() + offset) as u64;
    assert(view.gicd_range.spec_contains(address));
    assert(address - view.gicd_range.spec_start() == offset);
}

/// What four bytes of the distributor frame read as: the bits of the group at
/// 0x80, of what is enabled at 0x100 and 0x180, latched at 0x200 and 0x280, and
/// active at 0x300 and 0x380; and at 0x400 the priority of each interrupt.
pub proof fn shared_registers_are_read_by_offset(view: DistributorView, intid: u32)
    requires
        view.wf(),
        32 <= intid <= view.max_spi_intid,
        intid < 0x400,
    ensures
        ({
            let start = view.gicd_range.spec_start();
            let at = |bank: int| view.read((start + bank + intid / 32 * 4) as u64, 4);
            &&& bit_in(at(0x80), intid) <==> bit_of(view.group, intid)
            &&& bit_in(at(0x100), intid) <==> bit_of(view.enable, intid)
            &&& bit_in(at(0x180), intid) <==> bit_of(view.enable, intid)
            &&& bit_in(at(0x200), intid) <==> bit_of(view.pending, intid)
            &&& bit_in(at(0x280), intid) <==> bit_of(view.pending, intid)
            &&& bit_in(at(0x300), intid) <==> bit_of(view.active, intid)
            &&& bit_in(at(0x380), intid) <==> bit_of(view.active, intid)
            &&& view.read((start + 0x400 + intid / 4 * 4) as u64, 4)[(intid % 4) as int]
                == byte_of(view.priority, intid)
        }),
{
    let w = (intid / 32) as int;
    let start = view.gicd_range.spec_start();
    lemma_bank_reads(view, 0x80, intid, view.group[w]);
    lemma_bank_reads(view, 0x100, intid, view.enable[w]);
    lemma_bank_reads(view, 0x180, intid, view.enable[w]);
    lemma_bank_reads(view, 0x200, intid, view.pending[w]);
    lemma_bank_reads(view, 0x280, intid, view.pending[w]);
    lemma_bank_reads(view, 0x300, intid, view.active[w]);
    lemma_bank_reads(view, 0x380, intid, view.active[w]);
    let p = (0x400 + intid / 4 * 4) as u64;
    let pq = (intid / 4) as int;
    assert(p == 0x400 + pq * 4 && (0x400 + pq * 4) % 4 == 0);
    assert(view.read32(p as u16) == Some(view.priority[(intid / 4) as int]));
    lemma_offset_reads(view, p);
    lemma_bytes_of(view.priority[(intid / 4) as int], intid);
    assert(start + p == start + 0x400 + intid / 4 * 4);
}

proof fn lemma_bank_reads(view: DistributorView, bank: u64, intid: u32, word: u32)
    requires
        view.wf(),
        32 <= intid <= view.max_spi_intid,
        intid < 0x400,
        bank % 0x80 == 0,
        bank <= 0x380,
        view.read32((bank + intid / 32 * 4) as u16) == Some(word),
    ensures
        bit_in(
            view.read((view.gicd_range.spec_start() + bank + intid / 32 * 4) as u64, 4),
            intid,
        ) <==> (word >> (intid % 32)) & 1 == 1,
{
    let offset = (bank + intid / 32 * 4) as u64;
    let q = (intid / 32) as int;
    assert(offset == bank + q * 4 && (bank + q * 4) % 4 == 0);
    lemma_offset_reads(view, offset);
    lemma_bytes_of(word, intid);
    assert(view.gicd_range.spec_start() + offset == view.gicd_range.spec_start() + bank + intid / 32
        * 4);
}

/// What the private registers of a processor do, four bytes at a time, in the
/// second frame of its redistributor, 0x1_0000 into the 0x2_0000 bytes that each
/// has: at 0x80 the group is set, at 0x100 and 0x180 interrupts are enabled and
/// disabled, at 0x300 and 0x380 made active and inactive, and at 0x400 each byte
/// is a priority. What is pending, and every other processor, stays as it is.
pub proof fn private_registers_by_offset(
    before: DistributorView,
    vp: u32,
    offset: u16,
    intid: u32,
    data: Seq<u8>,
)
    requires
        before.wf(),
        vp < before.redistributors.len(),
        !before.gicd_range.spec_contains(
            (before.gicr_range.spec_start() + vp * 0x2_0000 + 0x1_0000 + offset) as u64,
        ),
        intid < 32,
        offset % 4 == 0,
        data.len() == 4,
    ensures
        ({
            let address = before.gicr_range.spec_start() + vp * 0x2_0000 + 0x1_0000 + offset;
            let after = before.write(address as u64, data);
            let (old_own, own) = (
                before.redistributors[vp as int],
                after.redistributors[vp as int],
            );
            let one = bit_in(data, intid);
            &&& after == (DistributorView { redistributors: after.redistributors, ..before })
            &&& after.redistributors == before.redistributors.update(vp as int, own)
            &&& own == (RedistributorView {
                group: own.group,
                enable: own.enable,
                active: own.active,
                ppi_cfg: own.ppi_cfg,
                priority: own.priority,
                ..old_own
            })
            &&& (own.group >> intid) & 1 == 1 <==> if offset == 0x80 {
                one
            } else {
                (old_own.group >> intid) & 1 == 1
            }
            &&& (own.enable >> intid) & 1 == 1 <==> if offset == 0x100 {
                (old_own.enable >> intid) & 1 == 1 || one
            } else if offset == 0x180 {
                (old_own.enable >> intid) & 1 == 1 && !one
            } else {
                (old_own.enable >> intid) & 1 == 1
            }
            &&& (own.active >> intid) & 1 == 1 <==> if offset == 0x300 {
                (old_own.active >> intid) & 1 == 1 || one
            } else if offset == 0x380 {
                (old_own.active >> intid) & 1 == 1 && !one
            } else {
                (old_own.active >> intid) & 1 == 1
            }
            &&& byte_of(own.priority, intid) == if offset == 0x400 + intid / 4 * 4 {
                data[(intid % 4) as int] as u32
            } else {
                byte_of(old_own.priority, intid)
            }
        }),
{
    let relative = (vp * 0x2_0000 + 0x1_0000 + offset) as u64;
    let address = (before.gicr_range.spec_start() + relative) as u64;
    let old_own = before.redistributors[vp as int];
    lemma_aligned(relative);
    assert(before.redistributor_at(address) == vp);
    assert(!redistributor::in_control_frame(relative));
    assert(relative % 0x1_0000 == offset);
    lemma_word_of(data, intid);
    lemma_bank_bit(old_own.enable, data, intid);
    lemma_bank_bit(old_own.active, data, intid);
    let own = old_own.sgi_write32(offset, bytes::le_value(data) as u32);
    assert(before.write(address, data) == before.with_redistributor(vp as int, own));
    assert(old_own.wf());
}

proof fn lemma_sgi_fields(value: u64, place: u64)
    by (bit_vector)
    requires
        place < 16,
    ensures
        (value >> 40) & 1 == value / 0x100_0000_0000 % 2,
        (value >> 48) & 0xff == value / 0x1_0000_0000_0000 % 0x100,
        (value >> 32) & 0xff == value / 0x1_0000_0000 % 0x100,
        (value >> 16) & 0xff == value / 0x1_0000 % 0x100,
        (value >> 44) & 0xf == value / 0x1000_0000_0000 % 0x10,
        (value >> 24) & 0xf == value / 0x100_0000 % 0x10,
        value & 0xff == value % 0x100,
        ((value % 0x1_0000) & (1u64 << place) != 0) == ((value >> place) & 1 == 1),
{
}

proof fn lemma_narrow_ones(place: u16)
    by (bit_vector)
    ensures
        place == 0 ==> 1u16 << place == 0x1,
        place == 1 ==> 1u16 << place == 0x2,
        place == 2 ==> 1u16 << place == 0x4,
        place == 3 ==> 1u16 << place == 0x8,
        place == 4 ==> 1u16 << place == 0x10,
        place == 5 ==> 1u16 << place == 0x20,
        place == 6 ==> 1u16 << place == 0x40,
        place == 7 ==> 1u16 << place == 0x80,
        place == 8 ==> 1u16 << place == 0x100,
        place == 9 ==> 1u16 << place == 0x200,
        place == 10 ==> 1u16 << place == 0x400,
        place == 11 ==> 1u16 << place == 0x800,
        place == 12 ==> 1u16 << place == 0x1000,
        place == 13 ==> 1u16 << place == 0x2000,
        place == 14 ==> 1u16 << place == 0x4000,
        place == 15 ==> 1u16 << place == 0x8000,
{
}

proof fn lemma_wide_ones(place: u64)
    by (bit_vector)
    ensures
        place == 0 ==> 1u64 << place == 0x1,
        place == 1 ==> 1u64 << place == 0x2,
        place == 2 ==> 1u64 << place == 0x4,
        place == 3 ==> 1u64 << place == 0x8,
        place == 4 ==> 1u64 << place == 0x10,
        place == 5 ==> 1u64 << place == 0x20,
        place == 6 ==> 1u64 << place == 0x40,
        place == 7 ==> 1u64 << place == 0x80,
        place == 8 ==> 1u64 << place == 0x100,
        place == 9 ==> 1u64 << place == 0x200,
        place == 10 ==> 1u64 << place == 0x400,
        place == 11 ==> 1u64 << place == 0x800,
        place == 12 ==> 1u64 << place == 0x1000,
        place == 13 ==> 1u64 << place == 0x2000,
        place == 14 ==> 1u64 << place == 0x4000,
        place == 15 ==> 1u64 << place == 0x8000,
{
}

/// The fields of an SGI request by their bits: the target list in bits 15 to 0,
/// the interrupt in bits 27 to 24, affinity levels 1 to 3 in bits 23 to 16, 39 to
/// 32 and 55 to 48, the range in bits 47 to 44, and in bit 40 whether it goes to
/// everyone else.
pub proof fn sgi_requests_by_bits(value: u64, place: u64)
    requires
        place < 16,
    ensures
        ({
            let sgi = GicrSgi::decode(value);
            &&& sgi.irm == ((value >> 40) & 1 == 1)
            &&& sgi.aff3 as u64 == (value >> 48) & 0xff
            &&& sgi.aff2 as u64 == (value >> 32) & 0xff
            &&& sgi.aff1 as u64 == (value >> 16) & 0xff
            &&& sgi.rs as u64 == (value >> 44) & 0xf
            &&& sgi.intid as u64 == (value >> 24) & 0xf
            &&& (value >> 40) & 1 == 0 || (value >> 40) & 1 == 1
            &&& (sgi.target_list & (1u16 << (place as u16)) != 0) == ((value >> place) & 1 == 1)
            &&& value & 0xff == value % 0x100
        }),
{
    lemma_sgi_fields(value, place);
    lemma_narrow_ones(place as u16);
    lemma_wide_ones(place);
}

} // verus!
