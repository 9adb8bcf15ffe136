//! What holds of the processors of a plane as a whole: what a guest is owed when
//! it is polled for interrupts and when it leaves its plane, in terms of the bits
//! of the registers.

use super::list_registers;
use super::poll;
use super::processor::CcaGic;
use super::vtl::GuestVtl;
use crate::bits;
use crate::gic::delivery;
use crate::gic::interrupt;
use crate::gic::laws;
use crate::gic::state::DistributorView;
use vstd::prelude::*;

verus! {

/// Whether a private interrupt, by the bits of the processor's registers, may
/// enter a list register.
pub open spec fn private_may_enter(
    view: DistributorView,
    vp: u32,
    pending: u32,
    priority_mask: u8,
    intid: u32,
) -> bool {
    let own = view.redistributors[vp as int];
    &&& view.enable_grp1
    &&& intid < 32
    &&& vp < view.redistributors.len()
    &&& (pending >> intid) & 1 == 1
    &&& (own.enable >> intid) & 1 == 1
    &&& (own.group >> intid) & 1 == 1
    &&& (own.active >> intid) & 1 == 0
    &&& delivery::byte_of(own.priority, intid) < priority_mask
}

/// Whether a shared interrupt, by the bits of the controller's registers, may
/// enter a list register of the processor, unless it is in one already.
pub open spec fn spi_may_enter(
    view: DistributorView,
    vp: u32,
    priority_mask: u8,
    intid: u32,
) -> bool {
    &&& view.enable_grp1
    &&& 32 <= intid <= view.max_spi_intid
    &&& delivery::spi_asks(view, intid)
    &&& delivery::bit_of(view.enable, intid)
    &&& delivery::bit_of(view.group, intid)
    &&& !delivery::bit_of(view.active, intid)
    &&& vp < view.redistributors.len()
    &&& delivery::route_admits(view.route[intid as int], view.redistributors[vp as int].mpidr)
    &&& delivery::byte_of(view.priority, intid) < priority_mask
}

/// Whether some list register that is not free names an interrupt in its low
/// word.
pub open spec fn some_register_names(lrs: Seq<u64>, intid: u32) -> bool {
    exists|k: int|
        0 <= k < lrs.len() && (#[trigger] lrs[k]) >> 62 != 0 && lrs[k] & 0xffff_ffff
            == intid as u64
}

/// A register names an interrupt where one holds it.
proof fn lemma_names_is_listed(lrs: Seq<u64>, intid: u32)
    ensures
        some_register_names(lrs, intid) <==> list_registers::is_listed(lrs, intid),
{
    assert forall|k: int| 0 <= k < lrs.len() implies (list_registers::lists(
        #[trigger] lrs[k],
        intid,
    ) <==> lrs[k] >> 62 != 0 && lrs[k] & 0xffff_ffff == intid as u64) by {
        list_registers::lemma_lists_by_bits(lrs[k], intid);
    }
    if list_registers::is_listed(lrs, intid) {
        let k = choose|k: int|
            0 <= k < lrs.len() && list_registers::lists(#[trigger] lrs[k], intid);
        assert(lrs[k] >> 62 != 0);
    }
    if some_register_names(lrs, intid) {
        let k = choose|k: int|
            0 <= k < lrs.len() && (#[trigger] lrs[k]) >> 62 != 0 && lrs[k] & 0xffff_ffff
                == intid as u64;
        assert(list_registers::lists(lrs[k], intid));
    }
}

/// What was put into the list registers of a processor in polling for a VTL: in
/// every register that changed, the low word names an interrupt that was asked
/// for, enabled, in group 1 and not active, whose priority value is below the
/// mask of the VTL, and bit 62 makes it pending; one that held nothing before also
/// gets group 1 in bit 60 and that priority in bits 55 to 48. A private one is no longer
/// requested; a shared one comes to VTL0 alone, is in flight to this processor,
/// and was in flight to nobody, or to this processor with no register that still
/// named it. So a VTL whose mask is zero gets none.
pub proof fn only_unmasked_interrupts_are_injected(
    view: DistributorView,
    vp: u32,
    vtl: GuestVtl,
    lrs: Seq<u64>,
    gic: CcaGic,
)
    requires
        view.wf(),
    ensures
        ({
            let (after, after_lrs, left) = poll::polled(view, vp, vtl, lrs, gic);
            &&& after_lrs.len() == lrs.len()
            &&& forall|k: int|
                0 <= k < lrs.len() && #[trigger] after_lrs[k] != lrs[k] ==> {
                    let intid = (after_lrs[k] & 0xffff_ffff) as u32;
                    &&& (after_lrs[k] >> 62) & 1 == 1
                    &&& lrs[k] >> 62 == 0 ==> {
                        &&& after_lrs[k] >> 62 == 1
                        &&& (after_lrs[k] >> 60) & 1 == 1
                        &&& (after_lrs[k] >> 48) & 0xff == if intid < 32 {
                            delivery::byte_of(view.redistributors[vp as int].priority, intid)
                        } else {
                            delivery::byte_of(view.priority, intid)
                        } as u64
                    }
                    &&& intid < 32 ==> {
                        &&& private_may_enter(view, vp, gic.pending, gic.priority_mask, intid)
                        &&& delivery::byte_of(view.redistributors[vp as int].priority, intid)
                            < gic.priority_mask
                        &&& (left >> intid) & 1 == 0
                    }
                    &&& intid >= 32 ==> {
                        &&& vtl == GuestVtl::Vtl0
                        &&& spi_may_enter(view, vp, gic.priority_mask, intid)
                        &&& delivery::byte_of(view.priority, intid) < gic.priority_mask
                        &&& view.in_flight[intid as int] is None || (view.in_flight[intid as int]
                            == Some(vp) && !some_register_names(lrs, intid))
                        &&& after.in_flight[intid as int] == Some(vp)
                    }
                }
            &&& gic.priority_mask == 0 ==> after_lrs == lrs && left == gic.pending
        }),
{
    let mask = gic.priority_mask;
    let (private_lrs, left, drained) = poll::private_polled(view, vp, mask, lrs, gic.pending);
    lemma_private_injections(view, vp, mask, lrs, gic.pending);
    let (after, after_lrs, _left) = poll::polled(view, vp, vtl, lrs, gic);
    if drained && vtl == GuestVtl::Vtl0 {
        let start = poll::retired(view, vp, private_lrs);
        assert(start.wf());
        lemma_spi_injections(start, vp, mask, private_lrs);
    }
    assert forall|k: int| 0 <= k < lrs.len() && #[trigger] after_lrs[k] != lrs[k] implies {
        let intid = (after_lrs[k] & 0xffff_ffff) as u32;
        &&& (after_lrs[k] >> 62) & 1 == 1
        &&& lrs[k] >> 62 == 0 ==> {
            &&& after_lrs[k] >> 62 == 1
            &&& (after_lrs[k] >> 60) & 1 == 1
            &&& (after_lrs[k] >> 48) & 0xff == if intid < 32 {
                delivery::byte_of(view.redistributors[vp as int].priority, intid)
            } else {
                delivery::byte_of(view.priority, intid)
            } as u64
        }
        &&& intid < 32 ==> private_may_enter(view, vp, gic.pending, mask, intid) && (left >> intid)
            & 1 == 0
        &&& intid >= 32 ==> {
            &&& vtl == GuestVtl::Vtl0
            &&& spi_may_enter(view, vp, mask, intid)
            &&& view.in_flight[intid as int] is None || (view.in_flight[intid as int] == Some(vp)
                && !some_register_names(lrs, intid))
            &&& after.in_flight[intid as int] == Some(vp)
        }
    } by {
        let intid = (after_lrs[k] & 0xffff_ffff) as u32;
        lemma_names_is_listed(lrs, intid);
        if after_lrs[k] == private_lrs[k] {
            assert(private_lrs[k] != lrs[k]);
        }
    }
    if mask == 0 {
        assert(after_lrs =~= lrs);
        lemma_masked_requests_stay(view, vp, lrs, gic.pending);
    }
}

/// With the mask at zero no request is taken.
proof fn lemma_masked_requests_stay(view: DistributorView, vp: u32, lrs: Seq<u64>, pending: u32)
    ensures
        poll::private_polled(view, vp, 0, lrs, pending).1 == pending,
{
    interrupt::lemma_first_exists(
        view.private_deliverable(vp, pending, 0),
        |i: u32| view.redistributors[vp as int].priority_of(i),
    );
    if let Some(next) = poll::next_private(view, vp, pending, 0) {
        assert(view.private_deliverable(vp, pending, 0).contains(next.intid));
    }
}

proof fn lemma_private_injections(
    view: DistributorView,
    vp: u32,
    mask: u8,
    lrs: Seq<u64>,
    pending: u32,
)
    requires
        view.wf(),
    ensures
        ({
            let (after, left, _drained) = poll::private_polled(view, vp, mask, lrs, pending);
            &&& after.len() == lrs.len()
            &&& forall|k: int|
                0 <= k < lrs.len() && (lrs[k] >> 62) & 1 == 1 ==> #[trigger] after[k] == lrs[k]
            &&& forall|i: u32| i < 32 && (#[trigger] (left >> i)) & 1 == 1 ==> (pending >> i) & 1 == 1
            &&& forall|i: u32|
                #[trigger] list_registers::is_listed(lrs, i) ==> list_registers::is_listed(after, i)
            &&& forall|k: int|
                0 <= k < lrs.len() && #[trigger] after[k] != lrs[k] ==> {
                    let intid = (after[k] & 0xffff_ffff) as u32;
                    &&& (after[k] >> 62) & 1 == 1
                    &&& lrs[k] >> 62 == 0 ==> {
                        &&& after[k] >> 62 == 1
                        &&& (after[k] >> 60) & 1 == 1
                        &&& (after[k] >> 48) & 0xff == delivery::byte_of(
                            view.redistributors[vp as int].priority,
                            intid,
                        ) as u64
                    }
                    &&& private_may_enter(view, vp, pending, mask, intid)
                    &&& (left >> intid) & 1 == 0
                }
        }),
    decreases pending,
{
    interrupt::lemma_first_exists(
        view.private_deliverable(vp, pending, mask),
        |i: u32| view.redistributors[vp as int].priority_of(i),
    );
    if let Some(next) = poll::next_private(view, vp, pending, mask) {
        assert(view.private_deliverable(vp, pending, mask).contains(next.intid));
        delivery::private_delivery_by_bits(view, vp, pending, mask, next.intid);
        delivery::lemma_byte_is_priority(
            view.redistributors[vp as int].priority[(next.intid / 4) as int],
            next.intid,
        );
        if let Some(mid) = list_registers::injected(lrs, next) {
            let rest = pending & !(1u32 << next.intid);
            bits::lemma_clear_decreases(pending, next.intid);
            list_registers::an_injection_writes_one_register(lrs, next);
            lemma_private_injections(view, vp, mask, mid, rest);
            let (after, left, _drained) = poll::private_polled(view, vp, mask, mid, rest);
            assert forall|i: u32| i < 32 implies ((rest >> i) & 1 == 1 <==> (pending >> i) & 1 == 1
                && i != next.intid) by {
                bits::lemma_bit_update(pending, next.intid, i);
                bits::lemma_bit_shifted(pending, i);
                bits::lemma_bit_shifted(rest, i);
            }
            assert forall|i: u32| i < 32 && (#[trigger] (left >> i)) & 1 == 1 implies (pending >> i)
                & 1 == 1 by {
                assert((rest >> i) & 1 == 1);
            }
            bits::lemma_bit_shifted(left, next.intid);
            assert forall|i: u32| #[trigger]
                list_registers::is_listed(lrs, i) implies list_registers::is_listed(after, i) by {
                list_registers::injection_keeps_listed_interrupts(lrs, next, i);
            }
            assert forall|k: int| 0 <= k < lrs.len() && #[trigger] after[k] != lrs[k] implies {
                let intid = (after[k] & 0xffff_ffff) as u32;
                &&& (after[k] >> 62) & 1 == 1
                &&& lrs[k] >> 62 == 0 ==> {
                    &&& after[k] >> 62 == 1
                    &&& (after[k] >> 60) & 1 == 1
                    &&& (after[k] >> 48) & 0xff == delivery::byte_of(
                        view.redistributors[vp as int].priority,
                        intid,
                    ) as u64
                }
                &&& private_may_enter(view, vp, pending, mask, intid)
                &&& (left >> intid) & 1 == 0
            } by {
                if after[k] == mid[k] {
                    assert(mid[k] != lrs[k]);
                    assert(mid[k] & 0xffff_ffff == next.intid as u64);
                    assert((left >> next.intid) & 1 != 1);
                } else {
                    let intid = (after[k] & 0xffff_ffff) as u32;
                    assert((rest >> intid) & 1 == 1);
                }
            }
        }
    }
}

proof fn lemma_spi_injections(view: DistributorView, vp: u32, mask: u8, lrs: Seq<u64>)
    requires
        view.wf(),
    ensures
        ({
            let (after, after_lrs) = poll::spis_polled(view, vp, mask, lrs);
            &&& after_lrs.len() == lrs.len()
            &&& forall|k: int|
                0 <= k < lrs.len() && (lrs[k] >> 62) & 1 == 1 ==> #[trigger] after_lrs[k] == lrs[k]
            &&& after.in_flight.len() == view.in_flight.len()
            &&& forall|i: int|
                0 <= i < view.in_flight.len() && view.in_flight[i] is Some
                    ==> #[trigger] after.in_flight[i] == view.in_flight[i]
            &&& forall|k: int|
                0 <= k < lrs.len() && #[trigger] after_lrs[k] != lrs[k] ==> {
                    let intid = (after_lrs[k] & 0xffff_ffff) as u32;
                    &&& (after_lrs[k] >> 62) & 1 == 1
                    &&& lrs[k] >> 62 == 0 ==> {
                        &&& after_lrs[k] >> 62 == 1
                        &&& (after_lrs[k] >> 60) & 1 == 1
                        &&& (after_lrs[k] >> 48) & 0xff == delivery::byte_of(
                            view.priority,
                            intid,
                        ) as u64
                    }
                    &&& spi_may_enter(view, vp, mask, intid)
                    &&& view.in_flight[intid as int] is None
                    &&& after.in_flight[intid as int] == Some(vp)
                }
        }),
    decreases poll::idle(view.in_flight),
{
    interrupt::lemma_first_exists(
        view.spi_deliverable(vp, mask),
        |i: u32| view.priority_of(i),
    );
    if let Some(next) = poll::next_spi(view, vp, mask) {
        assert(view.spi_deliverable(vp, mask).contains(next.intid));
        delivery::shared_delivery_by_bits(view, vp, mask, next.intid);
        delivery::lemma_byte_is_priority(view.priority[(next.intid / 4) as int], next.intid);
        if let Some(mid) = list_registers::injected(lrs, next) {
            let handed = poll::handed_over(view, vp, next.intid);
            poll::lemma_idle_update(view.in_flight, next.intid as int, vp);
            assert(handed.in_flight =~= view.in_flight.update(next.intid as int, Some(vp)));
            assert(handed.wf());
            list_registers::an_injection_writes_one_register(lrs, next);
            lemma_spi_injections(handed, vp, mask, mid);
            let (after, after_lrs) = poll::spis_polled(handed, vp, mask, mid);
            assert(after.in_flight[next.intid as int] == Some(vp));
            assert forall|k: int| 0 <= k < lrs.len() && #[trigger] after_lrs[k] != lrs[k] implies {
                let intid = (after_lrs[k] & 0xffff_ffff) as u32;
                &&& (after_lrs[k] >> 62) & 1 == 1
                &&& lrs[k] >> 62 == 0 ==> {
                    &&& after_lrs[k] >> 62 == 1
                    &&& (after_lrs[k] >> 60) & 1 == 1
                    &&& (after_lrs[k] >> 48) & 0xff == delivery::byte_of(
                        view.priority,
                        intid,
                    ) as u64
                }
                &&& spi_may_enter(view, vp, mask, intid)
                &&& view.in_flight[intid as int] is None
                &&& after.in_flight[intid as int] == Some(vp)
            } by {
                if after_lrs[k] == mid[k] {
                    assert(mid[k] != lrs[k]);
                    assert(mid[k] & 0xffff_ffff == next.intid as u64);
                } else {
                    let intid = (after_lrs[k] & 0xffff_ffff) as u32;
                    assert(spi_may_enter(handed, vp, mask, intid));
                    lemma_unlatched_asks(view, next.intid, intid);
                }
            }
        }
    }
}

/// Unlatching one shared interrupt makes no other ask.
proof fn lemma_unlatched_asks(view: DistributorView, intid: u32, other: u32)
    requires
        view.wf(),
        32 <= intid <= view.max_spi_intid,
        32 <= other <= view.max_spi_intid,
        delivery::spi_asks(view.with_pending(intid, false), other),
    ensures
        delivery::spi_asks(view, other),
        intid != other || !delivery::bit_of(view.with_pending(intid, false).pending, other),
{
    let after = view.with_pending(intid, false);
    laws::lemma_with_bit(view.pending, intid, false, other);
    bits::lemma_bit_shifted(view.pending[(other / 32) as int], other % 32);
    bits::lemma_bit_shifted(after.pending[(other / 32) as int], other % 32);
}

/// When a list register is still free after polling, nothing waits: every private
/// interrupt that may enter is named by a register, and in VTL0 every shared one
/// that was in flight to nobody, or to this processor and named by no register.
pub proof fn nothing_waits_while_a_register_is_free(
    view: DistributorView,
    vp: u32,
    vtl: GuestVtl,
    lrs: Seq<u64>,
    gic: CcaGic,
    free: int,
    intid: u32,
)
    requires
        view.wf(),
        0 <= free < lrs.len(),
        poll::polled(view, vp, vtl, lrs, gic).1[free] >> 62 == 0,
    ensures
        ({
            let (after, after_lrs, left) = poll::polled(view, vp, vtl, lrs, gic);
            &&& private_may_enter(view, vp, gic.pending, gic.priority_mask, intid)
                ==> some_register_names(after_lrs, intid)
            &&& vtl == GuestVtl::Vtl0 && spi_may_enter(view, vp, gic.priority_mask, intid) && (
            view.in_flight[intid as int] is None || (view.in_flight[intid as int] == Some(vp)
                && !some_register_names(lrs, intid))) ==> {
                &&& some_register_names(after_lrs, intid)
                &&& after.in_flight[intid as int] == Some(vp)
            }
        }),
{
    let mask = gic.priority_mask;
    let (private_lrs, left, drained) = poll::private_polled(view, vp, mask, lrs, gic.pending);
    let (after, after_lrs, _left) = poll::polled(view, vp, vtl, lrs, gic);
    only_unmasked_interrupts_are_injected(view, vp, vtl, lrs, gic);
    lemma_private_injections(view, vp, mask, lrs, gic.pending);
    lemma_private_drained(view, vp, mask, lrs, gic.pending, free);
    lemma_names_is_listed(lrs, intid);
    lemma_names_is_listed(private_lrs, intid);
    lemma_names_is_listed(after_lrs, intid);
    if private_may_enter(view, vp, gic.pending, mask, intid) {
        poll::requests_are_kept_or_listed(view, vp, mask, lrs, gic.pending, intid);
        bits::lemma_bit_shifted(gic.pending, intid);
        bits::lemma_bit_shifted(left, intid);
        if (left >> intid) & 1 == 1 {
            if drained {
                delivery::private_delivery_by_bits(view, vp, left, mask, intid);
            }
        } else {
            assert(list_registers::is_listed(private_lrs, intid));
        }
    }
    if drained && vtl == GuestVtl::Vtl0 {
        let start = poll::retired(view, vp, private_lrs);
        assert(start.wf());
        lemma_spi_injections(start, vp, mask, private_lrs);
        lemma_spis_kept(start, vp, mask, private_lrs);
        poll::spis_wait_only_for_room(start, vp, mask, private_lrs);
        poll::in_flight_interrupts_are_listed(view, vp, mask, private_lrs);
        if let Some(next) = poll::next_spi(after, vp, mask) {
            list_registers::room_is_a_free_or_naming_register(after_lrs, next);
        }
        if spi_may_enter(view, vp, mask, intid) && start.in_flight[intid as int] is None {
            delivery::shared_delivery_by_bits(after, vp, mask, intid);
            assert(after.in_flight[intid as int] == Some(vp));
            assert(list_registers::is_listed(after_lrs, intid));
        }
        if intid < 32 && list_registers::is_listed(private_lrs, intid) {
            assert(list_registers::is_listed(after_lrs, intid));
        }
    }
}

/// Where a register stays free, every request that may be delivered was taken.
proof fn lemma_private_drained(
    view: DistributorView,
    vp: u32,
    mask: u8,
    lrs: Seq<u64>,
    pending: u32,
    free: int,
)
    requires
        view.wf(),
        0 <= free < lrs.len(),
    ensures
        ({
            let (after, left, drained) = poll::private_polled(view, vp, mask, lrs, pending);
            &&& drained ==> forall|i: u32|
                !#[trigger] view.private_deliverable(vp, left, mask).contains(i)
            &&& !drained ==> after[free] >> 62 != 0
        }),
    decreases pending,
{
    interrupt::lemma_first_exists(
        view.private_deliverable(vp, pending, mask),
        |i: u32| view.redistributors[vp as int].priority_of(i),
    );
    if let Some(next) = poll::next_private(view, vp, pending, mask) {
        assert(view.private_deliverable(vp, pending, mask).contains(next.intid));
        list_registers::room_is_a_free_or_naming_register(lrs, next);
        if let Some(mid) = list_registers::injected(lrs, next) {
            bits::lemma_clear_decreases(pending, next.intid);
            list_registers::an_injection_writes_one_register(lrs, next);
            lemma_private_drained(
                view,
                vp,
                mask,
                mid,
                pending & !(1u32 << next.intid),
                free,
            );
        }
    }
}

/// Injecting shared interrupts changes nothing of one that is not taken, and
/// keeps every register's interrupt.
proof fn lemma_spis_kept(view: DistributorView, vp: u32, mask: u8, lrs: Seq<u64>)
    requires
        view.wf(),
    ensures
        ({
            let (after, after_lrs) = poll::spis_polled(view, vp, mask, lrs);
            &&& after.wf()
            &&& after == (DistributorView {
                pending: after.pending,
                in_flight: after.in_flight,
                ..view
            })
            &&& forall|i: u32|
                32 <= i <= view.max_spi_intid && after.in_flight[i as int] is None ==> (
                #[trigger] delivery::bit_of(after.pending, i) <==> delivery::bit_of(view.pending, i))
            &&& forall|i: u32|
                #[trigger] list_registers::is_listed(lrs, i) ==> list_registers::is_listed(
                    after_lrs,
                    i,
                )
            &&& forall|i: int|
                0 <= i < view.in_flight.len() && #[trigger] after.in_flight[i] != view.in_flight[i]
                    ==> after.in_flight[i] == Some(vp)
            &&& forall|i: int|
                0 <= i < view.in_flight.len() && view.in_flight[i] is Some
                    ==> #[trigger] after.in_flight[i] == view.in_flight[i]
        }),
    decreases poll::idle(view.in_flight),
{
    interrupt::lemma_first_exists(
        view.spi_deliverable(vp, mask),
        |i: u32| view.priority_of(i),
    );
    if let Some(next) = poll::next_spi(view, vp, mask) {
        assert(view.spi_deliverable(vp, mask).contains(next.intid));
        if let Some(mid) = list_registers::injected(lrs, next) {
            let handed = poll::handed_over(view, vp, next.intid);
            poll::lemma_idle_update(view.in_flight, next.intid as int, vp);
            assert(handed.in_flight =~= view.in_flight.update(next.intid as int, Some(vp)));
            assert(handed.wf());
            lemma_spis_kept(handed, vp, mask, mid);
            let (after, after_lrs) = poll::spis_polled(handed, vp, mask, mid);
            assert forall|i: u32|
                32 <= i <= view.max_spi_intid && after.in_flight[i as int] is None implies (
            #[trigger] delivery::bit_of(after.pending, i) <==> delivery::bit_of(
                view.pending,
                i,
            )) by {
                assert(after.in_flight[next.intid as int] == Some(vp));
                assert(delivery::bit_of(after.pending, i) <==> delivery::bit_of(handed.pending, i));
                laws::lemma_with_bit(view.pending, next.intid, false, i);
                bits::lemma_bit_shifted(view.pending[(i / 32) as int], i % 32);
                bits::lemma_bit_shifted(handed.pending[(i / 32) as int], i % 32);
            }
            assert forall|i: u32| #[trigger]
                list_registers::is_listed(lrs, i) implies list_registers::is_listed(after_lrs, i) by {
                list_registers::injection_keeps_listed_interrupts(lrs, next, i);
            }
        }
    }
}

/// Interrupts enter the list registers in the order of their priority values,
/// and of their IDs among equals: where one that may enter is left waiting, none
/// that entered comes after it. While a private one waits, no shared one enters.
pub proof fn more_urgent_interrupts_enter_first(
    view: DistributorView,
    vp: u32,
    vtl: GuestVtl,
    lrs: Seq<u64>,
    gic: CcaGic,
    k: int,
    waiting: u32,
)
    requires
        view.wf(),
        0 <= k < lrs.len(),
        poll::polled(view, vp, vtl, lrs, gic).1[k] != lrs[k],
    ensures
        ({
            let (after, after_lrs, left) = poll::polled(view, vp, vtl, lrs, gic);
            let entered = (after_lrs[k] & 0xffff_ffff) as u32;
            let own = view.redistributors[vp as int];
            &&& private_may_enter(view, vp, left, gic.priority_mask, waiting) ==> {
                let (p, q) = (
                    delivery::byte_of(own.priority, entered),
                    delivery::byte_of(own.priority, waiting),
                );
                entered < 32 && (p < q || (p == q && entered < waiting))
            }
            &&& entered >= 32 && spi_may_enter(view, vp, gic.priority_mask, waiting)
                && view.in_flight[waiting as int] is None && after.in_flight[waiting as int]
                is None ==> {
                let (p, q) = (
                    delivery::byte_of(view.priority, entered),
                    delivery::byte_of(view.priority, waiting),
                );
                p < q || (p == q && entered < waiting)
            }
        }),
{
    let mask = gic.priority_mask;
    let (private_lrs, left, drained) = poll::private_polled(view, vp, mask, lrs, gic.pending);
    let (after, after_lrs, _left) = poll::polled(view, vp, vtl, lrs, gic);
    only_unmasked_interrupts_are_injected(view, vp, vtl, lrs, gic);
    lemma_private_injections(view, vp, mask, lrs, gic.pending);
    lemma_private_drained(view, vp, mask, lrs, gic.pending, k);
    delivery::private_delivery_by_bits(view, vp, left, mask, waiting);
    if private_may_enter(view, vp, left, mask, waiting) {
        assert(!drained);
        lemma_private_order(view, vp, mask, lrs, gic.pending, k, waiting);
    }
    if drained && vtl == GuestVtl::Vtl0 {
        let start = poll::retired(view, vp, private_lrs);
        assert(start.wf());
        lemma_spi_injections(start, vp, mask, private_lrs);
        let entered = (after_lrs[k] & 0xffff_ffff) as u32;
        if entered >= 32 && spi_may_enter(view, vp, mask, waiting)
            && view.in_flight[waiting as int] is None && after.in_flight[waiting as int] is None {
            assert(after_lrs[k] != private_lrs[k]);
            lemma_spi_order(start, vp, mask, private_lrs, k, waiting);
        }
    }
}

proof fn lemma_private_order(
    view: DistributorView,
    vp: u32,
    mask: u8,
    lrs: Seq<u64>,
    pending: u32,
    k: int,
    waiting: u32,
)
    requires
        view.wf(),
        0 <= k < lrs.len(),
        poll::private_polled(view, vp, mask, lrs, pending).0[k] != lrs[k],
        private_may_enter(
            view,
            vp,
            poll::private_polled(view, vp, mask, lrs, pending).1,
            mask,
            waiting,
        ),
    ensures
        ({
            let entered = (poll::private_polled(view, vp, mask, lrs, pending).0[k] & 0xffff_ffff) as u32;
            let own = view.redistributors[vp as int];
            let (p, q) = (
                delivery::byte_of(own.priority, entered),
                delivery::byte_of(own.priority, waiting),
            );
            p < q || (p == q && entered < waiting)
        }),
    decreases pending,
{
    let own = view.redistributors[vp as int];
    lemma_private_injections(view, vp, mask, lrs, pending);
    delivery::private_delivery_by_bits(view, vp, pending, mask, waiting);
    interrupt::lemma_first_exists(
        view.private_deliverable(vp, pending, mask),
        |i: u32| view.redistributors[vp as int].priority_of(i),
    );
    if let Some(next) = poll::next_private(view, vp, pending, mask) {
        assert(view.private_deliverable(vp, pending, mask).contains(next.intid));
        assert(view.private_deliverable(vp, pending, mask).contains(waiting));
        if let Some(mid) = list_registers::injected(lrs, next) {
            let rest = pending & !(1u32 << next.intid);
            bits::lemma_clear_decreases(pending, next.intid);
            list_registers::an_injection_writes_one_register(lrs, next);
            lemma_private_injections(view, vp, mask, mid, rest);
            let (after, left, _drained) = poll::private_polled(view, vp, mask, mid, rest);
            if after[k] == mid[k] {
                assert(mid[k] & 0xffff_ffff == next.intid as u64);
                assert((left >> next.intid) & 1 == 0);
                delivery::lemma_byte_is_priority(own.priority[(waiting / 4) as int], waiting);
                delivery::lemma_byte_is_priority(
                    own.priority[(next.intid / 4) as int],
                    next.intid,
                );
            } else {
                lemma_private_order(view, vp, mask, mid, rest, k, waiting);
            }
        }
    }
}

proof fn lemma_spi_order(
    view: DistributorView,
    vp: u32,
    mask: u8,
    lrs: Seq<u64>,
    k: int,
    waiting: u32,
)
    requires
        view.wf(),
        0 <= k < lrs.len(),
        poll::spis_polled(view, vp, mask, lrs).1[k] != lrs[k],
        spi_may_enter(view, vp, mask, waiting),
        view.in_flight[waiting as int] is None,
        poll::spis_polled(view, vp, mask, lrs).0.in_flight[waiting as int] is None,
    ensures
        ({
            let entered = (poll::spis_polled(view, vp, mask, lrs).1[k] & 0xffff_ffff) as u32;
            let (p, q) = (
                delivery::byte_of(view.priority, entered),
                delivery::byte_of(view.priority, waiting),
            );
            p < q || (p == q && entered < waiting)
        }),
    decreases poll::idle(view.in_flight),
{
    delivery::shared_delivery_by_bits(view, vp, mask, waiting);
    interrupt::lemma_first_exists(
        view.spi_deliverable(vp, mask),
        |i: u32| view.priority_of(i),
    );
    if let Some(next) = poll::next_spi(view, vp, mask) {
        assert(view.spi_deliverable(vp, mask).contains(next.intid));
        assert(view.spi_deliverable(vp, mask).contains(waiting));
        if let Some(mid) = list_registers::injected(lrs, next) {
            let handed = poll::handed_over(view, vp, next.intid);
            poll::lemma_idle_update(view.in_flight, next.intid as int, vp);
            assert(handed.in_flight =~= view.in_flight.update(next.intid as int, Some(vp)));
            assert(handed.wf());
            list_registers::an_injection_writes_one_register(lrs, next);
            lemma_spi_injections(handed, vp, mask, mid);
            let (after, after_lrs) = poll::spis_polled(handed, vp, mask, mid);
            assert(waiting != next.intid);
            if after_lrs[k] == mid[k] {
                assert(mid[k] & 0xffff_ffff == next.intid as u64);
                delivery::lemma_byte_is_priority(view.priority[(waiting / 4) as int], waiting);
                delivery::lemma_byte_is_priority(
                    view.priority[(next.intid / 4) as int],
                    next.intid,
                );
            } else {
                laws::lemma_with_bit(view.pending, next.intid, false, waiting);
                bits::lemma_bit_shifted(view.pending[(waiting / 32) as int], waiting % 32);
                bits::lemma_bit_shifted(handed.pending[(waiting / 32) as int], waiting % 32);
                assert(spi_may_enter(handed, vp, mask, waiting));
                lemma_spi_order(handed, vp, mask, mid, k, waiting);
            }
        }
    }
}

} // verus!
