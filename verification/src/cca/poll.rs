//! How interrupts get from the interrupt controller into the list registers of
//! a plane.

use super::list_registers;
use super::list_registers::{inject_virtual_interrupt, virtual_interrupt_is_listed};
use super::processor::{CcaBackedShared, CcaGic, UhProcessor};
use super::vtl::GuestVtl;
use crate::bits;
use crate::gic::interrupt;
use crate::gic::interrupt::PendingInterrupt;
use crate::gic::laws;
use crate::gic::registers::VpIndex;
use crate::gic::state::DistributorView;
use crate::rsi::{cca_rsi_plane_entry, RSI_PLANE_GIC_NUM_LRS};
use vstd::prelude::*;

verus! {

/// The first of the requested private interrupts to deliver to `vp`.
pub open spec fn next_private(view: DistributorView, vp: u32, pending: u32, priority_mask: u8) -> Option<
    PendingInterrupt,
> {
    interrupt::first_of(
        view.private_deliverable(vp, pending, priority_mask),
        |i: u32| view.redistributors[vp as int].priority_of(i),
    )
}

/// The first shared interrupt to deliver to `vp`.
pub open spec fn next_spi(view: DistributorView, vp: u32, priority_mask: u8) -> Option<
    PendingInterrupt,
> {
    interrupt::first_of(
        view.spi_deliverable(vp, priority_mask),
        |i: u32| view.priority_of(i),
    )
}

/// The list registers and the requests that are left after the requested
/// private interrupts were injected, one after the other, and whether there was
/// room for all of them.
pub open spec fn private_polled(
    view: DistributorView,
    vp: u32,
    priority_mask: u8,
    lrs: Seq<u64>,
    pending: u32,
) -> (Seq<u64>, u32, bool)
    decreases pending,
{
    match next_private(view, vp, pending, priority_mask) {
        Some(next) if next.intid < 32 && bits::bit(pending, next.intid) => {
            proof {
                bits::lemma_clear_decreases(pending, next.intid);
            }
            match list_registers::injected(lrs, next) {
                Some(after) => private_polled(
                    view,
                    vp,
                    priority_mask,
                    after,
                    pending & !(1u32 << next.intid),
                ),
                None => (lrs, pending, false),
            }
        },
        _ => (lrs, pending, true),
    }
}

/// How many interrupts are in flight to no processor.
pub open spec fn idle(in_flight: Seq<Option<u32>>) -> nat
    decreases in_flight.len(),
{
    if in_flight.len() == 0 {
        0
    } else {
        idle(in_flight.drop_last()) + (if in_flight.last() is None {
            1nat
        } else {
            0
        })
    }
}

/// Putting an idle interrupt in flight leaves one less idle.
pub proof fn lemma_idle_update(in_flight: Seq<Option<u32>>, i: int, vp: u32)
    requires
        0 <= i < in_flight.len(),
        in_flight[i] is None,
    ensures
        idle(in_flight.update(i, Some(vp))) + 1 == idle(in_flight),
    decreases in_flight.len(),
{
    let after = in_flight.update(i, Some(vp));
    if i == in_flight.len() - 1 {
        assert(after.drop_last() =~= in_flight.drop_last());
    } else {
        assert(after.drop_last() =~= in_flight.drop_last().update(i, Some(vp)));
        lemma_idle_update(in_flight.drop_last(), i, vp);
    }
}

/// The interrupts of the controller that are in flight to `vp` and no longer
/// listed are retired.
pub open spec fn retired(view: DistributorView, vp: u32, lrs: Seq<u64>) -> DistributorView {
    DistributorView {
        in_flight: Seq::new(
            view.in_flight.len(),
            |i: int|
                if i >= 32 && view.in_flight[i] == Some(vp) && !list_registers::is_listed(
                    lrs,
                    i as u32,
                ) {
                    None
                } else {
                    view.in_flight[i]
                },
        ),
        ..view
    }
}

/// The controller after a shared interrupt was set aside for `vp` and injected.
pub open spec fn handed_over(view: DistributorView, vp: u32, intid: u32) -> DistributorView {
    view.reserved(vp, intid).injected(vp, intid)
}

/// The controller and the list registers after the shared interrupts for `vp`
/// were injected, one after the other, as long as there was room.
pub open spec fn spis_polled(
    view: DistributorView,
    vp: u32,
    priority_mask: u8,
    lrs: Seq<u64>,
) -> (DistributorView, Seq<u64>)
    decreases idle(view.in_flight),
{
    match next_spi(view, vp, priority_mask) {
        Some(next) if next.intid < view.in_flight.len() && view.in_flight[next.intid as int]
            is None => {
            proof {
                lemma_idle_update(view.in_flight, next.intid as int, vp);
                assert(handed_over(view, vp, next.intid).in_flight =~= view.in_flight.update(
                    next.intid as int,
                    Some(vp),
                ));
            }
            match list_registers::injected(lrs, next) {
                Some(after) => spis_polled(
                    handed_over(view, vp, next.intid),
                    vp,
                    priority_mask,
                    after,
                ),
                None => (view, lrs),
            }
        },
        _ => (view, lrs),
    }
}

/// The controller, the list registers and the requests of a VTL after its
/// interrupts were injected. Device interrupts belong to VTL0, and wait until
/// the private ones have found room.
pub open spec fn polled(
    view: DistributorView,
    vp: u32,
    vtl: GuestVtl,
    lrs: Seq<u64>,
    gic: CcaGic,
) -> (DistributorView, Seq<u64>, u32) {
    let (private_lrs, pending, drained) = private_polled(
        view,
        vp,
        gic.priority_mask,
        lrs,
        gic.pending,
    );
    if drained && vtl == GuestVtl::Vtl0 {
        let (after, all_lrs) = spis_polled(
            retired(view, vp, private_lrs),
            vp,
            gic.priority_mask,
            private_lrs,
        );
        (after, all_lrs, pending)
    } else {
        (view, private_lrs, pending)
    }
}

impl UhProcessor {
    /// With other list registers and other requests of a VTL.
    pub open spec fn with_interrupts(
        self,
        vtl: GuestVtl,
        lrs: [u64; RSI_PLANE_GIC_NUM_LRS],
        pending: u32,
    ) -> UhProcessor {
        self.with_entry(cca_rsi_plane_entry { gicv3_lrs: lrs, ..self.entry() }).with_gic(
            vtl,
            CcaGic { pending, ..self.backing.spec_gic(vtl) },
        )
    }

    /// Injects the requested private interrupts of a VTL. Returns whether there
    /// was room for all of them.
    fn poll_private_interrupts(&mut self, shared: &CcaBackedShared, vtl: GuestVtl) -> (drained: bool)
        requires
            shared.gic.wf(),
        ensures
            *final(self) == old(self).with_interrupts(
                vtl,
                final(self).entry().gicv3_lrs,
                final(self).backing.spec_gic(vtl).pending,
            ),
            (
                final(self).entry().gicv3_lrs@,
                final(self).backing.spec_gic(vtl).pending,
                drained,
            ) == private_polled(
                shared.gic@,
                old(self).vp_index.0,
                old(self).backing.spec_gic(vtl).priority_mask,
                old(self).entry().gicv3_lrs@,
                old(self).backing.spec_gic(vtl).pending,
            ),
    {
        let ghost view = shared.gic@;
        let ghost vp = self.vp_index.0;
        let ghost mask = self.backing.spec_gic(vtl).priority_mask;
        let ghost goal = private_polled(
            view,
            vp,
            mask,
            self.entry().gicv3_lrs@,
            self.backing.spec_gic(vtl).pending,
        );
        loop
            invariant
                shared.gic.wf(),
                view == shared.gic@,
                vp == old(self).vp_index.0,
                mask == old(self).backing.spec_gic(vtl).priority_mask,
                goal == private_polled(
                    view,
                    vp,
                    mask,
                    old(self).entry().gicv3_lrs@,
                    old(self).backing.spec_gic(vtl).pending,
                ),
                *self == old(self).with_interrupts(
                    vtl,
                    self.entry().gicv3_lrs,
                    self.backing.spec_gic(vtl).pending,
                ),
                goal == private_polled(
                    view,
                    vp,
                    mask,
                    self.entry().gicv3_lrs@,
                    self.backing.spec_gic(vtl).pending,
                ),
            decreases self.backing.spec_gic(vtl).pending,
        {
            let mut gic = self.backing.gic(vtl);
            let ghost lrs = self.entry().gicv3_lrs@;
            let ghost pending = gic.pending;
            let next = shared.gic.next_pending_private_interrupt(
                self.vp_index,
                gic.pending_mask(),
                gic.priority_mask,
            );
            proof {
                interrupt::lemma_first_of(
                    view.private_deliverable(vp, pending, mask),
                    |i: u32| view.redistributors[vp as int].priority_of(i),
                    next,
                );
            }
            match next {
                None => return true,
                Some(interrupt) => {
                    proof {
                        assert(view.private_deliverable(vp, pending, mask).contains(
                            interrupt.intid,
                        ));
                        bits::lemma_clear_decreases(pending, interrupt.intid);
                    }
                    let injected = inject_virtual_interrupt(
                        &mut self.runner.state.plane_run.entry.gicv3_lrs,
                        interrupt,
                    );
                    if !injected {
                        // No list register is free; the interrupt stays pending.
                        proof {
                            assert(self.entry().gicv3_lrs@ == lrs);
                        }
                        return false;
                    }
                    gic.complete_interrupt(interrupt.intid);
                    self.backing.set_gic(vtl, gic);
                },
            }
        }
    }

    /// Injects the shared interrupts for this processor, as long as there is
    /// room.
    fn poll_spis(&mut self, shared: &mut CcaBackedShared, running_priority: u8)
        requires
            old(shared).gic.wf(),
        ensures
            final(shared).gic.wf(),
            final(shared).virt_timer_ppi == old(shared).virt_timer_ppi,
            *final(self) == old(self).with_entry(
                cca_rsi_plane_entry {
                    gicv3_lrs: final(self).entry().gicv3_lrs,
                    ..old(self).entry()
                },
            ),
            (final(shared).gic@, final(self).entry().gicv3_lrs@) == spis_polled(
                old(shared).gic@,
                old(self).vp_index.0,
                running_priority,
                old(self).entry().gicv3_lrs@,
            ),
    {
        let ghost vp = self.vp_index.0;
        let ghost goal = spis_polled(
            shared.gic@,
            vp,
            running_priority,
            self.entry().gicv3_lrs@,
        );
        loop
            invariant
                shared.gic.wf(),
                shared.virt_timer_ppi == old(shared).virt_timer_ppi,
                vp == old(self).vp_index.0,
                goal == spis_polled(
                    old(shared).gic@,
                    vp,
                    running_priority,
                    old(self).entry().gicv3_lrs@,
                ),
                *self == old(self).with_entry(
                    cca_rsi_plane_entry {
                        gicv3_lrs: self.entry().gicv3_lrs,
                        ..old(self).entry()
                    },
                ),
                goal == spis_polled(
                    shared.gic@,
                    vp,
                    running_priority,
                    self.entry().gicv3_lrs@,
                ),
            decreases idle(shared.gic@.in_flight),
        {
            let ghost view = shared.gic@;
            let ghost lrs = self.entry().gicv3_lrs@;
            proof {
                shared.gic.lemma_wf();
            }
            let next = shared.gic.reserve_pending_spi_interrupt(self.vp_index, running_priority);
            proof {
                interrupt::lemma_first_of(
                    view.spi_deliverable(vp, running_priority),
                    |i: u32| view.priority_of(i),
                    next,
                );
            }
            match next {
                None => return ,
                Some(interrupt) => {
                    proof {
                        assert(view.spi_deliverable(vp, running_priority).contains(
                            interrupt.intid,
                        ));
                        lemma_idle_update(view.in_flight, interrupt.intid as int, vp);
                        assert(handed_over(view, vp, interrupt.intid).in_flight
                            =~= view.in_flight.update(interrupt.intid as int, Some(vp)));
                    }
                    let injected = inject_virtual_interrupt(
                        &mut self.runner.state.plane_run.entry.gicv3_lrs,
                        interrupt,
                    );
                    if !injected {
                        // No list register is free; the interrupt stays pending.
                        shared.gic.cancel_spi_reservation(self.vp_index, interrupt.intid);
                        proof {
                            laws::cancelling_undoes_a_reservation(
                                view,
                                vp,
                                interrupt.intid,
                                running_priority,
                            );
                            assert(self.entry().gicv3_lrs@ == lrs);
                        }
                        return ;
                    }
                    shared.gic.mark_spi_injected(self.vp_index, interrupt.intid);
                },
            }
        }
    }

    /// Injects the interrupts of a VTL into the list registers.
    pub fn poll_gic(&mut self, shared: &mut CcaBackedShared, vtl: GuestVtl)
        requires
            old(shared).gic.wf(),
        ensures
            final(shared).gic.wf(),
            final(shared).virt_timer_ppi == old(shared).virt_timer_ppi,
            *final(self) == old(self).with_interrupts(
                vtl,
                final(self).entry().gicv3_lrs,
                final(self).backing.spec_gic(vtl).pending,
            ),
            (
                final(shared).gic@,
                final(self).entry().gicv3_lrs@,
                final(self).backing.spec_gic(vtl).pending,
            ) == polled(
                old(shared).gic@,
                old(self).vp_index.0,
                vtl,
                old(self).entry().gicv3_lrs@,
                old(self).backing.spec_gic(vtl),
            ),
    {
        let ghost view = shared.gic@;
        if !self.poll_private_interrupts(shared, vtl) {
            return ;
        }
        // Device SPIs belong to VTL0. Reconcile the model with the RMM list
        // registers before selecting another interrupt. If a level-triggered
        // line remains asserted after its LR is retired, it becomes eligible
        // for injection again.
        if vtl != GuestVtl::Vtl0 {
            return ;
        }
        let vp: VpIndex = self.vp_index;
        let lrs = self.runner.state.plane_run.entry.gicv3_lrs;
        let is_in_flight = |intid: u32| -> (listed: bool)
            ensures
                listed == list_registers::is_listed(lrs@, intid),
            { virtual_interrupt_is_listed(&lrs, intid) };
        shared.gic.retain_in_flight_spis(vp, is_in_flight);
        proof {
            assert(shared.gic@.in_flight =~= retired(view, vp.0, lrs@).in_flight);
            assert(shared.gic@ =~= retired(view, vp.0, lrs@));
        }
        let running_priority: u8 = self.backing.gic(vtl).priority_mask;
        self.poll_spis(shared, running_priority);
    }

    /// Injects the interrupts of both VTLs. Returns that there is nothing left
    /// to scan.
    pub fn process_interrupts(&mut self, shared: &mut CcaBackedShared, first_scan_irr: &mut bool) -> (
    again: bool)
        requires
            old(shared).gic.wf(),
        ensures
            !again,
            !*final(first_scan_irr),
            final(shared).gic.wf(),
            ({
                let vp = old(self).vp_index.0;
                let (view1, lrs1, pending1) = polled(
                    old(shared).gic@,
                    vp,
                    GuestVtl::Vtl1,
                    old(self).entry().gicv3_lrs@,
                    old(self).backing.spec_gic(GuestVtl::Vtl1),
                );
                let (view0, lrs0, pending0) = polled(
                    view1,
                    vp,
                    GuestVtl::Vtl0,
                    lrs1,
                    old(self).backing.spec_gic(GuestVtl::Vtl0),
                );
                &&& final(shared).gic@ == view0
                &&& final(self).entry().gicv3_lrs@ == lrs0
                &&& final(self).backing.spec_gic(GuestVtl::Vtl1).pending == pending1
                &&& final(self).backing.spec_gic(GuestVtl::Vtl0).pending == pending0
                &&& *final(self) == old(self).with_interrupts(
                    GuestVtl::Vtl1,
                    final(self).entry().gicv3_lrs,
                    pending1,
                ).with_interrupts(GuestVtl::Vtl0, final(self).entry().gicv3_lrs, pending0)
            }),
    {
        self.poll_gic(shared, GuestVtl::Vtl1);
        self.poll_gic(shared, GuestVtl::Vtl0);
        *first_scan_irr = false;
        false
    }
}

/// Whether every shared interrupt that is in flight to `vp` is in a list
/// register.
pub open spec fn in_flight_listed(view: DistributorView, vp: u32, lrs: Seq<u64>) -> bool {
    forall|i: int|
        32 <= i < view.in_flight.len() && #[trigger] view.in_flight[i] == Some(vp)
            ==> list_registers::is_listed(lrs, i as u32)
}

/// Once the list registers were reconciled with the controller, and after each
/// injection, every shared interrupt that is in flight to the processor is in a
/// list register: none is ever lost between the two.
pub proof fn in_flight_interrupts_are_listed(
    view: DistributorView,
    vp: u32,
    priority_mask: u8,
    lrs: Seq<u64>,
)
    requires
        view.wf(),
    ensures
        ({
            let (after, after_lrs) = spis_polled(retired(view, vp, lrs), vp, priority_mask, lrs);
            &&& after.wf()
            &&& in_flight_listed(after, vp, after_lrs)
        }),
{
    lemma_spis_polled_listed(retired(view, vp, lrs), vp, priority_mask, lrs);
}

proof fn lemma_spis_polled_listed(
    view: DistributorView,
    vp: u32,
    priority_mask: u8,
    lrs: Seq<u64>,
)
    requires
        view.wf(),
        in_flight_listed(view, vp, lrs),
    ensures
        ({
            let (after, after_lrs) = spis_polled(view, vp, priority_mask, lrs);
            &&& after.wf()
            &&& in_flight_listed(after, vp, after_lrs)
        }),
    decreases idle(view.in_flight),
{
    if let Some(next) = next_spi(view, vp, priority_mask) {
        if next.intid < view.in_flight.len() && view.in_flight[next.intid as int] is None {
            if let Some(after) = list_registers::injected(lrs, next) {
                let handed = handed_over(view, vp, next.intid);
                lemma_idle_update(view.in_flight, next.intid as int, vp);
                assert(handed.in_flight =~= view.in_flight.update(next.intid as int, Some(vp)));
                list_registers::injected_is_listed(lrs, next);
                assert forall|i: int|
                    32 <= i < handed.in_flight.len() && #[trigger] handed.in_flight[i] == Some(
                        vp,
                    ) implies list_registers::is_listed(after, i as u32) by {
                    if i != next.intid {
                        assert(view.in_flight[i] == Some(vp));
                        list_registers::injection_keeps_listed_interrupts(lrs, next, i as u32);
                    }
                }
                lemma_spis_polled_listed(handed, vp, priority_mask, after);
            }
        }
    }
}

/// A private interrupt that was requested is still requested after polling, or
/// it is in a list register; and polling requests none by itself.
pub proof fn requests_are_kept_or_listed(
    view: DistributorView,
    vp: u32,
    priority_mask: u8,
    lrs: Seq<u64>,
    pending: u32,
    intid: u32,
)
    requires
        intid < 32,
    ensures
        ({
            let (after, left, _drained) = private_polled(view, vp, priority_mask, lrs, pending);
            &&& bits::bit(pending, intid) ==> bits::bit(left, intid) || list_registers::is_listed(
                after,
                intid,
            )
            &&& bits::bit(left, intid) ==> bits::bit(pending, intid)
            &&& list_registers::is_listed(lrs, intid) ==> list_registers::is_listed(after, intid)
        }),
    decreases pending,
{
    if let Some(next) = next_private(view, vp, pending, priority_mask) {
        if next.intid < 32 && bits::bit(pending, next.intid) {
            bits::lemma_clear_decreases(pending, next.intid);
            bits::lemma_bit_update(pending, next.intid, intid);
            if let Some(after) = list_registers::injected(lrs, next) {
                list_registers::injected_is_listed(lrs, next);
                if list_registers::is_listed(lrs, intid) {
                    list_registers::injection_keeps_listed_interrupts(lrs, next, intid);
                }
                requests_are_kept_or_listed(
                    view,
                    vp,
                    priority_mask,
                    after,
                    pending & !(1u32 << next.intid),
                    intid,
                );
            }
        }
    }
}

/// Polling ends when no shared interrupt is left to deliver, or when there is no
/// room for the next one.
pub proof fn spis_wait_only_for_room(
    view: DistributorView,
    vp: u32,
    priority_mask: u8,
    lrs: Seq<u64>,
)
    requires
        view.wf(),
    ensures
        ({
            let (after, after_lrs) = spis_polled(view, vp, priority_mask, lrs);
            match next_spi(after, vp, priority_mask) {
                Some(next) => list_registers::injected(after_lrs, next) is None,
                None => forall|intid: u32|
                    !(#[trigger] after.spi_deliverable(vp, priority_mask).contains(intid)),
            }
        }),
    decreases idle(view.in_flight),
{
    interrupt::lemma_first_exists(
        view.spi_deliverable(vp, priority_mask),
        |i: u32| view.priority_of(i),
    );
    if let Some(next) = next_spi(view, vp, priority_mask) {
        if next.intid < view.in_flight.len() && view.in_flight[next.intid as int] is None {
            if let Some(after) = list_registers::injected(lrs, next) {
                lemma_idle_update(view.in_flight, next.intid as int, vp);
                assert(handed_over(view, vp, next.intid).in_flight =~= view.in_flight.update(
                    next.intid as int,
                    Some(vp),
                ));
                spis_wait_only_for_room(
                    handed_over(view, vp, next.intid),
                    vp,
                    priority_mask,
                    after,
                );
            }
        }
    }
}

} // verus!
