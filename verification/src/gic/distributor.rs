//! The distributor, which owns the shared interrupts and finds out which
//! interrupt a virtual processor takes next.

use super::interrupt;
use super::interrupt::PendingInterrupt;
use super::redistributor::{Redistributor, RedistributorView, SharedState};
use super::registers;
use super::registers::{MpidrEl1, VpIndex, GIC_DISTRIBUTOR_SIZE, GIC_REDISTRIBUTOR_SIZE};
use super::state;
use super::state::DistributorView;
use crate::bits;
use crate::memory_range::{MemoryRange, PAGE_SIZE};
use vstd::prelude::*;

mod cpu;
mod mmio;

verus! {

/// The distributor of a GICv3, with the redistributors that it serves.
#[derive(Debug)]
pub struct Distributor {
    state: DistributorState,
    max_spi_intid: u32,
    gicr: Vec<SharedState>,
    gicd_range: MemoryRange,
    gicr_range: MemoryRange,
}

#[derive(Debug)]
struct DistributorState {
    /// Level-triggered SPI input lines currently asserted by devices.
    asserted: Vec<u32>,
    pending: Vec<u32>,
    /// SPIs currently represented in a list register, indexed by INTID.
    in_flight: Vec<Option<u32>>,
    active: Vec<u32>,
    group: Vec<u32>,
    enable: Vec<u32>,
    cfg: Vec<u32>,
    priority: Vec<u32>,
    route: Vec<u64>,
    enable_grp0: bool,
    enable_grp1: bool,
}

impl View for Distributor {
    type V = DistributorView;

    closed spec fn view(&self) -> DistributorView {
        DistributorView {
            asserted: self.state.asserted@,
            pending: self.state.pending@,
            in_flight: self.state.in_flight@,
            active: self.state.active@,
            group: self.state.group@,
            enable: self.state.enable@,
            cfg: self.state.cfg@,
            priority: self.state.priority@,
            route: self.state.route@,
            enable_grp0: self.state.enable_grp0,
            enable_grp1: self.state.enable_grp1,
            max_spi_intid: self.max_spi_intid,
            redistributors: Seq::new(self.gicr@.len(), |i: int| self.gicr@[i]@),
            gicd_range: self.gicd_range,
            gicr_range: self.gicr_range,
        }
    }
}

/// The word at `i`, and zero behind the end.
fn get_word(words: &Vec<u32>, i: usize) -> (word: u32)
    ensures
        word == state::word_or_zero(words@, i as int),
{
    if i < words.len() {
        words[i]
    } else {
        0
    }
}

/// Stores a word, unless `i` is below `first` or behind the end.
fn set_word(words: &mut Vec<u32>, first: usize, i: usize, value: u32)
    ensures
        final(words)@ == state::with_word(old(words)@, first as int, i as int, value),
{
    if first <= i && i < words.len() {
        words[i] = value;
    }
}

/// Sets or clears the bit of `intid`. Returns whether it changed.
fn set_bit(words: &mut Vec<u32>, intid: u32, value: bool) -> (changed: bool)
    ensures
        final(words)@ == state::with_bit(old(words)@, intid, value),
        changed == (intid / 32 < old(words)@.len() && state::is_set(old(words)@, intid) != value),
{
    let i: usize = (intid / 32) as usize;
    if i >= words.len() {
        return false;
    }
    let mask: u32 = 1u32 << (intid % 32);
    let word: u32 = words[i];
    let changed = (word & mask != 0) != value;
    if value {
        words[i] = word | mask;
    } else {
        words[i] = word & !mask;
    }
    changed
}

impl Distributor {
    /// A distributor out of reset.
    pub fn new(gicd_base: u64, gicr_range: MemoryRange, interrupt_count: u32) -> (distributor:
        Distributor)
        requires
            gicd_base % PAGE_SIZE == 0,
            gicd_base + GIC_DISTRIBUTOR_SIZE <= u64::MAX,
            gicr_range.wf(),
            (interrupt_count + 31) / 32 * 64 <= usize::MAX,
        ensures
            distributor@.wf(),
            distributor@ == DistributorView::reset(
                distributor@.gicd_range,
                gicr_range,
                interrupt_count,
            ),
            distributor@.gicd_range.spec_start() == gicd_base,
            distributor@.gicd_range.spec_end() == gicd_base + GIC_DISTRIBUTOR_SIZE,
    {
        let n: usize = if interrupt_count % 32 == 0 {
            (interrupt_count / 32) as usize
        } else {
            (interrupt_count / 32) as usize + 1
        };
        let distributor = Distributor {
            state: DistributorState {
                asserted: vec![0u32; n],
                pending: vec![0u32; n],
                in_flight: vec![None; n * 32],
                active: vec![0u32; n],
                group: vec![0u32; n],
                enable: vec![0u32; n],
                cfg: vec![0u32; n * 2],
                priority: vec![0u32; n * 8],
                route: vec![0u64; n * 64],
                enable_grp0: false,
                enable_grp1: false,
            },
            max_spi_intid: interrupt_count.saturating_sub(1),
            gicr: Vec::new(),
            gicd_range: MemoryRange::new(gicd_base, gicd_base + GIC_DISTRIBUTOR_SIZE),
            gicr_range,
        };
        proof {
            assert(distributor@ =~= DistributorView::reset(
                distributor@.gicd_range,
                gicr_range,
                interrupt_count,
            ));
        }
        distributor
    }

    /// Adds the redistributor of the next virtual processor, which must have
    /// room in the redistributor range.
    pub fn add_redistributor(&mut self, mpidr: u64, last: bool) -> (gicr: Redistributor)
        requires
            old(self)@.wf(),
            (old(self)@.redistributors.len() + 1) * GIC_REDISTRIBUTOR_SIZE <= old(
                self,
            )@.gicr_range.spec_end() - old(self)@.gicr_range.spec_start(),
            old(self)@.redistributors.len() < usize::MAX,
        ensures
            final(self)@.wf(),
            final(self)@ == (DistributorView {
                redistributors: old(self)@.redistributors.push(
                    RedistributorView::reset(MpidrEl1::decode(mpidr), last),
                ),
                ..old(self)@
            }),
            gicr.spec_index() == old(self)@.redistributors.len(),
    {
        let ghost before = self@;
        let gicr = Redistributor::new(self.gicr.len());
        self.gicr.push(SharedState::new(MpidrEl1::from_bits(mpidr), last));
        proof {
            assert(self@.redistributors =~= before.redistributors.push(
                RedistributorView::reset(MpidrEl1::decode(mpidr), last),
            ));
        }
        gicr
    }

    /// Makes a private interrupt of `vp` pending. Returns whether it was not
    /// already; a processor that is not there takes no interrupt.
    pub fn raise_ppi(&mut self, vp: VpIndex, intid: u32) -> (newly_pending: bool)
        requires
            old(self)@.wf(),
            vp.0 < old(self)@.redistributors.len() ==> intid < 32,
        ensures
            final(self)@.wf(),
            vp.0 < old(self)@.redistributors.len() ==> {
                &&& final(self)@ == old(self)@.with_redistributor(
                    vp.0 as int,
                    old(self)@.redistributors[vp.0 as int].raised(intid),
                )
                &&& newly_pending == !bits::bit(
                    old(self)@.redistributors[vp.0 as int].pending,
                    intid,
                )
            },
            vp.0 >= old(self)@.redistributors.len() ==> final(self)@ == old(self)@
                && !newly_pending,
    {
        let ghost before = self@;
        let i: usize = vp.index() as usize;
        if i < self.gicr.len() {
            let newly_pending = self.gicr[i].raise(intid);
            proof {
                assert(self@.redistributors =~= before.redistributors.update(
                    i as int,
                    before.redistributors[i as int].raised(intid),
                ));
            }
            newly_pending
        } else {
            false
        }
    }

    /// Drives the line of a shared interrupt. Returns the processors to wake.
    pub fn set_spi_irq(&mut self, intid: u32, high: bool) -> (woken: Vec<VpIndex>)
        requires
            old(self)@.wf(),
        ensures
            final(self)@.wf(),
            final(self)@ == old(self)@.with_line(intid, high),
            woken@ == old(self)@.woken_by_line(intid, high),
    {
        if intid < 32 || intid > self.max_spi_intid {
            return Vec::new();
        }
        let ghost before = self@;
        let changed = set_bit(&mut self.state.asserted, intid, high);
        if changed && high && self.edge_triggered(intid) {
            self.set_pending_locked(intid, true);
        }
        if !changed || !high {
            return Vec::new();
        }
        proof {
            assert(self@.route == before.route);
            assert(self@.redistributors =~= before.redistributors);
            assert(self@.vps() =~= before.vps());
            assert((|vp: VpIndex| self@.targets(intid, vp.0)) =~= (|vp: VpIndex|
                before.targets(intid, vp.0)));
        }
        self.target_vps_for_spi(intid)
    }

    /// Notes that a shared interrupt was put into a list register of `vp`.
    pub fn mark_spi_injected(&mut self, vp: VpIndex, intid: u32)
        requires
            old(self)@.wf(),
        ensures
            final(self)@.wf(),
            final(self)@ == old(self)@.injected(vp.0, intid),
    {
        if intid < 32 || intid > self.max_spi_intid {
            return ;
        }
        self.set_pending_locked(intid, false);
        self.state.in_flight[intid as usize] = Some(vp.index());
    }

    /// Asks `is_in_flight` about every shared interrupt in flight to `vp`, and
    /// retires those that it denies.
    pub fn retain_in_flight_spis<F: Fn(u32) -> bool>(&mut self, vp: VpIndex, is_in_flight: F)
        requires
            old(self)@.wf(),
            forall|intid: u32|
                32 <= intid < old(self)@.in_flight.len() && old(self)@.in_flight[intid as int]
                    == Some(vp.0) ==> #[trigger] is_in_flight.requires((intid,)),
        ensures
            final(self)@.wf(),
            final(self)@ == (DistributorView { in_flight: final(self)@.in_flight, ..old(self)@ }),
            final(self)@.in_flight.len() == old(self)@.in_flight.len(),
            forall|i: int|
                #![trigger final(self)@.in_flight[i]]
                0 <= i < old(self)@.in_flight.len() ==> {
                    let asked = i >= 32 && old(self)@.in_flight[i] == Some(vp.0);
                    if asked && final(self)@.in_flight[i] is None {
                        is_in_flight.ensures((i as u32,), false)
                    } else {
                        &&& final(self)@.in_flight[i] == old(self)@.in_flight[i]
                        &&& asked ==> is_in_flight.ensures((i as u32,), true)
                    }
                },
    {
        let ghost before = self@;
        let mut intid: usize = 32;
        while intid < self.state.in_flight.len()
            invariant
                32 <= intid,
                before.wf(),
                self@ == (DistributorView { in_flight: self@.in_flight, ..before }),
                self@.in_flight.len() == before.in_flight.len(),
                forall|i: u32|
                    32 <= i < before.in_flight.len() && before.in_flight[i as int] == Some(vp.0)
                        ==> #[trigger] is_in_flight.requires((i,)),
                forall|i: int|
                    intid <= i < before.in_flight.len() ==> self@.in_flight[i]
                        == before.in_flight[i],
                forall|i: int|
                    #![trigger self@.in_flight[i]]
                    0 <= i < intid && i < before.in_flight.len() ==> {
                        let asked = i >= 32 && before.in_flight[i] == Some(vp.0);
                        if asked && self@.in_flight[i] is None {
                            is_in_flight.ensures((i as u32,), false)
                        } else {
                            &&& self@.in_flight[i] == before.in_flight[i]
                            &&& asked ==> is_in_flight.ensures((i as u32,), true)
                        }
                    },
            decreases self@.in_flight.len() - intid,
        {
            let ghost previous = self@.in_flight;
            let target: Option<u32> = self.state.in_flight[intid];
            if let Some(target_vp) = target {
                if target_vp == vp.index() {
                    proof {
                        assert(is_in_flight.requires((intid as u32,)));
                    }
                    if !is_in_flight(intid as u32) {
                        self.state.in_flight[intid] = None;
                        proof {
                            assert(self@.in_flight =~= previous.update(intid as int, None));
                        }
                    }
                }
            }
            intid = intid + 1;
        }
    }

    /// The first interrupt, private or shared, to deliver to `vp` below
    /// `running_priority`.
    pub fn next_pending_interrupt(&self, vp: VpIndex, running_priority: u8) -> (next: Option<
        PendingInterrupt,
    >)
        requires
            self@.wf(),
        ensures
            interrupt::is_first(
                self@.deliverable(vp.0, running_priority),
                |i: u32| self@.priority_at(vp.0, i),
                next,
            ),
    {
        let private = self.next_private_interrupt(vp, running_priority);
        let spi = self.next_spi_interrupt(vp, running_priority);
        proof {
            let ghost_pending = self@.redistributors[vp.0 as int].pending;
            let private_set = self@.private_deliverable(vp.0, ghost_pending, running_priority);
            let spi_set = self@.spi_deliverable(vp.0, running_priority);
            let all = self@.deliverable(vp.0, running_priority);
            assert(forall|i: u32| #[trigger]
                all.contains(i) <==> private_set.contains(i) || spi_set.contains(i));
            assert(forall|i: u32| #[trigger] private_set.contains(i) ==> i < 32);
            assert(forall|i: u32| #[trigger] spi_set.contains(i) ==> i >= 32);
            if let Some(a) = private {
                assert(private_set.contains(a.intid));
            }
            if let Some(b) = spi {
                assert(spi_set.contains(b.intid));
            }
        }
        match (private, spi) {
            (Some(a), Some(b)) => if interrupt::interrupt_precedes(a, b) {
                Some(a)
            } else {
                Some(b)
            },
            (Some(a), None) => Some(a),
            (None, Some(b)) => Some(b),
            (None, None) => None,
        }
    }

    /// The first private interrupt among `pending` to deliver to `vp` below
    /// `running_priority`.
    pub fn next_pending_private_interrupt(
        &self,
        vp: VpIndex,
        pending: u32,
        running_priority: u8,
    ) -> (next: Option<PendingInterrupt>)
        requires
            self@.wf(),
        ensures
            interrupt::is_first(
                self@.private_deliverable(vp.0, pending, running_priority),
                |i: u32| self@.redistributors[vp.0 as int].priority_of(i),
                next,
            ),
    {
        let i: usize = vp.index() as usize;
        if !self.state.enable_grp1 || i >= self.gicr.len() {
            return None;
        }
        let next = self.gicr[i].select_private_interrupt(pending, running_priority);
        proof {
            assert((|k: u32| self@.redistributors[vp.0 as int].priority_of(k)) =~= (|k: u32|
                self.gicr@[i as int]@.priority_of(k)));
        }
        next
    }

    /// The first shared interrupt to deliver to `vp` below `running_priority`.
    pub fn next_pending_spi_interrupt(&self, vp: VpIndex, running_priority: u8) -> (next: Option<
        PendingInterrupt,
    >)
        requires
            self@.wf(),
        ensures
            interrupt::is_first(
                self@.spi_deliverable(vp.0, running_priority),
                |i: u32| self@.priority_of(i),
                next,
            ),
    {
        self.next_spi_interrupt(vp, running_priority)
    }

    /// Sets the first shared interrupt to deliver to `vp` aside for it, so that
    /// no other processor gets it.
    pub fn reserve_pending_spi_interrupt(&mut self, vp: VpIndex, running_priority: u8) -> (next:
        Option<PendingInterrupt>)
        requires
            old(self)@.wf(),
        ensures
            final(self)@.wf(),
            interrupt::is_first(
                old(self)@.spi_deliverable(vp.0, running_priority),
                |i: u32| old(self)@.priority_of(i),
                next,
            ),
            final(self)@ == (match next {
                Some(interrupt) => old(self)@.reserved(vp.0, interrupt.intid),
                None => old(self)@,
            }),
    {
        let next = self.next_spi_interrupt(vp, running_priority);
        if let Some(interrupt) = next {
            self.state.in_flight[interrupt.intid as usize] = Some(vp.index());
        }
        next
    }

    /// Gives back an interrupt that was set aside for `vp`.
    pub fn cancel_spi_reservation(&mut self, vp: VpIndex, intid: u32)
        requires
            old(self)@.wf(),
        ensures
            final(self)@.wf(),
            final(self)@ == old(self)@.reservation_cancelled(vp.0, intid),
    {
        if intid < 32 || intid > self.max_spi_intid {
            return ;
        }
        let target: Option<u32> = self.state.in_flight[intid as usize];
        if let Some(target_vp) = target {
            if target_vp == vp.index() {
                self.state.in_flight[intid as usize] = None;
            }
        }
    }

    fn next_private_interrupt(&self, vp: VpIndex, running_priority: u8) -> (next: Option<
        PendingInterrupt,
    >)
        requires
            self@.wf(),
        ensures
            interrupt::is_first(
                self@.private_deliverable(
                    vp.0,
                    self@.redistributors[vp.0 as int].pending,
                    running_priority,
                ),
                |i: u32| self@.redistributors[vp.0 as int].priority_of(i),
                next,
            ),
    {
        let i: usize = vp.index() as usize;
        if !self.state.enable_grp1 || i >= self.gicr.len() {
            return None;
        }
        let next = self.gicr[i].next_private_interrupt(running_priority);
        proof {
            assert((|k: u32| self@.redistributors[vp.0 as int].priority_of(k)) =~= (|k: u32|
                self.gicr@[i as int]@.priority_of(k)));
        }
        next
    }

    fn next_spi_interrupt(&self, vp: VpIndex, running_priority: u8) -> (next: Option<
        PendingInterrupt,
    >)
        requires
            self@.wf(),
        ensures
            interrupt::is_first(
                self@.spi_deliverable(vp.0, running_priority),
                |i: u32| self@.priority_of(i),
                next,
            ),
    {
        let ghost all = self@.spi_deliverable(vp.0, running_priority);
        let ghost priority_fn = |i: u32| self@.priority_of(i);
        let ghost mut seen = Set::<u32>::empty();
        if !self.state.enable_grp1 {
            return None;
        }
        let mut best: Option<PendingInterrupt> = None;
        let mut word: usize = 1;
        while word < self.state.pending.len()
            invariant
                self@.wf(),
                self@.enable_grp1,
                1 <= word,
                all == self@.spi_deliverable(vp.0, running_priority),
                priority_fn == (|i: u32| self@.priority_of(i)),
                forall|i: u32| #[trigger] seen.contains(i) <==> all.contains(i) && i / 32 < word,
                interrupt::is_first(seen, priority_fn, best),
            decreases self@.pending.len() - word,
        {
            let requested: u32 = self.state.pending[word] | self.state.asserted[word];
            let mut candidates: u32 = requested & self.state.enable[word]
                & !self.state.active[word] & self.state.group[word];
            proof {
                assert forall|i: u32| #[trigger] all.contains(i) && i / 32 == word implies bits::bit(
                    candidates,
                    i % 32,
                ) by {
                    let b: u32 = i % 32;
                    let (enable, active, group) = (
                        self.state.enable@[word as int],
                        self.state.active@[word as int],
                        self.state.group@[word as int],
                    );
                    bits::lemma_bit_ops(
                        self.state.pending@[word as int],
                        self.state.asserted@[word as int],
                        b,
                    );
                    bits::lemma_bit_ops(requested, enable, b);
                    bits::lemma_bit_ops(requested & enable, active, b);
                    bits::lemma_bit_ops(requested & enable & !active, group, b);
                }
                assert forall|b: u32| b < 32 && #[trigger] bits::bit(candidates, b) implies {
                    &&& bits::bit(self.state.enable@[word as int], b)
                    &&& !bits::bit(self.state.active@[word as int], b)
                    &&& bits::bit(self.state.group@[word as int], b)
                } by {
                    let (enable, active, group) = (
                        self.state.enable@[word as int],
                        self.state.active@[word as int],
                        self.state.group@[word as int],
                    );
                    bits::lemma_bit_ops(requested, enable, b);
                    bits::lemma_bit_ops(requested & enable, active, b);
                    bits::lemma_bit_ops(requested & enable & !active, group, b);
                }
            }
            while candidates != 0
                invariant
                    self@.wf(),
                    self@.enable_grp1,
                    1 <= word < self@.pending.len(),
                    all == self@.spi_deliverable(vp.0, running_priority),
                    priority_fn == (|i: u32| self@.priority_of(i)),
                    forall|b: u32|
                        b < 32 && #[trigger] bits::bit(candidates, b) ==> {
                            &&& bits::bit(self.state.enable@[word as int], b)
                            &&& !bits::bit(self.state.active@[word as int], b)
                            &&& bits::bit(self.state.group@[word as int], b)
                        },
                    forall|i: u32| #[trigger]
                        seen.contains(i) <==> all.contains(i) && (i / 32 < word || (i / 32 == word
                            && !bits::bit(candidates, i % 32))),
                    interrupt::is_first(seen, priority_fn, best),
                decreases candidates,
            {
                let ghost remaining = candidates;
                let bit: u32 = candidates.trailing_zeros();
                proof {
                    bits::lemma_clear_lowest(candidates, 0);
                    assert forall|b: u32| b < 32 implies #[trigger] bits::bit(
                        candidates & (candidates - 1) as u32,
                        b,
                    ) == (bits::bit(candidates, b) && b != bit) by {
                        bits::lemma_clear_lowest(candidates, b);
                    }
                }
                candidates = candidates & (candidates - 1);
                let intid: u32 = word as u32 * 32 + bit;
                let deliverable = self.spi_is_deliverable(intid, vp, running_priority);
                proof {
                    assert(intid / 32 == word && intid % 32 == bit);
                    assert(all.contains(intid) == deliverable);
                }
                if deliverable {
                    let priority: u8 = self.priority(intid);
                    let interrupt = PendingInterrupt { intid, priority, group1: true };
                    let ghost before = best;
                    best = interrupt::keep_first(best, interrupt);
                    proof {
                        let after = seen.insert(intid);
                        interrupt::lemma_keep_first(
                            seen,
                            after,
                            priority_fn,
                            before,
                            interrupt,
                            best,
                        );
                        seen = after;
                    }
                }
                proof {
                    assert forall|i: u32| #[trigger]
                        seen.contains(i) <==> all.contains(i) && (i / 32 < word || (i / 32 == word
                            && !bits::bit(candidates, i % 32))) by {
                        if i / 32 == word {
                            assert(bits::bit(candidates, i % 32) == (bits::bit(remaining, i % 32)
                                && i % 32 != bit));
                            assert(i % 32 == bit ==> i == intid);
                        }
                    }
                }
            }
            proof {
                assert forall|b: u32| b < 32 implies !#[trigger] bits::bit(0, b) by {
                    bits::lemma_bit_ops(0, 0, b);
                }
            }
            word = word + 1;
        }
        proof {
            assert forall|i: u32| all.contains(i) implies i / 32 < word by {}
            assert(seen =~= all);
        }
        best
    }

    /// Whether a shared interrupt that is enabled, in group 1 and not active
    /// may be delivered to `vp`.
    fn spi_is_deliverable(&self, intid: u32, vp: VpIndex, running_priority: u8) -> (r: bool)
        requires
            self@.wf(),
            intid / 32 < self@.pending.len(),
            intid >= 32,
        ensures
            r == ({
                &&& self@.valid_spi(intid)
                &&& self@.requested(intid)
                &&& self@.in_flight[intid as int] is None
                &&& self@.targets(intid, vp.0)
                &&& self@.priority_of(intid) < running_priority
            }),
    {
        let i: usize = (intid / 32) as usize;
        let mask: u32 = 1u32 << (intid % 32);
        let pending = self.state.pending[i] & mask != 0;
        let level_asserted = self.state.asserted[i] & mask != 0 && !self.edge_triggered(intid);
        if !pending && !level_asserted {
            return false;
        }
        if intid > self.max_spi_intid || self.state.in_flight[intid as usize].is_some()
            || !self.spi_targets_vp(intid, vp) {
            return false;
        }
        self.priority(intid) < running_priority
    }

    /// Sets or clears a pending latch. Returns whether it changed.
    fn set_pending_locked(&mut self, intid: u32, pending: bool) -> (changed: bool)
        ensures
            final(self)@ == old(self)@.with_pending(intid, pending),
            changed == (intid / 32 < old(self)@.pending.len() && state::is_set(
                old(self)@.pending,
                intid,
            ) != pending),
    {
        set_bit(&mut self.state.pending, intid, pending)
    }

    /// Returns whether `intid` is configured as edge-triggered in GICD_ICFGR.
    /// Each INTID uses two bits: bit 1 selects edge (1) or level (0), while
    /// bit 0 is RES0, so that each word describes 16 interrupts.
    fn edge_triggered(&self, intid: u32) -> (edge: bool)
        ensures
            edge == self@.edge_triggered(intid),
    {
        let word: u32 = get_word(&self.state.cfg, (intid / 16) as usize);
        let shift: u32 = (intid % 16) * 2 + 1;
        word & (1u32 << shift) != 0
    }

    fn priority(&self, intid: u32) -> (priority: u8)
        ensures
            priority == self@.priority_of(intid),
    {
        registers::read_priority_byte(
            get_word(&self.state.priority, (intid / 4) as usize),
            intid,
        )
    }

    fn target_vps_for_spi(&self, intid: u32) -> (vps: Vec<VpIndex>)
        ensures
            vps@ == self@.target_vps(intid),
    {
        let ghost all = self@.vps();
        let ghost pred = |vp: VpIndex| self@.targets(intid, vp.0);
        let mut vps: Vec<VpIndex> = Vec::new();
        let mut i: usize = 0;
        proof {
            assert(all.take(0).filter(pred) =~= Seq::empty()) by {
                reveal(Seq::filter);
            }
        }
        while i < self.gicr.len()
            invariant
                i <= self.gicr@.len(),
                all == self@.vps(),
                pred == (|vp: VpIndex| self@.targets(intid, vp.0)),
                vps@ == all.take(i as int).filter(pred),
            decreases self.gicr@.len() - i,
        {
            let vp = VpIndex::new(i as u32);
            proof {
                assert(all.take(i + 1).drop_last() =~= all.take(i as int));
                assert(all.take(i + 1).last() == vp);
                reveal(Seq::filter);
            }
            if self.spi_targets_vp(intid, vp) {
                vps.push(vp);
            }
            i = i + 1;
        }
        proof {
            assert(all.take(i as int) =~= all);
        }
        vps
    }

    fn spi_targets_vp(&self, intid: u32, vp: VpIndex) -> (targets: bool)
        ensures
            targets == self@.targets(intid, vp.0),
    {
        let i: usize = vp.index() as usize;
        if i >= self.gicr.len() {
            return false;
        }
        let route: u64 = if (intid as usize) < self.state.route.len() {
            self.state.route[intid as usize]
        } else {
            0
        };
        if route / 0x8000_0000 % 2 == 1 {
            return true;
        }
        self.gicr[i].mpidr() == MpidrEl1::from_bits(route)
    }

    /// Sets or clears the pending latch of an interrupt. A latch that became
    /// set asks to wake processor 0.
    pub fn set_pending(&mut self, intid: u32, pending: bool) -> (wake: Option<u32>)
        requires
            old(self)@.wf(),
        ensures
            final(self)@.wf(),
            final(self)@ == old(self)@.with_pending(intid, pending),
            wake == (if pending && intid / 32 < old(self)@.pending.len() && !state::is_set(
                old(self)@.pending,
                intid,
            ) {
                Some(0u32)
            } else {
                None
            }),
    {
        if self.set_pending_locked(intid, pending) && pending {
            Some(0)
        } else {
            None
        }
    }
}

} // verus!
