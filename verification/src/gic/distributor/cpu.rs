//! What a virtual processor asks of the GIC: to acknowledge and to end
//! interrupts, and to send them to other processors.

use super::Distributor;
use crate::bits;
use crate::gic::redistributor::Redistributor;
use crate::gic::registers::{GicrSgi, INTID_NONE};
use crate::gic::state;
use crate::gic::state::DistributorView;
use crate::sysreg::{
    SystemReg, ICC_EOIR0_EL1, ICC_EOIR1_EL1, ICC_IAR0_EL1, ICC_IAR1_EL1, ICC_SGI0R_EL1,
    ICC_SGI1R_EL1,
};
use vstd::prelude::*;

verus! {

impl DistributorView {
    /// Whether processor `index` has an interrupt to take. The latched shared
    /// interrupts count for processor 0 alone.
    pub open spec fn irq_pending(self, index: int) -> bool {
        let gicr = self.redistributors[index];
        ||| gicr.pending & !gicr.active & gicr.enable & gicr.group != 0
        ||| index == 0 && exists|i: int| self.signalled(i)
    }

    /// What processor `index` gets when it acknowledges an interrupt, and the
    /// state after it: the highest of its private interrupts, or else, on
    /// processor 0, the highest of the first word of shared interrupts in which
    /// one waits.
    pub open spec fn acks(self, index: int, intid: u32, after: DistributorView) -> bool {
        let gicr = self.redistributors[index];
        if gicr.pending != 0 {
            &&& bits::is_highest_bit(gicr.pending & !gicr.active, intid)
            &&& after == self.with_redistributor(index, gicr.acknowledged(intid))
        } else if index == 0 && exists|i: int| self.waiting(i) {
            let i = (intid / 32) as int;
            &&& self.waiting(i)
            &&& forall|j: int| 0 <= j < i ==> !self.waiting(j)
            &&& bits::is_highest_bit(self.pending[i] & !self.active[i], intid % 32)
            &&& after == self.acknowledged(intid)
        } else {
            &&& intid == INTID_NONE
            &&& after == self
        }
    }

    /// The state after processor `index` ends an interrupt.
    pub open spec fn ended_by(self, index: int, intid: u32) -> DistributorView {
        if intid < 32 {
            self.with_redistributor(index, self.redistributors[index].ended(intid))
        } else if index == 0 {
            self.ended(intid)
        } else {
            self
        }
    }

    /// Whether processor `index` can end an interrupt: a shared one must be one
    /// that the distributor has.
    pub open spec fn can_end(self, index: int, intid: u32) -> bool {
        intid < 32 || index != 0 || intid / 32 < self.active.len()
    }

    /// Whether every processor in the clusters that an SGI addresses can be
    /// named by its target list.
    pub open spec fn can_send(self, sgi: GicrSgi) -> bool {
        sgi.irm || forall|i: int|
            0 <= i < self.redistributors.len() && #[trigger] self.sgi_addresses(sgi, i)
                ==> self.redistributors[i].mpidr.aff0 < 16
    }
}

impl Distributor {
    pub fn irq_pending(&self, gicr: &Redistributor) -> (pending: bool)
        requires
            self@.wf(),
            gicr.spec_index() < self@.redistributors.len(),
        ensures
            pending == self@.irq_pending(gicr.spec_index() as int),
    {
        if self.gicr[gicr.index()].irq_pending() {
            return true;
        }
        if gicr.index() != 0 {
            return false;
        }
        let mut i: usize = 0;
        while i < self.state.pending.len()
            invariant
                self@.wf(),
                gicr.spec_index() == 0,
                i <= self@.pending.len(),
                forall|j: int| 0 <= j < i ==> !#[trigger] self@.signalled(j),
            decreases self@.pending.len() - i,
        {
            if self.state.pending[i] & !self.state.active[i] & self.state.enable[i] != 0 {
                proof {
                    assert(self@.signalled(i as int));
                }
                return true;
            }
            i = i + 1;
        }
        false
    }

    /// Acknowledges an interrupt for the processor of `gicr`.
    pub fn ack(&mut self, gicr: &mut Redistributor, _group1: bool) -> (intid: u32)
        requires
            old(self)@.wf(),
            old(gicr).spec_index() < old(self)@.redistributors.len(),
            ({
                let state = old(self)@.redistributors[old(gicr).spec_index() as int];
                state.pending == 0 || state.pending & !state.active != 0
            }),
        ensures
            final(self)@.wf(),
            *final(gicr) == *old(gicr),
            old(self)@.acks(old(gicr).spec_index() as int, intid, final(self)@),
    {
        let ghost before = self@;
        let index: usize = gicr.index();
        let private = self.gicr[index].ack();
        proof {
            self.gicr@[index as int].lemma_wf();
            let after = before.redistributors.update(index as int, self.gicr@[index as int]@);
            assert(self@.redistributors =~= after);
        }
        if let Some(intid) = private {
            return intid;
        }
        proof {
            assert(self@.redistributors =~= before.redistributors);
        }
        if index != 0 {
            return INTID_NONE;
        }
        let mut i: usize = 0;
        while i < self.state.pending.len()
            invariant
                self@ == before,
                before.wf(),
                i <= before.pending.len(),
                before.redistributors[0].pending == 0,
                old(self)@ == before,
                old(gicr).spec_index() == 0,
                0 < before.redistributors.len(),
                forall|j: int| 0 <= j < i ==> !#[trigger] before.waiting(j),
            decreases before.pending.len() - i,
        {
            let waiting: u32 = self.state.pending[i] & !self.state.active[i];
            if waiting != 0 {
                let v: u32 = bits::highest_bit(waiting);
                let pending: u32 = self.state.pending[i];
                let active: u32 = self.state.active[i];
                self.state.pending[i] = pending & !(1u32 << v);
                self.state.active[i] = active | (1u32 << v);
                let intid: u32 = i as u32 * 32 + v;
                proof {
                    assert(before.waiting(i as int));
                    assert(intid / 32 == i && intid % 32 == v);
                    assert(self@.redistributors =~= before.redistributors);
                    assert(self@ =~= before.acknowledged(intid));
                }
                return intid;
            }
            i = i + 1;
        }
        INTID_NONE
    }

    /// Writes one of the interrupt controller's system registers. Returns the
    /// redistributors to wake, or `None` for a register that is not one of
    /// them.
    pub fn write_sysreg(&mut self, gicr: &mut Redistributor, reg: SystemReg, value: u64) -> (woken:
        Option<Vec<usize>>)
        requires
            old(self)@.wf(),
            old(gicr).spec_index() < old(self)@.redistributors.len(),
            reg.0 == ICC_EOIR0_EL1 || reg.0 == ICC_EOIR1_EL1 ==> old(self)@.can_end(
                old(gicr).spec_index() as int,
                value as u32,
            ),
            reg.0 == ICC_SGI0R_EL1 || reg.0 == ICC_SGI1R_EL1 ==> old(self)@.can_send(
                GicrSgi::decode(value),
            ),
        ensures
            final(self)@.wf(),
            *final(gicr) == *old(gicr),
            ({
                let index = old(gicr).spec_index() as int;
                if reg.0 == ICC_EOIR0_EL1 || reg.0 == ICC_EOIR1_EL1 {
                    &&& woken is Some
                    &&& woken->0@ == Seq::<usize>::empty()
                    &&& final(self)@ == old(self)@.ended_by(index, value as u32)
                } else if reg.0 == ICC_SGI0R_EL1 || reg.0 == ICC_SGI1R_EL1 {
                    &&& woken is Some
                    &&& woken->0@ == old(self)@.woken_by_sgi(index, GicrSgi::decode(value))
                    &&& final(self)@ == old(self)@.with_sgi(index, GicrSgi::decode(value))
                } else {
                    &&& woken is None
                    &&& final(self)@ == old(self)@
                }
            }),
    {
        if reg.0 == ICC_EOIR0_EL1 {
            self.eoi(gicr, false, value as u32);
            Some(Vec::new())
        } else if reg.0 == ICC_EOIR1_EL1 {
            self.eoi(gicr, true, value as u32);
            Some(Vec::new())
        } else if reg.0 == ICC_SGI0R_EL1 {
            Some(self.sgi(gicr, false, value))
        } else if reg.0 == ICC_SGI1R_EL1 {
            Some(self.sgi(gicr, true, value))
        } else {
            None
        }
    }

    /// Sends a software-generated interrupt. Returns the redistributors at
    /// which it became pending.
    fn sgi(&mut self, this: &Redistributor, _group1: bool, value: u64) -> (woken: Vec<usize>)
        requires
            old(self)@.wf(),
            old(self)@.can_send(GicrSgi::decode(value)),
        ensures
            final(self)@.wf(),
            final(self)@ == old(self)@.with_sgi(this.spec_index() as int, GicrSgi::decode(value)),
            woken@ == old(self)@.woken_by_sgi(this.spec_index() as int, GicrSgi::decode(value)),
    {
        let ghost before = self@;
        let ghost sender = this.spec_index() as int;
        let sgi = GicrSgi::from_bits(value);
        let ghost all = Seq::new(before.redistributors.len(), |i: int| i as usize);
        let ghost pred = |i: usize| before.sgi_wakes(sender, sgi, i as int);
        let ghost after = before.with_sgi(sender, sgi);
        let mut woken: Vec<usize> = Vec::new();
        let mut index: usize = 0;
        proof {
            assert(all.take(0).filter(pred) =~= Seq::empty()) by {
                reveal(Seq::filter);
            }
        }
        while index < self.gicr.len()
            invariant
                before.wf(),
                before.can_send(sgi),
                sgi.intid < 16,
                sender == this.spec_index(),
                index <= self.gicr@.len(),
                self.gicr@.len() == before.redistributors.len(),
                all == Seq::new(before.redistributors.len(), |i: int| i as usize),
                pred == (|i: usize| before.sgi_wakes(sender, sgi, i as int)),
                after == before.with_sgi(sender, sgi),
                self@ == (DistributorView { redistributors: self@.redistributors, ..before }),
                forall|i: int|
                    0 <= i < index ==> #[trigger] self@.redistributors[i]
                        == after.redistributors[i],
                forall|i: int|
                    index <= i < before.redistributors.len() ==> #[trigger] self@.redistributors[i]
                        == before.redistributors[i],
                woken@ == all.take(index as int).filter(pred),
            decreases self.gicr@.len() - index,
        {
            let ghost previous = self@;
            let mpidr = self.gicr[index].mpidr();
            proof {
                assert(self@.redistributors[index as int] == self.gicr@[index as int]@);
                assert(all.take(index + 1).drop_last() =~= all.take(index as int));
                assert(all.take(index + 1).last() == index);
                reveal(Seq::filter);
            }
            let reaches = if sgi.irm {
                index != this.index()
            } else if mpidr.aff3 == sgi.aff3 && mpidr.aff2 == sgi.aff2 && mpidr.aff1 == sgi.aff1 {
                proof {
                    assert(before.sgi_addresses(sgi, index as int));
                }
                sgi.target_list & (1u16 << (mpidr.aff0 as u16)) != 0
            } else {
                false
            };
            proof {
                assert(reaches == before.sgi_reaches(sender, sgi, index as int));
            }
            if reaches {
                if self.gicr[index].raise(sgi.intid as u32) {
                    woken.push(index);
                }
                proof {
                    assert(self@.redistributors =~= previous.redistributors.update(
                        index as int,
                        previous.redistributors[index as int].raised(sgi.intid as u32),
                    ));
                }
            }
            index = index + 1;
        }
        proof {
            assert(all.take(index as int) =~= all);
            assert(self@.redistributors =~= after.redistributors);
        }
        woken
    }

    /// Reads one of the interrupt controller's system registers, which
    /// acknowledges an interrupt. Returns `None` for a register that is not one
    /// of them.
    pub fn read_sysreg(&mut self, gicr: &mut Redistributor, reg: SystemReg) -> (value: Option<u64>)
        requires
            old(self)@.wf(),
            old(gicr).spec_index() < old(self)@.redistributors.len(),
            reg.0 == ICC_IAR0_EL1 || reg.0 == ICC_IAR1_EL1 ==> ({
                let state = old(self)@.redistributors[old(gicr).spec_index() as int];
                state.pending == 0 || state.pending & !state.active != 0
            }),
        ensures
            final(self)@.wf(),
            *final(gicr) == *old(gicr),
            if reg.0 == ICC_IAR0_EL1 || reg.0 == ICC_IAR1_EL1 {
                &&& value is Some
                &&& value->0 <= u32::MAX
                &&& old(self)@.acks(
                    old(gicr).spec_index() as int,
                    value->0 as u32,
                    final(self)@,
                )
            } else {
                &&& value is None
                &&& final(self)@ == old(self)@
            },
    {
        if reg.0 == ICC_IAR0_EL1 {
            Some(self.ack(gicr, false) as u64)
        } else if reg.0 == ICC_IAR1_EL1 {
            Some(self.ack(gicr, true) as u64)
        } else {
            None
        }
    }

    fn eoi(&mut self, gicr: &Redistributor, _group1: bool, intid: u32)
        requires
            old(self)@.wf(),
            gicr.spec_index() < old(self)@.redistributors.len(),
            old(self)@.can_end(gicr.spec_index() as int, intid),
        ensures
            final(self)@.wf(),
            final(self)@ == old(self)@.ended_by(gicr.spec_index() as int, intid),
    {
        let ghost before = self@;
        let index: usize = gicr.index();
        if intid < 32 {
            self.gicr[index].eoi(intid);
            proof {
                assert(self@.redistributors =~= before.redistributors.update(
                    index as int,
                    before.redistributors[index as int].ended(intid),
                ));
            }
            return ;
        }
        if index != 0 {
            return ;
        }
        let i: usize = (intid / 32) as usize;
        let active: u32 = self.state.active[i];
        self.state.active[i] = active & !(1u32 << (intid % 32));
        proof {
            assert(self@ =~= before.ended(intid));
        }
    }
}

impl Redistributor {
    /// Makes a private interrupt of this processor pending.
    pub fn raise(&mut self, distributor: &mut Distributor, intid: u32)
        requires
            old(distributor)@.wf(),
            old(self).spec_index() < old(distributor)@.redistributors.len(),
            intid < 32,
        ensures
            *final(self) == *old(self),
            final(distributor)@.wf(),
            final(distributor)@ == old(distributor)@.with_redistributor(
                old(self).spec_index() as int,
                old(distributor)@.redistributors[old(self).spec_index() as int].raised(intid),
            ),
    {
        let ghost before = distributor@;
        let index: usize = self.index();
        distributor.gicr[index].raise(intid);
        proof {
            assert(distributor@.redistributors =~= before.redistributors.update(
                index as int,
                before.redistributors[index as int].raised(intid),
            ));
        }
    }

    /// Whether a private interrupt of this processor is pending, active or
    /// both.
    pub fn is_pending_or_active(&self, distributor: &Distributor, intid: u32) -> (r: bool)
        requires
            self.spec_index() < distributor@.redistributors.len(),
            intid < 32,
        ensures
            r == ({
                let gicr = distributor@.redistributors[self.spec_index() as int];
                bits::bit(gicr.pending, intid) || bits::bit(gicr.active, intid)
            }),
    {
        distributor.gicr[self.index()].is_pending_or_active(intid)
    }
}

} // verus!
