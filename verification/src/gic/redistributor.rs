//! The part of the GIC that belongs to one virtual processor: its
//! software-generated and private peripheral interrupts, IDs 0 to 31.

use super::interrupt;
use super::interrupt::PendingInterrupt;
use super::registers;
use super::registers::{
    MpidrEl1, GICR_CTLR, GICR_ICACTIVER0, GICR_ICENABLER0, GICR_ICFGR0, GICR_ICFGR1, GICR_ICPENDR0,
    GICR_IGROUPR0, GICR_IPRIORITYR0, GICR_ISACTIVER0, GICR_ISENABLER0, GICR_ISPENDR0, GICR_PIDR2,
    GICR_TYPER, GICR_WAKER, GICR_WAKER_CHILDREN_ASLEEP, GICR_WAKER_PROCESSOR_SLEEP,
    ICFGR_TRIGGER_MASK, PIDR2_GICV3,
};
use crate::bits;
use crate::bytes;
use vstd::prelude::*;

verus! {

/// The state of one redistributor.
#[verifier::ext_equal]
pub struct RedistributorView {
    /// One bit per private interrupt.
    pub pending: u32,
    pub mpidr: MpidrEl1,
    /// Whether this is the redistributor with the highest address.
    pub last: bool,
    pub active: u32,
    pub group: u32,
    pub enable: u32,
    pub ppi_cfg: u32,
    /// Eight words of four priorities each.
    pub priority: Seq<u32>,
    pub sleep: bool,
}

impl RedistributorView {
    /// A redistributor out of reset.
    pub open spec fn reset(mpidr: MpidrEl1, last: bool) -> RedistributorView {
        RedistributorView {
            pending: 0,
            mpidr,
            last,
            active: 0,
            group: 0,
            enable: 0,
            ppi_cfg: 0,
            priority: Seq::new(8, |i: int| 0u32),
            sleep: false,
        }
    }

    pub open spec fn wf(self) -> bool {
        self.priority.len() == 8
    }

    /// The priority of a private interrupt.
    pub open spec fn priority_of(self, intid: u32) -> u8 {
        registers::priority_byte(self.priority[(intid / 4) as int], intid)
    }

    /// The private interrupts among `pending` that may be delivered below
    /// `running_priority`: enabled, in group 1, not active, and more urgent.
    pub open spec fn deliverable(self, pending: u32, running_priority: u8) -> Set<u32> {
        Set::new(
            |i: u32|
                {
                    &&& i < 32
                    &&& bits::bit(pending, i)
                    &&& bits::bit(self.enable, i)
                    &&& !bits::bit(self.active, i)
                    &&& bits::bit(self.group, i)
                    &&& self.priority_of(i) < running_priority
                },
        )
    }

    /// With one more private interrupt pending.
    pub open spec fn raised(self, intid: u32) -> RedistributorView {
        RedistributorView { pending: self.pending | (1u32 << intid), ..self }
    }

    /// With one interrupt taken from pending to active.
    pub open spec fn acknowledged(self, intid: u32) -> RedistributorView {
        RedistributorView {
            pending: self.pending & !(1u32 << intid),
            active: self.active | (1u32 << intid),
            ..self
        }
    }

    /// With one interrupt no longer active.
    pub open spec fn ended(self, intid: u32) -> RedistributorView {
        RedistributorView { active: self.active & !(1u32 << intid), ..self }
    }

    /// What a 32-bit read of the control frame gives, where there is a register.
    pub open spec fn rd_read32(self, reg: u16) -> Option<u32> {
        if reg == GICR_PIDR2 {
            Some(PIDR2_GICV3)
        } else if reg == GICR_CTLR {
            Some(0)
        } else if reg == GICR_WAKER {
            Some(registers::gicr_waker(self.sleep))
        } else {
            None
        }
    }

    /// What a 64-bit read of the control frame gives, where there is a register.
    pub open spec fn rd_read64(self, reg: u16) -> Option<u64> {
        if reg == GICR_TYPER {
            Some(registers::gicr_typer(self.mpidr, self.last))
        } else {
            None
        }
    }

    /// The state after a 32-bit write to the control frame. Only the sleep bit
    /// of GICR_WAKER is writable.
    pub open spec fn rd_write32(self, reg: u16, value: u32) -> RedistributorView {
        if reg == GICR_WAKER {
            RedistributorView { sleep: value & GICR_WAKER_PROCESSOR_SLEEP != 0, ..self }
        } else {
            self
        }
    }

    /// What a 32-bit read of the SGI frame gives, where there is a register.
    pub open spec fn sgi_read32(self, reg: u16) -> Option<u32> {
        if reg == GICR_IGROUPR0 {
            Some(self.group)
        } else if reg == GICR_ICACTIVER0 || reg == GICR_ISACTIVER0 {
            Some(self.active)
        } else if reg == GICR_ICENABLER0 || reg == GICR_ISENABLER0 {
            Some(self.enable)
        } else if reg == GICR_ICPENDR0 || reg == GICR_ISPENDR0 {
            Some(self.pending)
        } else if reg == GICR_ICFGR0 {
            Some(ICFGR_TRIGGER_MASK)
        } else if reg == GICR_ICFGR1 {
            Some(self.ppi_cfg)
        } else if GICR_IPRIORITYR0 <= reg < GICR_IPRIORITYR0 + 0x20 {
            Some(self.priority[(reg - GICR_IPRIORITYR0) / 4])
        } else {
            None
        }
    }

    /// The state after a 32-bit write to the SGI frame. The pending registers
    /// and the trigger mode of SGIs are read-only.
    pub open spec fn sgi_write32(self, reg: u16, value: u32) -> RedistributorView {
        if reg == GICR_IGROUPR0 {
            RedistributorView { group: value, ..self }
        } else if reg == GICR_ISACTIVER0 {
            RedistributorView { active: self.active | value, ..self }
        } else if reg == GICR_ICACTIVER0 {
            RedistributorView { active: self.active & !value, ..self }
        } else if reg == GICR_ISENABLER0 {
            RedistributorView { enable: self.enable | value, ..self }
        } else if reg == GICR_ICENABLER0 {
            RedistributorView { enable: self.enable & !value, ..self }
        } else if reg == GICR_ICFGR1 {
            RedistributorView { ppi_cfg: value, ..self }
        } else if GICR_IPRIORITYR0 <= reg < GICR_IPRIORITYR0 + 0x20 {
            RedistributorView {
                priority: self.priority.update((reg - GICR_IPRIORITYR0) / 4, value),
                ..self
            }
        } else {
            self
        }
    }

    /// What a guest reads at `address`, an offset of which only the low 17
    /// bits count: all ones where the access is not aligned to its size, and
    /// zeros where there is no register of that size.
    pub open spec fn read(self, address: u64, len: nat) -> Seq<u8> {
        let reg = (address % 0x1_0000) as u16;
        if misaligned(address, len) {
            Seq::new(len, |i: int| 0xffu8)
        } else if in_control_frame(address) && len == 4 && self.rd_read32(reg) is Some {
            bytes::le_bytes(self.rd_read32(reg)->0 as nat, 4)
        } else if in_control_frame(address) && len == 8 && self.rd_read64(reg) is Some {
            bytes::le_bytes(self.rd_read64(reg)->0 as nat, 8)
        } else if !in_control_frame(address) && len == 4 && self.sgi_read32(reg) is Some {
            bytes::le_bytes(self.sgi_read32(reg)->0 as nat, 4)
        } else {
            Seq::new(len, |i: int| 0u8)
        }
    }

    /// The state after a guest writes `data` at `address`. A write that is not
    /// aligned to its size, or finds no register of that size, is dropped.
    pub open spec fn write(self, address: u64, data: Seq<u8>) -> RedistributorView {
        let reg = (address % 0x1_0000) as u16;
        let value = bytes::le_value(data) as u32;
        if misaligned(address, data.len()) || data.len() != 4 {
            self
        } else if in_control_frame(address) {
            self.rd_write32(reg, value)
        } else {
            self.sgi_write32(reg, value)
        }
    }
}

/// Whether the SGI frame takes 32-bit writes at `reg`.
pub open spec fn sgi_writable(reg: u16) -> bool {
    ||| reg == GICR_IGROUPR0
    ||| reg == GICR_ISACTIVER0
    ||| reg == GICR_ICACTIVER0
    ||| reg == GICR_ISENABLER0
    ||| reg == GICR_ICENABLER0
    ||| reg == GICR_ICFGR0
    ||| reg == GICR_ICFGR1
    ||| GICR_IPRIORITYR0 <= reg < GICR_IPRIORITYR0 + 0x20
}

/// Whether an access of `len` bytes at `address` is not aligned to its size.
pub open spec fn misaligned(address: u64, len: nat) -> bool {
    address & ((len - 1) as u64) != 0
}

/// Whether an offset into a redistributor's region lies in its first frame.
pub open spec fn in_control_frame(address: u64) -> bool {
    address / 0x1_0000 % 2 == 0
}

/// The redistributor state that the distributor keeps for a virtual processor.
#[derive(Debug)]
pub struct SharedState {
    pending: u32,
    mpidr: MpidrEl1,
    last: bool,
    active: u32,
    group: u32,
    enable: u32,
    ppi_cfg: u32,
    priority: [u32; 8],
    sleep: bool,
}

impl View for SharedState {
    type V = RedistributorView;

    closed spec fn view(&self) -> RedistributorView {
        RedistributorView {
            pending: self.pending,
            mpidr: self.mpidr,
            last: self.last,
            active: self.active,
            group: self.group,
            enable: self.enable,
            ppi_cfg: self.ppi_cfg,
            priority: self.priority@,
            sleep: self.sleep,
        }
    }
}

impl SharedState {
    pub(crate) fn new(mpidr: MpidrEl1, last: bool) -> (state: SharedState)
        ensures
            state@ == RedistributorView::reset(mpidr, last),
    {
        let state = SharedState {
            pending: 0,
            mpidr,
            last,
            active: 0,
            group: 0,
            enable: 0,
            ppi_cfg: 0,
            priority: [0;8],
            sleep: false,
        };
        proof {
            assert(state@.priority =~= Seq::new(8, |i: int| 0u32));
        }
        state
    }

    /// There are eight words of priorities.
    pub proof fn lemma_wf(&self)
        ensures
            self@.wf(),
    {
    }

    pub fn mpidr(&self) -> (mpidr: MpidrEl1)
        ensures
            mpidr == self@.mpidr,
    {
        self.mpidr
    }

    /// The first private interrupt to deliver below `running_priority`.
    pub fn next_private_interrupt(&self, running_priority: u8) -> (next: Option<PendingInterrupt>)
        ensures
            interrupt::is_first(
                self@.deliverable(self@.pending, running_priority),
                |i: u32| self@.priority_of(i),
                next,
            ),
    {
        self.select_private_interrupt(self.pending, running_priority)
    }

    /// The first of the interrupts in `pending` to deliver below
    /// `running_priority`.
    pub fn select_private_interrupt(&self, pending: u32, running_priority: u8) -> (next: Option<
        PendingInterrupt,
    >)
        ensures
            interrupt::is_first(
                self@.deliverable(pending, running_priority),
                |i: u32| self@.priority_of(i),
                next,
            ),
    {
        let deliverable: u32 = pending & self.enable & !self.active & self.group;
        let ghost all = self@.deliverable(pending, running_priority);
        let ghost priority_fn = |i: u32| self@.priority_of(i);
        let mut best: Option<PendingInterrupt> = None;
        let mut intid: u32 = 0;
        let ghost mut seen = Set::<u32>::empty();
        while intid < 32
            invariant
                intid <= 32,
                deliverable == pending & self.enable & !self.active & self.group,
                all == self@.deliverable(pending, running_priority),
                priority_fn == (|i: u32| self@.priority_of(i)),
                forall|i: u32| #[trigger] seen.contains(i) <==> all.contains(i) && i < intid,
                interrupt::is_first(seen, priority_fn, best),
            decreases 32 - intid,
        {
            proof {
                bits::lemma_bit_ops(pending, self.enable, intid);
                bits::lemma_bit_ops(pending & self.enable, self.active, intid);
                bits::lemma_bit_ops(pending & self.enable & !self.active, self.group, intid);
            }
            let priority: u8 = registers::read_priority_byte(self.priority[(intid / 4) as usize], intid);
            if deliverable & (1u32 << intid) != 0 && priority < running_priority {
                let interrupt = PendingInterrupt { intid, priority, group1: true };
                let ghost before = best;
                best = interrupt::keep_first(best, interrupt);
                proof {
                    let after = seen.insert(intid);
                    interrupt::lemma_keep_first(seen, after, priority_fn, before, interrupt, best);
                    seen = after;
                }
            }
            intid = intid + 1;
        }
        proof {
            assert(seen =~= all);
        }
        best
    }

    /// Makes a private interrupt pending. Returns whether it was not already.
    pub fn raise(&mut self, intid: u32) -> (newly_pending: bool)
        requires
            intid < 32,
        ensures
            final(self)@ == old(self)@.raised(intid),
            newly_pending == !bits::bit(old(self)@.pending, intid),
    {
        let mask: u32 = 1u32 << intid;
        let newly_pending = self.pending & mask == 0;
        self.pending = self.pending | mask;
        newly_pending
    }

    /// Reads from the redistributor's frames; `address` is an offset.
    pub fn read(&self, address: u64, data: &mut [u8])
        requires
            old(data)@.len() > 0,
        ensures
            final(data)@ == self@.read(address, old(data)@.len()),
    {
        if address & (data.len() as u64 - 1) != 0 {
            bytes::fill(data, 0xff);
            return ;
        }
        let reg: u16 = (address % 0x1_0000) as u16;
        if address / 0x1_0000 % 2 == 0 {
            if data.len() == 4 {
                if let Some(value) = self.rd_read32(reg) {
                    bytes::write_le(data, value as u64);
                    return ;
                }
            } else if data.len() == 8 {
                if let Some(value) = self.rd_read64(reg) {
                    bytes::write_le(data, value);
                    return ;
                }
            }
        } else if data.len() == 4 {
            if let Some(value) = self.sgi_read32(reg) {
                bytes::write_le(data, value as u64);
                return ;
            }
        }
        bytes::fill(data, 0);
    }

    /// Writes to the redistributor's frames; `address` is an offset.
    pub fn write(&mut self, address: u64, data: &[u8])
        requires
            data@.len() > 0,
        ensures
            final(self)@ == old(self)@.write(address, data@),
    {
        if address & (data.len() as u64 - 1) != 0 {
            return ;
        }
        let reg: u16 = (address % 0x1_0000) as u16;
        if data.len() == 4 {
            proof {
                bytes::lemma_le_value_bound(data@);
                bytes::lemma_pow256();
            }
            let value: u32 = bytes::read_le(data) as u32;
            if address / 0x1_0000 % 2 == 0 {
                self.rd_write32(reg, value);
            } else {
                self.sgi_write32(reg, value);
            }
        }
    }

    fn rd_read32(&self, reg: u16) -> (value: Option<u32>)
        ensures
            value == self@.rd_read32(reg),
    {
        if reg == GICR_PIDR2 {
            Some(PIDR2_GICV3)
        } else if reg == GICR_CTLR {
            Some(0)
        } else if reg == GICR_WAKER {
            if self.sleep {
                Some(GICR_WAKER_PROCESSOR_SLEEP + GICR_WAKER_CHILDREN_ASLEEP)
            } else {
                Some(0)
            }
        } else {
            None
        }
    }

    /// Returns whether there is such a register.
    fn rd_write32(&mut self, reg: u16, value: u32) -> (handled: bool)
        ensures
            final(self)@ == old(self)@.rd_write32(reg, value),
            handled == (reg == GICR_CTLR || reg == GICR_WAKER),
    {
        if reg == GICR_CTLR {
            true
        } else if reg == GICR_WAKER {
            self.sleep = value & GICR_WAKER_PROCESSOR_SLEEP != 0;
            true
        } else {
            false
        }
    }

    fn rd_read64(&self, reg: u16) -> (value: Option<u64>)
        ensures
            value == self@.rd_read64(reg),
    {
        if reg == GICR_TYPER {
            let last: u64 = if self.last {
                0x10
            } else {
                0
            };
            Some(
                self.mpidr.aff0 as u64 * 0x1_0000_0000 + self.mpidr.aff1 as u64 * 0x100_0000_0000
                    + self.mpidr.aff2 as u64 * 0x1_0000_0000_0000 + self.mpidr.aff3 as u64
                    * 0x100_0000_0000_0000 + last,
            )
        } else {
            None
        }
    }

    fn sgi_read32(&self, reg: u16) -> (value: Option<u32>)
        ensures
            value == self@.sgi_read32(reg),
    {
        if reg == GICR_IGROUPR0 {
            Some(self.group)
        } else if reg == GICR_ICACTIVER0 || reg == GICR_ISACTIVER0 {
            Some(self.active)
        } else if reg == GICR_ICENABLER0 || reg == GICR_ISENABLER0 {
            Some(self.enable)
        } else if reg == GICR_ICPENDR0 || reg == GICR_ISPENDR0 {
            Some(self.pending)
        } else if reg == GICR_ICFGR0 {
            // SGIs are always edge triggered.
            Some(ICFGR_TRIGGER_MASK)
        } else if reg == GICR_ICFGR1 {
            Some(self.ppi_cfg)
        } else if GICR_IPRIORITYR0 <= reg && reg < GICR_IPRIORITYR0 + 0x20 {
            let n: usize = ((reg - GICR_IPRIORITYR0) / 4) as usize;
            Some(self.priority[n])
        } else {
            None
        }
    }

    /// Returns whether there is such a register.
    fn sgi_write32(&mut self, reg: u16, value: u32) -> (handled: bool)
        ensures
            final(self)@ == old(self)@.sgi_write32(reg, value),
            handled == sgi_writable(reg),
    {
        if reg == GICR_IGROUPR0 {
            self.group = value;
        } else if reg == GICR_ISACTIVER0 {
            self.active = self.active | value;
        } else if reg == GICR_ICACTIVER0 {
            self.active = self.active & !value;
        } else if reg == GICR_ISENABLER0 {
            self.enable = self.enable | value;
        } else if reg == GICR_ICENABLER0 {
            self.enable = self.enable & !value;
        } else if reg == GICR_ICFGR0 {
            // Cannot change trigger mode for SGIs.
        } else if reg == GICR_ICFGR1 {
            self.ppi_cfg = value;
        } else if GICR_IPRIORITYR0 <= reg && reg < GICR_IPRIORITYR0 + 0x20 {
            let n: usize = ((reg - GICR_IPRIORITYR0) / 4) as usize;
            self.priority[n] = value;
        } else {
            return false;
        }
        true
    }

    /// Whether some enabled group 1 interrupt is pending and not active.
    pub fn irq_pending(&self) -> (pending: bool)
        ensures
            pending == (self@.pending & !self@.active & self@.enable & self@.group != 0),
    {
        if self.pending == 0 {
            proof {
                let (a, b, c) = (self.active, self.enable, self.group);
                assert(0u32 & !a & b & c == 0) by (bit_vector);
            }
            return false;
        }
        self.pending & !self.active & self.enable & self.group != 0
    }

    /// Whether a private interrupt is pending, active or both.
    pub fn is_pending_or_active(&self, intid: u32) -> (r: bool)
        requires
            intid < 32,
        ensures
            r == (bits::bit(self@.pending, intid) || bits::bit(self@.active, intid)),
    {
        proof {
            bits::lemma_bit_ops(self.pending, self.active, intid);
        }
        (self.pending | self.active) & (1u32 << intid) != 0
    }

    /// Takes the highest-numbered pending interrupt that is not active to
    /// active. Returns `None` when nothing is pending.
    pub fn ack(&mut self) -> (intid: Option<u32>)
        requires
            old(self)@.pending == 0 || old(self)@.pending & !old(self)@.active != 0,
        ensures
            intid is None <==> old(self)@.pending == 0,
            match intid {
                None => final(self)@ == old(self)@,
                Some(i) => {
                    &&& bits::is_highest_bit(old(self)@.pending & !old(self)@.active, i)
                    &&& final(self)@ == old(self)@.acknowledged(i)
                },
            },
    {
        if self.pending == 0 {
            None
        } else {
            let intid: u32 = bits::highest_bit(self.pending & !self.active);
            self.pending = self.pending & !(1u32 << intid);
            self.active = self.active | (1u32 << intid);
            Some(intid)
        }
    }

    /// Ends the activity of a private interrupt.
    pub fn eoi(&mut self, intid: u32)
        requires
            intid < 32,
        ensures
            final(self)@ == old(self)@.ended(intid),
    {
        self.active = self.active & !(1u32 << intid);
    }
}

/// The handle of a virtual processor on its redistributor.
#[derive(Debug)]
pub struct Redistributor {
    index: usize,
}

impl Redistributor {
    /// The place of the redistributor in its distributor.
    pub closed spec fn spec_index(&self) -> nat {
        self.index as nat
    }

    pub(crate) fn new(index: usize) -> (gicr: Redistributor)
        ensures
            gicr.spec_index() == index,
    {
        Redistributor { index }
    }

    pub(crate) fn index(&self) -> (index: usize)
        ensures
            index == self.spec_index(),
    {
        self.index
    }
}

} // verus!
