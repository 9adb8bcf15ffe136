//! The model of the distributor: what it holds, and what each operation does
//! to it.

use super::redistributor;
use super::redistributor::RedistributorView;
use super::registers;
use super::registers::{
    GicrSgi, MpidrEl1, VpIndex, GICD_CTLR, GICD_CTLR_ENABLE_GRP0, GICD_CTLR_ENABLE_GRP1,
    GICD_ICACTIVER, GICD_ICENABLER, GICD_ICFGR, GICD_ICPENDR, GICD_IGROUPR, GICD_IIDR,
    GICD_IPRIORITYR, GICD_IROUTER, GICD_ISACTIVER, GICD_ISENABLER, GICD_ISPENDR, GICD_PIDR2,
    GICD_TYPER, GICD_TYPER2, GICD_TYPER_VALUE, GIC_DISTRIBUTOR_SIZE, GIC_REDISTRIBUTOR_SIZE,
    ICFGR_TRIGGER_MASK, PIDR2_GICV3,
};
use crate::bits;
use crate::bytes;
use crate::memory_range::MemoryRange;
use vstd::prelude::*;

verus! {

/// Whether the bit of `intid` is set in a bitmap of 32 interrupts per word.
pub open spec fn is_set(words: Seq<u32>, intid: u32) -> bool {
    intid / 32 < words.len() && bits::bit(words[(intid / 32) as int], intid % 32)
}

/// The bitmap with the bit of `intid` set to `value`; a bitmap too short for
/// `intid` stays as it is.
pub open spec fn with_bit(words: Seq<u32>, intid: u32, value: bool) -> Seq<u32> {
    let i = (intid / 32) as int;
    if i >= words.len() {
        words
    } else if value {
        words.update(i, words[i] | (1u32 << (intid % 32)))
    } else {
        words.update(i, words[i] & !(1u32 << (intid % 32)))
    }
}

/// The word at `i`, and zero behind the end.
pub open spec fn word_or_zero(words: Seq<u32>, i: int) -> u32 {
    if 0 <= i < words.len() {
        words[i]
    } else {
        0
    }
}

/// `words` with `value` at `i`, where `i` is at least `first` and inside.
pub open spec fn with_word(words: Seq<u32>, first: int, i: int, value: u32) -> Seq<u32> {
    if first <= i < words.len() {
        words.update(i, value)
    } else {
        words
    }
}

/// Whether `reg` is one of the 32 registers of a bank of one bit per interrupt
/// that starts at `base`.
pub open spec fn in_bitmap(reg: u16, base: u16) -> bool {
    base <= reg < base + 0x80
}

/// Whether `reg` is one of the 256 registers of IPRIORITYR.
pub open spec fn in_ipriorityr(reg: u16) -> bool {
    GICD_IPRIORITYR <= reg < GICD_IPRIORITYR + 0x400
}

/// Whether `reg` is one of the 64 registers of ICFGR.
pub open spec fn in_icfgr(reg: u16) -> bool {
    GICD_ICFGR <= reg < GICD_ICFGR + 0x100
}

/// Whether `reg` lies in the bank of IROUTER.
pub open spec fn in_irouter(reg: u16) -> bool {
    GICD_IROUTER <= reg < GICD_IROUTER + 0x2000
}

/// Whether `reg` is a register of the distributor that takes writes of four
/// bytes.
pub open spec fn takes_write32(reg: u16) -> bool {
    ||| reg == GICD_CTLR
    ||| in_bitmap(reg, GICD_IGROUPR)
    ||| in_bitmap(reg, GICD_ISENABLER)
    ||| in_bitmap(reg, GICD_ICENABLER)
    ||| in_bitmap(reg, GICD_ISPENDR)
    ||| in_bitmap(reg, GICD_ICPENDR)
    ||| in_bitmap(reg, GICD_ISACTIVER)
    ||| in_bitmap(reg, GICD_ICACTIVER)
    ||| in_ipriorityr(reg)
    ||| in_icfgr(reg)
}

/// Everything a distributor holds, its redistributors included.
#[verifier::ext_equal]
pub struct DistributorView {
    /// Level of each interrupt line, as the devices drive it.
    pub asserted: Seq<u32>,
    /// Latched interrupts.
    pub pending: Seq<u32>,
    /// For each interrupt ID, the processor that has it in a list register.
    pub in_flight: Seq<Option<u32>>,
    pub active: Seq<u32>,
    /// Set for the interrupts of group 1.
    pub group: Seq<u32>,
    pub enable: Seq<u32>,
    /// Two configuration bits per interrupt.
    pub cfg: Seq<u32>,
    /// One priority byte per interrupt.
    pub priority: Seq<u32>,
    pub route: Seq<u64>,
    pub enable_grp0: bool,
    pub enable_grp1: bool,
    /// The highest interrupt ID.
    pub max_spi_intid: u32,
    pub redistributors: Seq<RedistributorView>,
    pub gicd_range: MemoryRange,
    pub gicr_range: MemoryRange,
}

impl DistributorView {
    /// A distributor out of reset, without redistributors.
    pub open spec fn reset(
        gicd_range: MemoryRange,
        gicr_range: MemoryRange,
        interrupt_count: u32,
    ) -> DistributorView {
        let n = ((interrupt_count + 31) / 32) as nat;
        DistributorView {
            asserted: Seq::new(n, |i: int| 0u32),
            pending: Seq::new(n, |i: int| 0u32),
            in_flight: Seq::new(n * 32, |i: int| None),
            active: Seq::new(n, |i: int| 0u32),
            group: Seq::new(n, |i: int| 0u32),
            enable: Seq::new(n, |i: int| 0u32),
            cfg: Seq::new(n * 2, |i: int| 0u32),
            priority: Seq::new(n * 8, |i: int| 0u32),
            route: Seq::new(n * 64, |i: int| 0u64),
            enable_grp0: false,
            enable_grp1: false,
            max_spi_intid: if interrupt_count == 0 {
                0
            } else {
                (interrupt_count - 1) as u32
            },
            redistributors: Seq::empty(),
            gicd_range,
            gicr_range,
        }
    }

    /// Each register bank has room for every interrupt, and each redistributor
    /// has its place in the redistributor range.
    pub open spec fn wf(self) -> bool {
        let n = self.pending.len();
        &&& n <= 0x800_0000
        &&& self.asserted.len() == n
        &&& self.in_flight.len() == n * 32
        &&& self.active.len() == n
        &&& self.group.len() == n
        &&& self.enable.len() == n
        &&& self.cfg.len() == n * 2
        &&& self.priority.len() == n * 8
        &&& self.route.len() == n * 64
        &&& self.max_spi_intid < n * 32 || (n == 0 && self.max_spi_intid == 0)
        &&& forall|i: int|
            0 <= i < self.redistributors.len() ==> (#[trigger] self.redistributors[i]).wf()
        &&& self.gicd_range.wf()
        &&& self.gicd_range.spec_end() - self.gicd_range.spec_start() == GIC_DISTRIBUTOR_SIZE
        &&& self.gicr_range.wf()
        &&& self.redistributors.len() * GIC_REDISTRIBUTOR_SIZE <= self.gicr_range.spec_end()
            - self.gicr_range.spec_start()
    }

    /// Whether `intid` names a shared peripheral interrupt.
    pub open spec fn valid_spi(self, intid: u32) -> bool {
        32 <= intid <= self.max_spi_intid
    }

    /// Whether `intid` is configured as edge-triggered: the upper of its two
    /// configuration bits.
    pub open spec fn edge_triggered(self, intid: u32) -> bool {
        bits::bit(
            word_or_zero(self.cfg, (intid / 16) as int),
            ((intid % 16) * 2 + 1) as u32,
        )
    }

    /// The priority of a shared interrupt.
    pub open spec fn priority_of(self, intid: u32) -> u8 {
        registers::priority_byte(word_or_zero(self.priority, (intid / 4) as int), intid)
    }

    /// The route of a shared interrupt.
    pub open spec fn route_of(self, intid: u32) -> u64 {
        if intid < self.route.len() {
            self.route[intid as int]
        } else {
            0
        }
    }

    /// Whether a shared interrupt may go to processor `vp`: one is there, and
    /// the route names it or any processor.
    pub open spec fn targets(self, intid: u32, vp: u32) -> bool {
        &&& vp < self.redistributors.len()
        &&& self.route_of(intid) / 0x8000_0000 % 2 == 1 || self.redistributors[vp as int].mpidr
            == MpidrEl1::decode(self.route_of(intid))
    }

    /// Every processor, in order.
    pub open spec fn vps(self) -> Seq<VpIndex> {
        Seq::new(self.redistributors.len(), |i: int| VpIndex(i as u32))
    }

    /// The processors that a shared interrupt may go to, in order.
    pub open spec fn target_vps(self, intid: u32) -> Seq<VpIndex> {
        self.vps().filter(|vp: VpIndex| self.targets(intid, vp.0))
    }

    /// With the pending latch of an interrupt set or cleared.
    pub open spec fn with_pending(self, intid: u32, pending: bool) -> DistributorView {
        DistributorView { pending: with_bit(self.pending, intid, pending), ..self }
    }

    /// Whether driving the line of `intid` to `high` changes its level.
    pub open spec fn line_changes(self, intid: u32, high: bool) -> bool {
        is_set(self.asserted, intid) != high
    }

    /// After a device drives the line of `intid`: the rising edge of an
    /// edge-triggered interrupt is latched, and an ID that is no shared
    /// interrupt is ignored.
    pub open spec fn with_line(self, intid: u32, high: bool) -> DistributorView {
        if !self.valid_spi(intid) {
            self
        } else {
            let driven = DistributorView {
                asserted: with_bit(self.asserted, intid, high),
                ..self
            };
            if self.line_changes(intid, high) && high && self.edge_triggered(intid) {
                driven.with_pending(intid, true)
            } else {
                driven
            }
        }
    }

    /// The processors to wake when a device drives the line of `intid`: those
    /// it may go to, on a rising edge.
    pub open spec fn woken_by_line(self, intid: u32, high: bool) -> Seq<VpIndex> {
        if self.valid_spi(intid) && self.line_changes(intid, high) && high {
            self.target_vps(intid)
        } else {
            Seq::empty()
        }
    }

    /// With an interrupt in flight to a processor, or to none.
    pub open spec fn with_in_flight(self, intid: u32, vp: Option<u32>) -> DistributorView {
        DistributorView { in_flight: self.in_flight.update(intid as int, vp), ..self }
    }

    /// After an interrupt was put into a list register of `vp`.
    pub open spec fn injected(self, vp: u32, intid: u32) -> DistributorView {
        if self.valid_spi(intid) {
            self.with_pending(intid, false).with_in_flight(intid, Some(vp))
        } else {
            self
        }
    }

    /// After an interrupt was set aside for delivery to `vp`: it is in flight,
    /// and its latch stays as it is.
    pub open spec fn reserved(self, vp: u32, intid: u32) -> DistributorView {
        self.with_in_flight(intid, Some(vp))
    }

    /// After `vp` gave back an interrupt that was set aside for it.
    pub open spec fn reservation_cancelled(self, vp: u32, intid: u32) -> DistributorView {
        if self.valid_spi(intid) && self.in_flight[intid as int] == Some(vp) {
            self.with_in_flight(intid, None)
        } else {
            self
        }
    }

    /// Whether a shared interrupt asks for delivery: it is latched, or its
    /// level-sensitive line is high.
    pub open spec fn requested(self, intid: u32) -> bool {
        is_set(self.pending, intid) || (is_set(self.asserted, intid) && !self.edge_triggered(intid))
    }

    /// The shared interrupts that may be delivered to `vp` below
    /// `running_priority`.
    pub open spec fn spi_deliverable(self, vp: u32, running_priority: u8) -> Set<u32> {
        Set::new(
            |i: u32|
                {
                    &&& self.enable_grp1
                    &&& self.valid_spi(i)
                    &&& self.requested(i)
                    &&& is_set(self.enable, i)
                    &&& !is_set(self.active, i)
                    &&& is_set(self.group, i)
                    &&& self.in_flight[i as int] is None
                    &&& self.targets(i, vp)
                    &&& self.priority_of(i) < running_priority
                },
        )
    }

    /// The private interrupts among `pending` that may be delivered to `vp`
    /// below `running_priority`.
    pub open spec fn private_deliverable(self, vp: u32, pending: u32, running_priority: u8) -> Set<
        u32,
    > {
        if self.enable_grp1 && vp < self.redistributors.len() {
            self.redistributors[vp as int].deliverable(pending, running_priority)
        } else {
            Set::empty()
        }
    }

    /// Every interrupt that may be delivered to `vp` below `running_priority`.
    pub open spec fn deliverable(self, vp: u32, running_priority: u8) -> Set<u32> {
        self.private_deliverable(
            vp,
            self.redistributors[vp as int].pending,
            running_priority,
        ).union(self.spi_deliverable(vp, running_priority))
    }

    /// The priority at which `vp` takes an interrupt, private or shared.
    pub open spec fn priority_at(self, vp: u32, intid: u32) -> u8 {
        if intid < 32 {
            self.redistributors[vp as int].priority_of(intid)
        } else {
            self.priority_of(intid)
        }
    }

    /// Whether word `i` holds a latched interrupt that is not active.
    pub open spec fn waiting(self, i: int) -> bool {
        0 <= i < self.pending.len() && self.pending[i] & !self.active[i] != 0
    }

    /// Whether word `i` holds a latched and enabled interrupt that is not active.
    pub open spec fn signalled(self, i: int) -> bool {
        0 <= i < self.pending.len() && self.pending[i] & !self.active[i] & self.enable[i] != 0
    }

    /// With an interrupt taken from latched to active.
    pub open spec fn acknowledged(self, intid: u32) -> DistributorView {
        DistributorView {
            pending: with_bit(self.pending, intid, false),
            active: with_bit(self.active, intid, true),
            ..self
        }
    }

    /// With an interrupt no longer active.
    pub open spec fn ended(self, intid: u32) -> DistributorView {
        DistributorView { active: with_bit(self.active, intid, false), ..self }
    }

    /// With the state of one redistributor replaced.
    pub open spec fn with_redistributor(self, i: int, state: RedistributorView) -> DistributorView {
        DistributorView { redistributors: self.redistributors.update(i, state), ..self }
    }

    /// Whether an SGI that redistributor `sender` sends goes to redistributor
    /// `i`: to every other one, or to those that the affinity and the target
    /// list name.
    pub open spec fn sgi_reaches(self, sender: int, sgi: GicrSgi, i: int) -> bool {
        let mpidr = self.redistributors[i].mpidr;
        if sgi.irm {
            i != sender
        } else {
            self.sgi_addresses(sgi, i) && sgi.target_list & (1u16 << (mpidr.aff0 as u16)) != 0
        }
    }

    /// Whether the affinity of an SGI names the cluster of redistributor `i`.
    pub open spec fn sgi_addresses(self, sgi: GicrSgi, i: int) -> bool {
        let mpidr = self.redistributors[i].mpidr;
        mpidr.aff3 == sgi.aff3 && mpidr.aff2 == sgi.aff2 && mpidr.aff1 == sgi.aff1
    }

    /// After an SGI was sent.
    pub open spec fn with_sgi(self, sender: int, sgi: GicrSgi) -> DistributorView {
        DistributorView {
            redistributors: Seq::new(
                self.redistributors.len(),
                |i: int|
                    if self.sgi_reaches(sender, sgi, i) {
                        self.redistributors[i].raised(sgi.intid as u32)
                    } else {
                        self.redistributors[i]
                    },
            ),
            ..self
        }
    }

    /// Whether an SGI makes a new interrupt pending at redistributor `i`.
    pub open spec fn sgi_wakes(self, sender: int, sgi: GicrSgi, i: int) -> bool {
        self.sgi_reaches(sender, sgi, i) && !bits::bit(
            self.redistributors[i].pending,
            sgi.intid as u32,
        )
    }

    /// The redistributors at which an SGI makes a new interrupt pending, in
    /// order.
    pub open spec fn woken_by_sgi(self, sender: int, sgi: GicrSgi) -> Seq<usize> {
        Seq::new(self.redistributors.len(), |i: int| i as usize).filter(
            |i: usize| self.sgi_wakes(sender, sgi, i as int),
        )
    }

    /// What a 32-bit read of the distributor frame gives, where there is a
    /// register.
    pub open spec fn read32(self, reg: u16) -> Option<u32> {
        if reg == GICD_PIDR2 {
            Some(PIDR2_GICV3)
        } else if reg == GICD_TYPER {
            Some(GICD_TYPER_VALUE)
        } else if reg == GICD_IIDR || reg == GICD_TYPER2 {
            Some(0)
        } else if reg == GICD_CTLR {
            Some(registers::gicd_ctlr(self.enable_grp0, self.enable_grp1))
        } else if in_bitmap(reg, GICD_IGROUPR) {
            Some(word_or_zero(self.group, (reg - GICD_IGROUPR) / 4))
        } else if in_bitmap(reg, GICD_ISENABLER) {
            Some(word_or_zero(self.enable, (reg - GICD_ISENABLER) / 4))
        } else if in_bitmap(reg, GICD_ICENABLER) {
            Some(word_or_zero(self.enable, (reg - GICD_ICENABLER) / 4))
        } else if in_bitmap(reg, GICD_ISPENDR) {
            Some(word_or_zero(self.pending, (reg - GICD_ISPENDR) / 4))
        } else if in_bitmap(reg, GICD_ICPENDR) {
            Some(word_or_zero(self.pending, (reg - GICD_ICPENDR) / 4))
        } else if in_bitmap(reg, GICD_ISACTIVER) {
            Some(word_or_zero(self.active, (reg - GICD_ISACTIVER) / 4))
        } else if in_bitmap(reg, GICD_ICACTIVER) {
            Some(word_or_zero(self.active, (reg - GICD_ICACTIVER) / 4))
        } else if in_ipriorityr(reg) {
            Some(word_or_zero(self.priority, (reg - GICD_IPRIORITYR) / 4))
        } else if in_icfgr(reg) {
            Some(word_or_zero(self.cfg, (reg - GICD_ICFGR) / 4))
        } else {
            None
        }
    }

    /// The state after a 32-bit write to the distributor frame. The registers
    /// of the private interrupts, at the start of each bank, belong to the
    /// redistributors and ignore writes.
    pub open spec fn write32(self, reg: u16, value: u32) -> DistributorView {
        if reg == GICD_CTLR {
            DistributorView {
                enable_grp0: value & GICD_CTLR_ENABLE_GRP0 != 0,
                enable_grp1: value & GICD_CTLR_ENABLE_GRP1 != 0,
                ..self
            }
        } else if in_bitmap(reg, GICD_IGROUPR) {
            let i = (reg - GICD_IGROUPR) / 4;
            DistributorView { group: with_word(self.group, 1, i, value), ..self }
        } else if in_bitmap(reg, GICD_ISENABLER) {
            let i = (reg - GICD_ISENABLER) / 4;
            DistributorView { enable: with_word(self.enable, 1, i, self.enable[i] | value), ..self }
        } else if in_bitmap(reg, GICD_ICENABLER) {
            let i = (reg - GICD_ICENABLER) / 4;
            DistributorView { enable: with_word(self.enable, 1, i, self.enable[i] & !value), ..self }
        } else if in_bitmap(reg, GICD_ISPENDR) {
            let i = (reg - GICD_ISPENDR) / 4;
            DistributorView { pending: with_word(self.pending, 1, i, self.pending[i] | value), ..self }
        } else if in_bitmap(reg, GICD_ICPENDR) {
            let i = (reg - GICD_ICPENDR) / 4;
            DistributorView {
                pending: with_word(self.pending, 1, i, self.pending[i] & !value),
                ..self
            }
        } else if in_bitmap(reg, GICD_ISACTIVER) {
            let i = (reg - GICD_ISACTIVER) / 4;
            DistributorView { active: with_word(self.active, 1, i, self.active[i] | value), ..self }
        } else if in_bitmap(reg, GICD_ICACTIVER) {
            let i = (reg - GICD_ICACTIVER) / 4;
            DistributorView { active: with_word(self.active, 1, i, self.active[i] & !value), ..self }
        } else if in_ipriorityr(reg) {
            let i = (reg - GICD_IPRIORITYR) / 4;
            DistributorView { priority: with_word(self.priority, 8, i, value), ..self }
        } else if in_icfgr(reg) {
            let i = (reg - GICD_ICFGR) / 4;
            DistributorView { cfg: with_word(self.cfg, 2, i, value & ICFGR_TRIGGER_MASK), ..self }
        } else {
            self
        }
    }

    /// What a 64-bit read of the distributor frame gives, where there is a
    /// register.
    pub open spec fn read64(self, reg: u16) -> Option<u64> {
        if in_irouter(reg) {
            Some(self.route_of(((reg - GICD_IROUTER) / 8) as u32))
        } else {
            None
        }
    }

    /// The state after a 64-bit write to the distributor frame.
    pub open spec fn write64(self, reg: u16, value: u64) -> DistributorView {
        let i = (reg - GICD_IROUTER) / 8;
        if in_irouter(reg) && 32 <= i < self.route.len() {
            DistributorView { route: self.route.update(i, value), ..self }
        } else {
            self
        }
    }

    /// What a guest reads at offset `address` of the distributor frame: all
    /// ones where the access is not aligned to its size, and zeros where there
    /// is no register of that size.
    pub open spec fn read_gicd(self, address: u64, len: nat) -> Seq<u8> {
        let reg = address as u16;
        if redistributor::misaligned(address, len) {
            Seq::new(len, |i: int| 0xffu8)
        } else if len == 4 && self.read32(reg) is Some {
            bytes::le_bytes(self.read32(reg)->0 as nat, 4)
        } else if len == 8 && self.read64(reg) is Some {
            bytes::le_bytes(self.read64(reg)->0 as nat, 8)
        } else {
            Seq::new(len, |i: int| 0u8)
        }
    }

    /// The state after a guest writes at offset `address` of the distributor
    /// frame. A write that is not aligned to its size, or finds no register of
    /// that size, is dropped.
    pub open spec fn write_gicd(self, address: u64, data: Seq<u8>) -> DistributorView {
        if redistributor::misaligned(address, data.len()) {
            self
        } else if data.len() == 4 {
            self.write32(address as u16, bytes::le_value(data) as u32)
        } else if data.len() == 8 {
            self.write64(address as u16, bytes::le_value(data) as u64)
        } else {
            self
        }
    }

    /// The redistributor that an address in the redistributor range belongs to.
    pub open spec fn redistributor_at(self, address: u64) -> int {
        (address - self.gicr_range.spec_start()) / GIC_REDISTRIBUTOR_SIZE as int
    }

    /// What a guest reads at `address`, which is in one of the two ranges. A
    /// place without a redistributor reads as zeros.
    pub open spec fn read(self, address: u64, len: nat) -> Seq<u8> {
        let i = self.redistributor_at(address);
        if self.gicd_range.spec_contains(address) {
            self.read_gicd((address - self.gicd_range.spec_start()) as u64, len)
        } else if i < self.redistributors.len() {
            self.redistributors[i].read((address - self.gicr_range.spec_start()) as u64, len)
        } else {
            Seq::new(len, |k: int| 0u8)
        }
    }

    /// The state after a guest writes at `address`, which is in one of the two
    /// ranges. A place without a redistributor drops the write.
    pub open spec fn write(self, address: u64, data: Seq<u8>) -> DistributorView {
        let i = self.redistributor_at(address);
        if self.gicd_range.spec_contains(address) {
            self.write_gicd((address - self.gicd_range.spec_start()) as u64, data)
        } else if i < self.redistributors.len() {
            self.with_redistributor(
                i,
                self.redistributors[i].write(
                    (address - self.gicr_range.spec_start()) as u64,
                    data,
                ),
            )
        } else {
            self
        }
    }

    /// Whether an address is the distributor's or in the redistributor range.
    pub open spec fn claims(self, address: u64) -> bool {
        self.gicd_range.spec_contains(address) || self.gicr_range.spec_contains(address)
    }

    /// Whether an address lies in the frame of the distributor or in those of a
    /// redistributor.
    pub open spec fn has_frame(self, address: u64) -> bool {
        ||| self.gicd_range.spec_contains(address)
        ||| self.gicr_range.spec_contains(address) && self.redistributors.len() > (address
            - self.gicr_range.spec_start()) / GIC_REDISTRIBUTOR_SIZE as int
    }
}

} // verus!
