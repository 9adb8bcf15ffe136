//! The guest's reads and writes of the register frames.

use super::{get_word, set_word, Distributor};
use crate::bytes;
use crate::gic::registers;
use crate::gic::registers::{
    GICD_CTLR, GICD_CTLR_ARE, GICD_CTLR_DS, GICD_CTLR_ENABLE_GRP0, GICD_CTLR_ENABLE_GRP1,
    GICD_ICACTIVER, GICD_ICENABLER, GICD_ICFGR, GICD_ICPENDR, GICD_IGROUPR, GICD_IIDR,
    GICD_IPRIORITYR, GICD_IROUTER, GICD_ISACTIVER, GICD_ISENABLER, GICD_ISPENDR, GICD_PIDR2,
    GICD_TYPER, GICD_TYPER2, GICD_TYPER_VALUE, GIC_REDISTRIBUTOR_SIZE, ICFGR_TRIGGER_MASK,
    PIDR2_GICV3,
};
use crate::gic::state;
use vstd::prelude::*;

verus! {

/// Whether `reg` is one of the 32 registers of a bank of one bit per interrupt
/// that starts at `base`.
fn bitmap_contains(base: u16, reg: u16) -> (inside: bool)
    requires
        base <= 0x380,
    ensures
        inside == state::in_bitmap(reg, base),
{
    base <= reg && reg < base + 0x80
}

fn ipriorityr_contains(reg: u16) -> (inside: bool)
    ensures
        inside == state::in_ipriorityr(reg),
{
    GICD_IPRIORITYR <= reg && reg < GICD_IPRIORITYR + 0x400
}

fn icfgr_contains(reg: u16) -> (inside: bool)
    ensures
        inside == state::in_icfgr(reg),
{
    GICD_ICFGR <= reg && reg < GICD_ICFGR + 0x100
}

fn irouter_contains(reg: u16) -> (inside: bool)
    ensures
        inside == state::in_irouter(reg),
{
    GICD_IROUTER <= reg && reg < GICD_IROUTER + 0x2000
}

impl Distributor {
    fn write32(&mut self, reg: u16, value: u32) -> (handled: bool)
        requires
            old(self)@.wf(),
        ensures
            final(self)@.wf(),
            final(self)@ == old(self)@.write32(reg, value),
            handled == state::takes_write32(reg),
            !handled ==> final(self)@ == old(self)@,
    {
        if reg == GICD_CTLR {
            self.state.enable_grp0 = value & GICD_CTLR_ENABLE_GRP0 != 0;
            self.state.enable_grp1 = value & GICD_CTLR_ENABLE_GRP1 != 0;
        } else if bitmap_contains(GICD_IGROUPR, reg) {
            let n: usize = ((reg - GICD_IGROUPR) / 4) as usize;
            set_word(&mut self.state.group, 1, n, value);
        } else if bitmap_contains(GICD_ISENABLER, reg) {
            let n: usize = ((reg - GICD_ISENABLER) / 4) as usize;
            let enable: u32 = get_word(&self.state.enable, n);
            set_word(&mut self.state.enable, 1, n, enable | value);
        } else if bitmap_contains(GICD_ICENABLER, reg) {
            let n: usize = ((reg - GICD_ICENABLER) / 4) as usize;
            let enable: u32 = get_word(&self.state.enable, n);
            set_word(&mut self.state.enable, 1, n, enable & !value);
        } else if bitmap_contains(GICD_ISPENDR, reg) {
            let n: usize = ((reg - GICD_ISPENDR) / 4) as usize;
            let pending: u32 = get_word(&self.state.pending, n);
            set_word(&mut self.state.pending, 1, n, pending | value);
        } else if bitmap_contains(GICD_ICPENDR, reg) {
            let n: usize = ((reg - GICD_ICPENDR) / 4) as usize;
            let pending: u32 = get_word(&self.state.pending, n);
            set_word(&mut self.state.pending, 1, n, pending & !value);
        } else if bitmap_contains(GICD_ISACTIVER, reg) {
            let n: usize = ((reg - GICD_ISACTIVER) / 4) as usize;
            let active: u32 = get_word(&self.state.active, n);
            set_word(&mut self.state.active, 1, n, active | value);
        } else if bitmap_contains(GICD_ICACTIVER, reg) {
            let n: usize = ((reg - GICD_ICACTIVER) / 4) as usize;
            let active: u32 = get_word(&self.state.active, n);
            set_word(&mut self.state.active, 1, n, active & !value);
        } else if ipriorityr_contains(reg) {
            let n: usize = ((reg - GICD_IPRIORITYR) / 4) as usize;
            set_word(&mut self.state.priority, 8, n, value);
        } else if icfgr_contains(reg) {
            let n: usize = ((reg - GICD_ICFGR) / 4) as usize;
            // The low bit of each bit pair is res0.
            set_word(&mut self.state.cfg, 2, n, value & ICFGR_TRIGGER_MASK);
        } else {
            return false;
        }
        true
    }

    fn read32(&self, reg: u16) -> (value: Option<u32>)
        ensures
            value == self@.read32(reg),
    {
        let value: u32 = if reg == GICD_PIDR2 {
            PIDR2_GICV3
        } else if reg == GICD_TYPER {
            GICD_TYPER_VALUE
        } else if reg == GICD_IIDR || reg == GICD_TYPER2 {
            0
        } else if reg == GICD_CTLR {
            let mut ctlr: u32 = GICD_CTLR_ARE + GICD_CTLR_DS;
            if self.state.enable_grp0 {
                ctlr = ctlr + GICD_CTLR_ENABLE_GRP0;
            }
            if self.state.enable_grp1 {
                ctlr = ctlr + GICD_CTLR_ENABLE_GRP1;
            }
            ctlr
        } else if bitmap_contains(GICD_IGROUPR, reg) {
            get_word(&self.state.group, ((reg - GICD_IGROUPR) / 4) as usize)
        } else if bitmap_contains(GICD_ISENABLER, reg) {
            get_word(&self.state.enable, ((reg - GICD_ISENABLER) / 4) as usize)
        } else if bitmap_contains(GICD_ICENABLER, reg) {
            get_word(&self.state.enable, ((reg - GICD_ICENABLER) / 4) as usize)
        } else if bitmap_contains(GICD_ISPENDR, reg) {
            get_word(&self.state.pending, ((reg - GICD_ISPENDR) / 4) as usize)
        } else if bitmap_contains(GICD_ICPENDR, reg) {
            get_word(&self.state.pending, ((reg - GICD_ICPENDR) / 4) as usize)
        } else if bitmap_contains(GICD_ISACTIVER, reg) {
            get_word(&self.state.active, ((reg - GICD_ISACTIVER) / 4) as usize)
        } else if bitmap_contains(GICD_ICACTIVER, reg) {
            get_word(&self.state.active, ((reg - GICD_ICACTIVER) / 4) as usize)
        } else if ipriorityr_contains(reg) {
            get_word(&self.state.priority, ((reg - GICD_IPRIORITYR) / 4) as usize)
        } else if icfgr_contains(reg) {
            get_word(&self.state.cfg, ((reg - GICD_ICFGR) / 4) as usize)
        } else {
            return None;
        };
        Some(value)
    }

    fn write64(&mut self, reg: u16, value: u64) -> (handled: bool)
        requires
            old(self)@.wf(),
        ensures
            final(self)@.wf(),
            final(self)@ == old(self)@.write64(reg, value),
            handled == state::in_irouter(reg),
            !handled ==> final(self)@ == old(self)@,
    {
        if !irouter_contains(reg) {
            return false;
        }
        let n: usize = ((reg - GICD_IROUTER) / 8) as usize;
        if n >= 32 && n < self.state.route.len() {
            self.state.route[n] = value;
        }
        true
    }

    fn read64(&self, reg: u16) -> (value: Option<u64>)
        ensures
            value == self@.read64(reg),
    {
        if !irouter_contains(reg) {
            return None;
        }
        let n: usize = ((reg - GICD_IROUTER) / 8) as usize;
        if n < self.state.route.len() {
            Some(self.state.route[n])
        } else {
            Some(0)
        }
    }

    /// Reads guest memory at `address`. Returns whether it is in one of the
    /// two ranges; where it is not, `data` stays as it is.
    pub fn read(&self, address: u64, data: &mut [u8]) -> (handled: bool)
        requires
            self@.wf(),
            self@.has_frame(address) ==> old(data)@.len() > 0,
        ensures
            handled == self@.claims(address),
            final(data)@ == (if handled {
                self@.read(address, old(data)@.len())
            } else {
                old(data)@
            }),
    {
        if self.gicd_range.contains_addr(address) {
            self.read_gicd(address - self.gicd_range.start(), data);
        } else if self.gicr_range.contains_addr(address) {
            let offset: u64 = address - self.gicr_range.start();
            let vp: u64 = offset / GIC_REDISTRIBUTOR_SIZE;
            if vp < self.gicr.len() as u64 {
                self.gicr[vp as usize].read(offset, data);
            } else {
                bytes::fill(data, 0);
            }
        } else {
            return false;
        }
        true
    }

    fn read_gicd(&self, address: u64, data: &mut [u8])
        requires
            old(data)@.len() > 0,
        ensures
            final(data)@ == self@.read_gicd(address, old(data)@.len()),
    {
        if address & (data.len() as u64 - 1) != 0 {
            bytes::fill(data, 0xff);
            return ;
        }
        let reg: u16 = address as u16;
        let handled = if data.len() == 4 {
            match self.read32(reg) {
                Some(v) => {
                    proof {
                        bytes::lemma_pow256();
                    }
                    bytes::write_le(data, v as u64);
                    true
                },
                None => false,
            }
        } else if data.len() == 8 {
            match self.read64(reg) {
                Some(v) => {
                    proof {
                        bytes::lemma_pow256();
                    }
                    bytes::write_le(data, v);
                    true
                },
                None => false,
            }
        } else {
            false
        };
        if !handled {
            bytes::fill(data, 0);
        }
    }

    /// Writes guest memory at `address`. Returns whether it is in one of the
    /// two ranges.
    pub fn write(&mut self, address: u64, data: &[u8]) -> (handled: bool)
        requires
            old(self)@.wf(),
            old(self)@.has_frame(address) ==> data@.len() > 0,
        ensures
            final(self)@.wf(),
            handled == old(self)@.claims(address),
            final(self)@ == (if handled {
                old(self)@.write(address, data@)
            } else {
                old(self)@
            }),
    {
        if self.gicd_range.contains_addr(address) {
            self.write_gicd(address - self.gicd_range.start(), data);
        } else if self.gicr_range.contains_addr(address) {
            let offset: u64 = address - self.gicr_range.start();
            let vp: u64 = offset / GIC_REDISTRIBUTOR_SIZE;
            if vp < self.gicr.len() as u64 {
                let ghost before = self@;
                let i: usize = vp as usize;
                self.gicr[i].write(offset, data);
                proof {
                    self.gicr@[i as int].lemma_wf();
                    assert(self@.redistributors =~= before.redistributors.update(
                        i as int,
                        before.redistributors[i as int].write(offset, data@),
                    ));
                }
            }
        } else {
            return false;
        }
        true
    }

    fn write_gicd(&mut self, address: u64, data: &[u8])
        requires
            old(self)@.wf(),
            data@.len() > 0,
        ensures
            final(self)@.wf(),
            final(self)@ == old(self)@.write_gicd(address, data@),
    {
        if address & (data.len() as u64 - 1) != 0 {
            return ;
        }
        proof {
            bytes::lemma_pow256();
            bytes::lemma_le_value_bound(data@);
        }
        let reg: u16 = address as u16;
        if data.len() == 4 {
            let value: u64 = bytes::read_le(data);
            self.write32(reg, value as u32);
        } else if data.len() == 8 {
            let value: u64 = bytes::read_le(data);
            self.write64(reg, value);
        }
    }
}

} // verus!
