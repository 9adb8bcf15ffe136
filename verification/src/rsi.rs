//! The Realm Service Interface: the pages through which the paravisor tells the
//! realm monitor how to enter a plane, and learns why it was left.

use crate::bytes;
use vstd::prelude::*;

verus! {

/// CCA memory permission index, used to set and get Stage 2 memory access permissions
/// via the RSI interface.
#[derive(Clone, Copy, Debug, PartialEq, Eq, Structural)]
pub enum CcaMemPermIndex {
    Index0,
    Index1,
    Index2,
    Index3,
    Index4,
    Index5,
    Index6,
    Index7,
    Index8,
    Index9,
    Index10,
    Index11,
    Index12,
    Index13,
    Index14,
}

impl Default for CcaMemPermIndex {
    fn default() -> (index: CcaMemPermIndex)
        ensures
            index == CcaMemPermIndex::Index14,
    {
        CcaMemPermIndex::Index14
    }
}

pub const RSI_PLANE_NR_GPRS: usize = 31;

pub const RSI_PLANE_GIC_NUM_LRS: usize = 16;

/// Asks to leave the plane at its next SIMD instruction.
pub const RSI_PLANE_ENTER_FLAGS_TRAP_SIMD: u64 = 0x10;

/// Layout for the realm configuration page shared with the kernel driver.
#[allow(non_camel_case_types)]
pub struct cca_realm_config {
    pub ipa_width: u64,
    pub algorithm: u64,
    pub num_aux_planes: u64,
    pub gicv3_vtr: u64,
    pub pad1: [u8; 0xfe0],
}

impl cca_realm_config {
    /// The bytes of the page.
    pub open spec fn encode(&self) -> Seq<u8> {
        bytes::words_le(
            seq![self.ipa_width, self.algorithm, self.num_aux_planes, self.gicv3_vtr],
        ) + self.pad1@
    }

    pub fn empty() -> (config: Self)
        ensures
            config.ipa_width == 0,
            config.algorithm == 0,
            config.num_aux_planes == 0,
            config.gicv3_vtr == 0,
            config.pad1@ == Seq::new(0xfe0, |i: int| 0u8),
    {
        cca_realm_config {
            ipa_width: 0,
            algorithm: 0,
            num_aux_planes: 0,
            gicv3_vtr: 0,
            pad1: [0; 0xfe0],
        }
    }

    /// The bytes of the page.
    pub fn to_bytes(&self) -> (page: Vec<u8>)
        ensures
            page@ == self.encode(),
            page@.len() == 0x1000,
    {
        let head: [u64; 4] = [
            self.ipa_width,
            self.algorithm,
            self.num_aux_planes,
            self.gicv3_vtr,
        ];
        let mut out: Vec<u8> = Vec::new();
        bytes::push_words(&mut out, &head);
        bytes::push_bytes(&mut out, &self.pad1);
        proof {
            assert(head@ =~= seq![
                self.ipa_width,
                self.algorithm,
                self.num_aux_planes,
                self.gicv3_vtr,
            ]);
            bytes::lemma_words_len(head@);
            assert(out@ =~= self.encode());
        }
        out
    }

    /// The page that `data` holds.
    pub fn from_bytes(data: &[u8]) -> (config: Self)
        requires
            data@.len() == 0x1000,
        ensures
            config.encode() == data@,
    {
        let mut head: [u64; 4] = [0; 4];
        let mut pad1: [u8; 0xfe0] = [0; 0xfe0];
        bytes::read_words(data, 0, &mut head);
        bytes::read_bytes(data, 0x20, &mut pad1);
        let config = cca_realm_config {
            ipa_width: head[0],
            algorithm: head[1],
            num_aux_planes: head[2],
            gicv3_vtr: head[3],
            pad1,
        };
        proof {
            assert(head@ =~= seq![
                config.ipa_width,
                config.algorithm,
                config.num_aux_planes,
                config.gicv3_vtr,
            ]);
            assert(config.encode() =~= data@);
        }
        config
    }
}

/// Flattened RSI plane entry buffer layout.
#[allow(non_camel_case_types)]
pub struct cca_rsi_plane_entry {
    pub flags: u64,
    pub pc: u64,
    pub pstate: u64,
    pub pad0: [u8; 0xe8],
    pub gprs: [u64; RSI_PLANE_NR_GPRS],
    pub pad2: [u8; 8],
    pub gicv3_hcr: u64,
    pub gicv3_lrs: [u64; RSI_PLANE_GIC_NUM_LRS],
    pub pad3: [u8; 0x78],
}

impl cca_rsi_plane_entry {
    /// The bytes of the buffer.
    pub open spec fn encode(&self) -> Seq<u8> {
        bytes::words_le(seq![self.flags, self.pc, self.pstate]) + self.pad0@ + bytes::words_le(
            self.gprs@,
        ) + self.pad2@ + bytes::words_le(seq![self.gicv3_hcr]) + bytes::words_le(self.gicv3_lrs@)
            + self.pad3@
    }

    /// The buffer takes three blocks of 256 bytes.
    pub proof fn lemma_size(&self)
        ensures
            self.encode().len() == 0x300,
    {
        bytes::lemma_words_len(seq![self.flags, self.pc, self.pstate]);
        bytes::lemma_words_len(self.gprs@);
        bytes::lemma_words_len(seq![self.gicv3_hcr]);
        bytes::lemma_words_len(self.gicv3_lrs@);
    }

    fn push(&self, out: &mut Vec<u8>)
        ensures
            final(out)@ == old(out)@ + self.encode(),
    {
        let head: [u64; 3] = [self.flags, self.pc, self.pstate];
        let hcr: [u64; 1] = [self.gicv3_hcr];
        bytes::push_words(out, &head);
        bytes::push_bytes(out, &self.pad0);
        bytes::push_words(out, &self.gprs);
        bytes::push_bytes(out, &self.pad2);
        bytes::push_words(out, &hcr);
        bytes::push_words(out, &self.gicv3_lrs);
        bytes::push_bytes(out, &self.pad3);
        proof {
            assert(head@ =~= seq![self.flags, self.pc, self.pstate]);
            assert(hcr@ =~= seq![self.gicv3_hcr]);
            assert(out@ =~= old(out)@ + self.encode());
        }
    }

    /// The bytes of the buffer.
    pub fn to_bytes(&self) -> (buffer: Vec<u8>)
        ensures
            buffer@ == self.encode(),
            buffer@.len() == 0x300,
    {
        let mut out: Vec<u8> = Vec::new();
        self.push(&mut out);
        proof {
            self.lemma_size();
            assert(out@ =~= self.encode());
        }
        out
    }

    /// The buffer that `data` holds.
    pub fn from_bytes(data: &[u8]) -> (entry: Self)
        requires
            data@.len() == 0x300,
        ensures
            entry.encode() == data@,
    {
        let mut head: [u64; 3] = [0; 3];
        let mut pad0: [u8; 0xe8] = [0; 0xe8];
        let mut gprs: [u64; RSI_PLANE_NR_GPRS] = [0; RSI_PLANE_NR_GPRS];
        let mut pad2: [u8; 8] = [0; 8];
        let mut hcr: [u64; 1] = [0; 1];
        let mut gicv3_lrs: [u64; RSI_PLANE_GIC_NUM_LRS] = [0; RSI_PLANE_GIC_NUM_LRS];
        let mut pad3: [u8; 0x78] = [0; 0x78];
        bytes::read_words(data, 0, &mut head);
        bytes::read_bytes(data, 0x18, &mut pad0);
        bytes::read_words(data, 0x100, &mut gprs);
        bytes::read_bytes(data, 0x1f8, &mut pad2);
        bytes::read_words(data, 0x200, &mut hcr);
        bytes::read_words(data, 0x208, &mut gicv3_lrs);
        bytes::read_bytes(data, 0x288, &mut pad3);
        let entry = cca_rsi_plane_entry {
            flags: head[0],
            pc: head[1],
            pstate: head[2],
            pad0,
            gprs,
            pad2,
            gicv3_hcr: hcr[0],
            gicv3_lrs,
            pad3,
        };
        proof {
            assert(head@ =~= seq![entry.flags, entry.pc, entry.pstate]);
            assert(hcr@ =~= seq![entry.gicv3_hcr]);
            assert(entry.encode() =~= data@);
        }
        entry
    }
}

/// Flattened RSI plane exit buffer layout.
#[allow(non_camel_case_types)]
#[derive(Debug)]
pub struct cca_rsi_plane_exit {
    pub exit_reason: u64,
    pub pad1: [u8; 0xf8],
    pub elr_el2: u64,
    pub esr_el2: u64,
    pub far_el2: u64,
    pub hpfar_el2: u64,
    pub pstate: u64,
    pub pad2: [u8; 0xd8],
    pub gprs: [u64; RSI_PLANE_NR_GPRS],
    pub pad3: [u8; 8],
    pub gicv3_hcr: u64,
    pub gicv3_lrs: [u64; RSI_PLANE_GIC_NUM_LRS],
    pub gicv3_misr: u64,
    pub gicv3_vmcr: u64,
    pub cntp_ctl_el0: u64,
    pub cntp_cval_el0: u64,
    pub cntv_ctl_el0: u64,
    pub cntv_cval_el0: u64,
    pub pad4: [u8; 0x48],
}

impl cca_rsi_plane_exit {
    /// The bytes of the buffer.
    pub open spec fn encode(&self) -> Seq<u8> {
        bytes::words_le(seq![self.exit_reason]) + self.pad1@ + bytes::words_le(
            seq![self.elr_el2, self.esr_el2, self.far_el2, self.hpfar_el2, self.pstate],
        ) + self.pad2@ + bytes::words_le(self.gprs@) + self.pad3@ + bytes::words_le(
            seq![self.gicv3_hcr],
        ) + bytes::words_le(self.gicv3_lrs@) + bytes::words_le(
            seq![
                self.gicv3_misr,
                self.gicv3_vmcr,
                self.cntp_ctl_el0,
                self.cntp_cval_el0,
                self.cntv_ctl_el0,
                self.cntv_cval_el0,
            ],
        ) + self.pad4@
    }

    /// The buffer takes four blocks of 256 bytes.
    pub proof fn lemma_size(&self)
        ensures
            self.encode().len() == 0x400,
    {
        bytes::lemma_words_len(seq![self.exit_reason]);
        bytes::lemma_words_len(
            seq![self.elr_el2, self.esr_el2, self.far_el2, self.hpfar_el2, self.pstate],
        );
        bytes::lemma_words_len(self.gprs@);
        bytes::lemma_words_len(seq![self.gicv3_hcr]);
        bytes::lemma_words_len(self.gicv3_lrs@);
        bytes::lemma_words_len(
            seq![
                self.gicv3_misr,
                self.gicv3_vmcr,
                self.cntp_ctl_el0,
                self.cntp_cval_el0,
                self.cntv_ctl_el0,
                self.cntv_cval_el0,
            ],
        );
    }

    fn push(&self, out: &mut Vec<u8>)
        ensures
            final(out)@ == old(out)@ + self.encode(),
    {
        let reason: [u64; 1] = [self.exit_reason];
        let syndrome: [u64; 5] = [
            self.elr_el2,
            self.esr_el2,
            self.far_el2,
            self.hpfar_el2,
            self.pstate,
        ];
        let hcr: [u64; 1] = [self.gicv3_hcr];
        let timers: [u64; 6] = [
            self.gicv3_misr,
            self.gicv3_vmcr,
            self.cntp_ctl_el0,
            self.cntp_cval_el0,
            self.cntv_ctl_el0,
            self.cntv_cval_el0,
        ];
        bytes::push_words(out, &reason);
        bytes::push_bytes(out, &self.pad1);
        bytes::push_words(out, &syndrome);
        bytes::push_bytes(out, &self.pad2);
        bytes::push_words(out, &self.gprs);
        bytes::push_bytes(out, &self.pad3);
        bytes::push_words(out, &hcr);
        bytes::push_words(out, &self.gicv3_lrs);
        bytes::push_words(out, &timers);
        bytes::push_bytes(out, &self.pad4);
        proof {
            assert(reason@ =~= seq![self.exit_reason]);
            assert(syndrome@ =~= seq![
                self.elr_el2,
                self.esr_el2,
                self.far_el2,
                self.hpfar_el2,
                self.pstate,
            ]);
            assert(hcr@ =~= seq![self.gicv3_hcr]);
            assert(timers@ =~= seq![
                self.gicv3_misr,
                self.gicv3_vmcr,
                self.cntp_ctl_el0,
                self.cntp_cval_el0,
                self.cntv_ctl_el0,
                self.cntv_cval_el0,
            ]);
            assert(out@ =~= old(out)@ + self.encode());
        }
    }

    /// The bytes of the buffer.
    pub fn to_bytes(&self) -> (buffer: Vec<u8>)
        ensures
            buffer@ == self.encode(),
            buffer@.len() == 0x400,
    {
        let mut out: Vec<u8> = Vec::new();
        self.push(&mut out);
        proof {
            self.lemma_size();
            assert(out@ =~= self.encode());
        }
        out
    }

    /// The buffer that `data` holds.
    pub fn from_bytes(data: &[u8]) -> (exit: Self)
        requires
            data@.len() == 0x400,
        ensures
            exit.encode() == data@,
    {
        let mut reason: [u64; 1] = [0; 1];
        let mut pad1: [u8; 0xf8] = [0; 0xf8];
        let mut syndrome: [u64; 5] = [0; 5];
        let mut pad2: [u8; 0xd8] = [0; 0xd8];
        let mut gprs: [u64; RSI_PLANE_NR_GPRS] = [0; RSI_PLANE_NR_GPRS];
        let mut pad3: [u8; 8] = [0; 8];
        let mut hcr: [u64; 1] = [0; 1];
        let mut gicv3_lrs: [u64; RSI_PLANE_GIC_NUM_LRS] = [0; RSI_PLANE_GIC_NUM_LRS];
        let mut timers: [u64; 6] = [0; 6];
        let mut pad4: [u8; 0x48] = [0; 0x48];
        bytes::read_words(data, 0, &mut reason);
        bytes::read_bytes(data, 8, &mut pad1);
        bytes::read_words(data, 0x100, &mut syndrome);
        bytes::read_bytes(data, 0x128, &mut pad2);
        bytes::read_words(data, 0x200, &mut gprs);
        bytes::read_bytes(data, 0x2f8, &mut pad3);
        bytes::read_words(data, 0x300, &mut hcr);
        bytes::read_words(data, 0x308, &mut gicv3_lrs);
        bytes::read_words(data, 0x388, &mut timers);
        bytes::read_bytes(data, 0x3b8, &mut pad4);
        let exit = cca_rsi_plane_exit {
            exit_reason: reason[0],
            pad1,
            elr_el2: syndrome[0],
            esr_el2: syndrome[1],
            far_el2: syndrome[2],
            hpfar_el2: syndrome[3],
            pstate: syndrome[4],
            pad2,
            gprs,
            pad3,
            gicv3_hcr: hcr[0],
            gicv3_lrs,
            gicv3_misr: timers[0],
            gicv3_vmcr: timers[1],
            cntp_ctl_el0: timers[2],
            cntp_cval_el0: timers[3],
            cntv_ctl_el0: timers[4],
            cntv_cval_el0: timers[5],
            pad4,
        };
        proof {
            assert(reason@ =~= seq![exit.exit_reason]);
            assert(syndrome@ =~= seq![
                exit.elr_el2,
                exit.esr_el2,
                exit.far_el2,
                exit.hpfar_el2,
                exit.pstate,
            ]);
            assert(hcr@ =~= seq![exit.gicv3_hcr]);
            assert(timers@ =~= seq![
                exit.gicv3_misr,
                exit.gicv3_vmcr,
                exit.cntp_ctl_el0,
                exit.cntp_cval_el0,
                exit.cntv_ctl_el0,
                exit.cntv_cval_el0,
            ]);
            assert(exit.encode() =~= data@);
        }
        exit
    }
}

/// Combined RSI plane run page layout.
#[allow(non_camel_case_types)]
pub struct cca_rsi_plane_run {
    pub entry: cca_rsi_plane_entry,
    pub pad4: [u8; 0x500],
    pub exit: cca_rsi_plane_exit,
    pub pad9: [u8; 0x400],
}

impl cca_rsi_plane_run {
    /// The bytes of the page.
    pub open spec fn encode(&self) -> Seq<u8> {
        self.entry.encode() + self.pad4@ + self.exit.encode() + self.pad9@
    }

    /// The bytes of the page.
    pub fn to_bytes(&self) -> (page: Vec<u8>)
        ensures
            page@ == self.encode(),
            page@.len() == 0x1000,
    {
        let mut out: Vec<u8> = Vec::new();
        self.entry.push(&mut out);
        bytes::push_bytes(&mut out, &self.pad4);
        self.exit.push(&mut out);
        bytes::push_bytes(&mut out, &self.pad9);
        proof {
            self.entry.lemma_size();
            self.exit.lemma_size();
            assert(out@ =~= self.encode());
        }
        out
    }

    /// The page that `data` holds.
    pub fn from_bytes(data: &[u8]) -> (run: Self)
        requires
            data@.len() == 0x1000,
        ensures
            run.encode() == data@,
    {
        let mut pad4: [u8; 0x500] = [0; 0x500];
        let mut pad9: [u8; 0x400] = [0; 0x400];
        bytes::read_bytes(data, 0x300, &mut pad4);
        bytes::read_bytes(data, 0xc00, &mut pad9);
        let run = cca_rsi_plane_run {
            entry: cca_rsi_plane_entry::from_bytes(vstd::slice::slice_subrange(data, 0, 0x300)),
            pad4,
            exit: cca_rsi_plane_exit::from_bytes(vstd::slice::slice_subrange(data, 0x800, 0xc00)),
            pad9,
        };
        proof {
            assert(run.encode() =~= data@);
        }
        run
    }
}

/// A plane run page holds one entry and one exit: pages with the same bytes
/// have the same fields.
pub proof fn plane_run_is_its_bytes(a: cca_rsi_plane_run, b: cca_rsi_plane_run)
    requires
        a.encode() == b.encode(),
    ensures
        a == b,
{
    a.entry.lemma_size();
    a.exit.lemma_size();
    b.entry.lemma_size();
    b.exit.lemma_size();
    assert(a.encode().subrange(0, 0x300) =~= a.entry.encode());
    assert(b.encode().subrange(0, 0x300) =~= b.entry.encode());
    assert(a.encode().subrange(0x300, 0x800) =~= a.pad4@);
    assert(b.encode().subrange(0x300, 0x800) =~= b.pad4@);
    assert(a.encode().subrange(0x800, 0xc00) =~= a.exit.encode());
    assert(b.encode().subrange(0x800, 0xc00) =~= b.exit.encode());
    assert(a.encode().subrange(0xc00, 0x1000) =~= a.pad9@);
    assert(b.encode().subrange(0xc00, 0x1000) =~= b.pad9@);
    plane_entry_is_its_bytes(a.entry, b.entry);
    plane_exit_is_its_bytes(a.exit, b.exit);
    assert(a.pad4 =~= b.pad4);
    assert(a.pad9 =~= b.pad9);
}

/// Entry buffers with the same bytes have the same fields.
pub proof fn plane_entry_is_its_bytes(a: cca_rsi_plane_entry, b: cca_rsi_plane_entry)
    requires
        a.encode() == b.encode(),
    ensures
        a == b,
{
    let head = |e: cca_rsi_plane_entry| seq![e.flags, e.pc, e.pstate];
    let hcr = |e: cca_rsi_plane_entry| seq![e.gicv3_hcr];
    a.lemma_size();
    b.lemma_size();
    bytes::lemma_words_len(head(a));
    bytes::lemma_words_len(head(b));
    bytes::lemma_words_len(a.gprs@);
    bytes::lemma_words_len(b.gprs@);
    bytes::lemma_words_len(hcr(a));
    bytes::lemma_words_len(hcr(b));
    bytes::lemma_words_len(a.gicv3_lrs@);
    bytes::lemma_words_len(b.gicv3_lrs@);
    assert(a.encode().subrange(0, 0x18) =~= bytes::words_le(head(a)));
    assert(b.encode().subrange(0, 0x18) =~= bytes::words_le(head(b)));
    bytes::lemma_words_injective(head(a), head(b));
    assert(head(a)[0] == head(b)[0] && head(a)[1] == head(b)[1] && head(a)[2] == head(b)[2]);
    assert(a.encode().subrange(0x18, 0x100) =~= a.pad0@);
    assert(b.encode().subrange(0x18, 0x100) =~= b.pad0@);
    assert(a.encode().subrange(0x100, 0x1f8) =~= bytes::words_le(a.gprs@));
    assert(b.encode().subrange(0x100, 0x1f8) =~= bytes::words_le(b.gprs@));
    bytes::lemma_words_injective(a.gprs@, b.gprs@);
    assert(a.encode().subrange(0x1f8, 0x200) =~= a.pad2@);
    assert(b.encode().subrange(0x1f8, 0x200) =~= b.pad2@);
    assert(a.encode().subrange(0x200, 0x208) =~= bytes::words_le(hcr(a)));
    assert(b.encode().subrange(0x200, 0x208) =~= bytes::words_le(hcr(b)));
    bytes::lemma_words_injective(hcr(a), hcr(b));
    assert(hcr(a)[0] == hcr(b)[0]);
    assert(a.encode().subrange(0x208, 0x288) =~= bytes::words_le(a.gicv3_lrs@));
    assert(b.encode().subrange(0x208, 0x288) =~= bytes::words_le(b.gicv3_lrs@));
    bytes::lemma_words_injective(a.gicv3_lrs@, b.gicv3_lrs@);
    assert(a.encode().subrange(0x288, 0x300) =~= a.pad3@);
    assert(b.encode().subrange(0x288, 0x300) =~= b.pad3@);
    assert(a.pad0 =~= b.pad0 && a.gprs =~= b.gprs && a.pad2 =~= b.pad2);
    assert(a.gicv3_lrs =~= b.gicv3_lrs && a.pad3 =~= b.pad3);
}

/// Exit buffers with the same bytes have the same fields.
pub proof fn plane_exit_is_its_bytes(a: cca_rsi_plane_exit, b: cca_rsi_plane_exit)
    requires
        a.encode() == b.encode(),
    ensures
        a == b,
{
    let reason = |e: cca_rsi_plane_exit| seq![e.exit_reason];
    let syndrome = |e: cca_rsi_plane_exit|
        seq![e.elr_el2, e.esr_el2, e.far_el2, e.hpfar_el2, e.pstate];
    let hcr = |e: cca_rsi_plane_exit| seq![e.gicv3_hcr];
    let timers = |e: cca_rsi_plane_exit|
        seq![
            e.gicv3_misr,
            e.gicv3_vmcr,
            e.cntp_ctl_el0,
            e.cntp_cval_el0,
            e.cntv_ctl_el0,
            e.cntv_cval_el0,
        ];
    a.lemma_size();
    b.lemma_size();
    bytes::lemma_words_len(reason(a));
    bytes::lemma_words_len(reason(b));
    bytes::lemma_words_len(syndrome(a));
    bytes::lemma_words_len(syndrome(b));
    bytes::lemma_words_len(a.gprs@);
    bytes::lemma_words_len(b.gprs@);
    bytes::lemma_words_len(hcr(a));
    bytes::lemma_words_len(hcr(b));
    bytes::lemma_words_len(a.gicv3_lrs@);
    bytes::lemma_words_len(b.gicv3_lrs@);
    bytes::lemma_words_len(timers(a));
    bytes::lemma_words_len(timers(b));
    assert(a.encode().subrange(0, 8) =~= bytes::words_le(reason(a)));
    assert(b.encode().subrange(0, 8) =~= bytes::words_le(reason(b)));
    bytes::lemma_words_injective(reason(a), reason(b));
    assert(reason(a)[0] == reason(b)[0]);
    assert(a.encode().subrange(8, 0x100) =~= a.pad1@);
    assert(b.encode().subrange(8, 0x100) =~= b.pad1@);
    assert(a.encode().subrange(0x100, 0x128) =~= bytes::words_le(syndrome(a)));
    assert(b.encode().subrange(0x100, 0x128) =~= bytes::words_le(syndrome(b)));
    bytes::lemma_words_injective(syndrome(a), syndrome(b));
    assert(syndrome(a)[0] == syndrome(b)[0] && syndrome(a)[1] == syndrome(b)[1]);
    assert(syndrome(a)[2] == syndrome(b)[2] && syndrome(a)[3] == syndrome(b)[3]);
    assert(syndrome(a)[4] == syndrome(b)[4]);
    assert(a.encode().subrange(0x128, 0x200) =~= a.pad2@);
    assert(b.encode().subrange(0x128, 0x200) =~= b.pad2@);
    assert(a.encode().subrange(0x200, 0x2f8) =~= bytes::words_le(a.gprs@));
    assert(b.encode().subrange(0x200, 0x2f8) =~= bytes::words_le(b.gprs@));
    bytes::lemma_words_injective(a.gprs@, b.gprs@);
    assert(a.encode().subrange(0x2f8, 0x300) =~= a.pad3@);
    assert(b.encode().subrange(0x2f8, 0x300) =~= b.pad3@);
    assert(a.encode().subrange(0x300, 0x308) =~= bytes::words_le(hcr(a)));
    assert(b.encode().subrange(0x300, 0x308) =~= bytes::words_le(hcr(b)));
    bytes::lemma_words_injective(hcr(a), hcr(b));
    assert(hcr(a)[0] == hcr(b)[0]);
    assert(a.encode().subrange(0x308, 0x388) =~= bytes::words_le(a.gicv3_lrs@));
    assert(b.encode().subrange(0x308, 0x388) =~= bytes::words_le(b.gicv3_lrs@));
    bytes::lemma_words_injective(a.gicv3_lrs@, b.gicv3_lrs@);
    assert(a.encode().subrange(0x388, 0x3b8) =~= bytes::words_le(timers(a)));
    assert(b.encode().subrange(0x388, 0x3b8) =~= bytes::words_le(timers(b)));
    bytes::lemma_words_injective(timers(a), timers(b));
    assert(timers(a)[0] == timers(b)[0] && timers(a)[1] == timers(b)[1]);
    assert(timers(a)[2] == timers(b)[2] && timers(a)[3] == timers(b)[3]);
    assert(timers(a)[4] == timers(b)[4] && timers(a)[5] == timers(b)[5]);
    assert(a.encode().subrange(0x3b8, 0x400) =~= a.pad4@);
    assert(b.encode().subrange(0x3b8, 0x400) =~= b.pad4@);
    assert(a.pad1 =~= b.pad1 && a.pad2 =~= b.pad2 && a.gprs =~= b.gprs);
    assert(a.pad3 =~= b.pad3 && a.gicv3_lrs =~= b.gicv3_lrs && a.pad4 =~= b.pad4);
}

} // verus!
