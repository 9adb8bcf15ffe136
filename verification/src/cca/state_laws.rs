//! Where the state of a plane lies: the registers in the pages that are shared
//! with the realm monitor, and what is asked of the kernel driver for them.

use super::exit::RSI_PLANE_EXIT_INVALID;
use super::plane::{HvRegisterName, DEFAULT_PSTATE};
use super::processor::ICH_HCR_TC;
use super::vp_state;
use super::vp_state::{Registers, SystemRegisters};
use crate::bytes;
use crate::memory_range::PAGE_SIZE;
use crate::rsi::{
    cca_realm_config, cca_rsi_plane_entry, cca_rsi_plane_exit, cca_rsi_plane_run,
    RSI_PLANE_ENTER_FLAGS_TRAP_SIMD,
};
use crate::sysreg::SystemReg;
use vstd::arithmetic::power2;
use vstd::prelude::*;

verus! {

/// Where the words of an entry buffer lie: the flags at 0, the program counter at
/// 8, the processor state at 0x10, the 31 registers from 0x100 on, the interrupt
/// control at 0x200 and the 16 list registers behind it.
pub proof fn entry_layout(entry: cca_rsi_plane_entry, i: int)
    ensures
        ({
            let page = entry.encode();
            &&& page.len() == 0x300
            &&& bytes::word_from(page, 0) == entry.flags
            &&& bytes::word_from(page, 8) == entry.pc
            &&& bytes::word_from(page, 0x10) == entry.pstate
            &&& 0 <= i < 31 ==> bytes::word_from(page, 0x100 + 8 * i) == entry.gprs@[i]
            &&& bytes::word_from(page, 0x200) == entry.gicv3_hcr
            &&& 0 <= i < 16 ==> bytes::word_from(page, 0x208 + 8 * i) == entry.gicv3_lrs@[i]
        }),
{
    let head = seq![entry.flags, entry.pc, entry.pstate];
    let hcr = seq![entry.gicv3_hcr];
    entry.lemma_size();
    bytes::words_are_eight_bytes_apart(head, 0);
    bytes::words_are_eight_bytes_apart(head, 1);
    bytes::words_are_eight_bytes_apart(head, 2);
    bytes::words_are_eight_bytes_apart(hcr, 0);
    bytes::lemma_words_len(entry.gprs@);
    bytes::lemma_words_len(entry.gicv3_lrs@);
    let a = bytes::words_le(head);
    let b = a + entry.pad0@;
    let c = b + bytes::words_le(entry.gprs@);
    let d = c + entry.pad2@;
    let e = d + bytes::words_le(hcr);
    let f = e + bytes::words_le(entry.gicv3_lrs@);
    let page = f + entry.pad3@;
    assert(page == entry.encode());
    assert forall|k: int| 0 <= k < 0x18 implies page[k] == a[k] by {}
    assert forall|k: int| 0x200 <= k < 0x208 implies page[k] == bytes::words_le(hcr)[k - 0x200] by {}
    if 0 <= i < 31 {
        bytes::words_are_eight_bytes_apart(entry.gprs@, i);
        assert forall|k: int| 0x100 <= k < 0x1f8 implies page[k] == bytes::words_le(entry.gprs@)[k
            - 0x100] by {}
    }
    if 0 <= i < 16 {
        bytes::words_are_eight_bytes_apart(entry.gicv3_lrs@, i);
        assert forall|k: int| 0x208 <= k < 0x288 implies page[k] == bytes::words_le(
            entry.gicv3_lrs@,
        )[k - 0x208] by {}
    }
}

/// Where the words of an exit buffer lie: the reason at 0; the return address, the
/// syndrome, the two fault addresses and the processor state from 0x100 on; the 31
/// registers from 0x200 on; the interrupt control at 0x300, the 16 list registers
/// behind it; and from 0x388 on the two interrupt status words and the control and
/// the compare value of the two timers.
pub proof fn exit_layout(exit: cca_rsi_plane_exit, i: int)
    ensures
        ({
            let page = exit.encode();
            &&& page.len() == 0x400
            &&& bytes::word_from(page, 0) == exit.exit_reason
            &&& bytes::word_from(page, 0x100) == exit.elr_el2
            &&& bytes::word_from(page, 0x108) == exit.esr_el2
            &&& bytes::word_from(page, 0x110) == exit.far_el2
            &&& bytes::word_from(page, 0x118) == exit.hpfar_el2
            &&& bytes::word_from(page, 0x120) == exit.pstate
            &&& 0 <= i < 31 ==> bytes::word_from(page, 0x200 + 8 * i) == exit.gprs@[i]
            &&& bytes::word_from(page, 0x300) == exit.gicv3_hcr
            &&& 0 <= i < 16 ==> bytes::word_from(page, 0x308 + 8 * i) == exit.gicv3_lrs@[i]
            &&& bytes::word_from(page, 0x388) == exit.gicv3_misr
            &&& bytes::word_from(page, 0x390) == exit.gicv3_vmcr
            &&& bytes::word_from(page, 0x398) == exit.cntp_ctl_el0
            &&& bytes::word_from(page, 0x3a0) == exit.cntp_cval_el0
            &&& bytes::word_from(page, 0x3a8) == exit.cntv_ctl_el0
            &&& bytes::word_from(page, 0x3b0) == exit.cntv_cval_el0
        }),
{
    let reason = seq![exit.exit_reason];
    let syndrome = seq![exit.elr_el2, exit.esr_el2, exit.far_el2, exit.hpfar_el2, exit.pstate];
    let hcr = seq![exit.gicv3_hcr];
    let timers = seq![
        exit.gicv3_misr,
        exit.gicv3_vmcr,
        exit.cntp_ctl_el0,
        exit.cntp_cval_el0,
        exit.cntv_ctl_el0,
        exit.cntv_cval_el0,
    ];
    exit.lemma_size();
    bytes::words_are_eight_bytes_apart(reason, 0);
    bytes::words_are_eight_bytes_apart(hcr, 0);
    bytes::lemma_words_len(exit.gprs@);
    bytes::lemma_words_len(exit.gicv3_lrs@);
    bytes::lemma_words_len(syndrome);
    bytes::lemma_words_len(timers);
    let (r, s, g, h, l, t) = (
        bytes::words_le(reason),
        bytes::words_le(syndrome),
        bytes::words_le(exit.gprs@),
        bytes::words_le(hcr),
        bytes::words_le(exit.gicv3_lrs@),
        bytes::words_le(timers),
    );
    let page = r + exit.pad1@ + s + exit.pad2@ + g + exit.pad3@ + h + l + t + exit.pad4@;
    assert(page == exit.encode());
    assert forall|k: int| 0 <= k < 8 implies page[k] == r[k] by {}
    assert forall|k: int| 0x100 <= k < 0x128 implies page[k] == s[k - 0x100] by {}
    assert forall|k: int| 0x200 <= k < 0x2f8 implies page[k] == g[k - 0x200] by {}
    assert forall|k: int| 0x300 <= k < 0x308 implies page[k] == h[k - 0x300] by {}
    assert forall|k: int| 0x308 <= k < 0x388 implies page[k] == l[k - 0x308] by {}
    assert forall|k: int| 0x388 <= k < 0x3b8 implies page[k] == t[k - 0x388] by {}
    lemma_five_words(syndrome);
    lemma_six_words(timers);
    if 0 <= i < 31 {
        bytes::words_are_eight_bytes_apart(exit.gprs@, i);
    }
    if 0 <= i < 16 {
        bytes::words_are_eight_bytes_apart(exit.gicv3_lrs@, i);
    }
}

proof fn lemma_five_words(words: Seq<u64>)
    requires
        words.len() >= 5,
    ensures
        bytes::word_from(bytes::words_le(words), 0) == words[0],
        bytes::word_from(bytes::words_le(words), 8) == words[1],
        bytes::word_from(bytes::words_le(words), 0x10) == words[2],
        bytes::word_from(bytes::words_le(words), 0x18) == words[3],
        bytes::word_from(bytes::words_le(words), 0x20) == words[4],
{
    bytes::words_are_eight_bytes_apart(words, 0);
    bytes::words_are_eight_bytes_apart(words, 1);
    bytes::words_are_eight_bytes_apart(words, 2);
    bytes::words_are_eight_bytes_apart(words, 3);
    bytes::words_are_eight_bytes_apart(words, 4);
}

proof fn lemma_six_words(words: Seq<u64>)
    requires
        words.len() == 6,
    ensures
        bytes::word_from(bytes::words_le(words), 0) == words[0],
        bytes::word_from(bytes::words_le(words), 8) == words[1],
        bytes::word_from(bytes::words_le(words), 0x10) == words[2],
        bytes::word_from(bytes::words_le(words), 0x18) == words[3],
        bytes::word_from(bytes::words_le(words), 0x20) == words[4],
        bytes::word_from(bytes::words_le(words), 0x28) == words[5],
{
    lemma_five_words(words);
    bytes::words_are_eight_bytes_apart(words, 5);
}

/// In the page of a plane the entry buffer is at 0 and the exit buffer at 0x800.
pub proof fn run_layout(run: cca_rsi_plane_run)
    ensures
        run.encode().len() == 0x1000,
        run.encode().subrange(0, 0x300) == run.entry.encode(),
        run.encode().subrange(0x800, 0xc00) == run.exit.encode(),
{
    run.entry.lemma_size();
    run.exit.lemma_size();
    assert(run.encode().subrange(0, 0x300) =~= run.entry.encode());
    assert(run.encode().subrange(0x800, 0xc00) =~= run.exit.encode());
}

/// The page of the realm starts with the width of its addresses, the algorithm of
/// its measurements, the number of its planes and its interrupt configuration.
pub proof fn realm_config_layout(config: cca_realm_config)
    ensures
        ({
            let page = config.encode();
            &&& page.len() == 0x1000
            &&& bytes::word_from(page, 0) == config.ipa_width
            &&& bytes::word_from(page, 8) == config.algorithm
            &&& bytes::word_from(page, 0x10) == config.num_aux_planes
            &&& bytes::word_from(page, 0x18) == config.gicv3_vtr
        }),
{
    let head = seq![config.ipa_width, config.algorithm, config.num_aux_planes, config.gicv3_vtr];
    bytes::words_are_eight_bytes_apart(head, 0);
    bytes::words_are_eight_bytes_apart(head, 1);
    bytes::words_are_eight_bytes_apart(head, 2);
    bytes::words_are_eight_bytes_apart(head, 3);
    let page = config.encode();
    assert forall|k: int| 0 <= k < 0x20 implies page[k] == bytes::words_le(head)[k] by {}
}

/// Each register has its own number: X0 to X28 are 0 to 28, the frame pointer is
/// 29 and the link register 30.
pub proof fn registers_by_number(registers: Registers)
    ensures
        ({
            let r = registers.gprs();
            &&& r.len() == 31
            &&& r[0] == registers.x0 && r[1] == registers.x1 && r[2] == registers.x2
            &&& r[3] == registers.x3 && r[4] == registers.x4 && r[5] == registers.x5
            &&& r[6] == registers.x6 && r[7] == registers.x7 && r[8] == registers.x8
            &&& r[9] == registers.x9 && r[10] == registers.x10 && r[11] == registers.x11
            &&& r[12] == registers.x12 && r[13] == registers.x13 && r[14] == registers.x14
            &&& r[15] == registers.x15 && r[16] == registers.x16 && r[17] == registers.x17
            &&& r[18] == registers.x18 && r[19] == registers.x19 && r[20] == registers.x20
            &&& r[21] == registers.x21 && r[22] == registers.x22 && r[23] == registers.x23
            &&& r[24] == registers.x24 && r[25] == registers.x25 && r[26] == registers.x26
            &&& r[27] == registers.x27 && r[28] == registers.x28 && r[29] == registers.fp
            &&& r[30] == registers.lr
        }),
{
}

/// Whether a list of registers and a list of values have a value for the register
/// of these encoding fields, at the same place.
pub open spec fn pairs(
    names: Seq<SystemReg>,
    values: Seq<u64>,
    op0: int,
    op1: int,
    crn: int,
    crm: int,
    op2: int,
    value: u64,
) -> bool {
    exists|i: int|
        {
            &&& 0 <= i < names.len()
            &&& i < values.len()
            &&& (#[trigger] names[i]).0 == op0 * 0x4000 + op1 * 0x800 + crn * 0x80 + crm * 8 + op2
            &&& values[i] == value
        }
}

/// Each system register that is saved has its own value: the control register is
/// S3_0_C1_C0_0, the two table bases S3_0_C2_C0_0 and S3_0_C2_C0_1 with their
/// control S3_0_C2_C0_2, the syndrome S3_0_C5_C2_0, the fault address S3_0_C6_C0_0,
/// the memory attributes S3_0_C10_C2_0, the return address S3_0_C4_C0_1 and the
/// vectors S3_0_C12_C0_0.
pub proof fn system_registers_by_encoding(registers: SystemRegisters)
    ensures
        ({
            let names = vp_state::system_register_names();
            let values = registers.values();
            &&& names.len() == 9 && values.len() == 9
            &&& pairs(names, values, 3, 0, 1, 0, 0, registers.sctlr_el1)
            &&& pairs(names, values, 3, 0, 2, 0, 0, registers.ttbr0_el1)
            &&& pairs(names, values, 3, 0, 2, 0, 1, registers.ttbr1_el1)
            &&& pairs(names, values, 3, 0, 2, 0, 2, registers.tcr_el1)
            &&& pairs(names, values, 3, 0, 5, 2, 0, registers.esr_el1)
            &&& pairs(names, values, 3, 0, 6, 0, 0, registers.far_el1)
            &&& pairs(names, values, 3, 0, 10, 2, 0, registers.mair_el1)
            &&& pairs(names, values, 3, 0, 4, 0, 1, registers.elr_el1)
            &&& pairs(names, values, 3, 0, 12, 0, 0, registers.vbar_el1)
        }),
{
    let names = vp_state::system_register_names();
    let values = registers.values();
    assert(names[0].0 == 0xc080 && values[0] == registers.sctlr_el1);
    assert(names[1].0 == 0xc100 && values[1] == registers.ttbr0_el1);
    assert(names[2].0 == 0xc101 && values[2] == registers.ttbr1_el1);
    assert(names[3].0 == 0xc102 && values[3] == registers.tcr_el1);
    assert(names[4].0 == 0xc290 && values[4] == registers.esr_el1);
    assert(names[5].0 == 0xc300 && values[5] == registers.far_el1);
    assert(names[6].0 == 0xc510 && values[6] == registers.mair_el1);
    assert(names[7].0 == 0xc201 && values[7] == registers.elr_el1);
    assert(names[8].0 == 0xc600 && values[8] == registers.vbar_el1);
}

/// The general-purpose registers are named from 0x2_0000 on, one after the other,
/// and nothing else is.
pub proof fn register_names_count_up(name: HvRegisterName)
    ensures
        name.gpr() == (if 0x2_0000 <= name.0 < 0x2_0000 + 31 {
            Some(name.0 - 0x2_0000)
        } else {
            None
        }),
{
}

/// The words that a plane is entered with, by their bits. Its processor state is
/// EL1 with its own stack pointer, mode 5, with the four masks for debug exceptions,
/// system errors, interrupts and fast interrupts, bits 9 to 6. Bit 4 of the flags has
/// SIMD instructions leave it, bit 10 of the interrupt control has accesses to the
/// common registers of the interface leave it. The cycle counter is 64 bits wide,
/// bit 6. No exit has the reason that stands for none, all ones.
pub proof fn entry_words_by_bits()
    ensures
        DEFAULT_PSTATE == 5 + power2::pow2(6) + power2::pow2(7) + power2::pow2(8) + power2::pow2(9),
        RSI_PLANE_ENTER_FLAGS_TRAP_SIMD == power2::pow2(4),
        ICH_HCR_TC == power2::pow2(10),
        vp_state::PMCR_EL0_DEFAULT == power2::pow2(6),
        vp_state::MDSCR_EL1_DEFAULT == power2::pow2(11),
        RSI_PLANE_EXIT_INVALID == power2::pow2(64) - 1,
        PAGE_SIZE == power2::pow2(12),
{
    power2::lemma2_to64();
    power2::lemma2_to64_rest();
}

} // verus!
