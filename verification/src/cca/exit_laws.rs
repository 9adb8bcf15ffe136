//! What an exit of the plane comes to, in terms of the bits of its syndrome
//! registers and the bytes of its device accesses.

use super::exit;
use super::exit::{CcaUnsupportedExit, ExceptionClass, ExitAction};
use super::processor::UhProcessor;
use super::syndrome::{EsrEl2, InstructionAbortReason, IssDataAbort};
use crate::bits;
use crate::bytes;
use crate::gic::delivery;
use crate::gic::registers::{GicrSgi, MpidrEl1};
use vstd::prelude::*;

verus! {

proof fn lemma_esr_fields(esr: u64)
    by (bit_vector)
    ensures
        (esr >> 26) & 0x3f == esr / 0x400_0000 % 0x40,
        (esr >> 24) & 1 == esr % 0x200_0000 / 0x100_0000 % 2,
        (esr >> 22) & 3 == esr % 0x200_0000 / 0x40_0000 % 4,
        (esr >> 21) & 1 == esr % 0x200_0000 / 0x20_0000 % 2,
        (esr >> 16) & 0x1f == esr % 0x200_0000 / 0x1_0000 % 0x20,
        (esr >> 15) & 1 == esr % 0x200_0000 / 0x8000 % 2,
        (esr >> 10) & 1 == esr % 0x200_0000 / 0x400 % 2,
        (esr >> 6) & 1 == esr % 0x200_0000 / 0x40 % 2,
        esr & 0x3f == esr % 0x200_0000 % 0x40,
        esr & 1 == esr % 0x200_0000 % 2,
        (esr >> 5) & 0x1f == esr % 0x200_0000 / 0x20 % 0x20,
        (esr >> 20) & 3 == esr % 0x200_0000 / 0x10_0000 % 4,
        (esr >> 17) & 7 == esr % 0x200_0000 / 0x2_0000 % 8,
        (esr >> 14) & 7 == esr % 0x200_0000 / 0x4000 % 8,
        (esr >> 10) & 0xf == esr % 0x200_0000 / 0x400 % 0x10,
        (esr >> 1) & 0xf == esr % 0x200_0000 / 2 % 0x10,
{
}

proof fn lemma_access_sizes(sas: u64)
    by (bit_vector)
    ensures
        1u64 << 0 == 1,
        1u64 << 1 == 2,
        1u64 << 2 == 4,
        1u64 << 3 == 8,
{
}

/// The number of bytes that a data abort accesses is two to the power of bits 23
/// and 22 of its syndrome: 1, 2, 4 and 8 for 0, 1, 2 and 3.
pub proof fn access_size_by_bits(esr: u64)
    ensures
        ({
            let len = IssDataAbort(EsrEl2(esr).spec_iss()).spec_len();
            &&& len as u64 == 1u64 << ((esr >> 22) & 3)
            &&& (esr >> 22) & 3 == 0 ==> len == 1
            &&& (esr >> 22) & 3 == 1 ==> len == 2
            &&& (esr >> 22) & 3 == 2 ==> len == 4
            &&& (esr >> 22) & 3 == 3 ==> len == 8
        }),
{
    lemma_esr_fields(esr);
    lemma_access_sizes(0);
}

/// Whether the next entry continues where the plane left: the registers, the
/// processor state and the interrupts are those of the exit, at the instruction
/// `skipped` bytes behind the one that left.
pub open spec fn resumes(after: UhProcessor, before: UhProcessor, skipped: int) -> bool {
    let (entry, exit) = (after.entry(), before.exit());
    &&& entry.pc == exit.elr_el2 + skipped
    &&& entry.gprs@ == exit.gprs@
    &&& entry.pstate == exit.pstate
    &&& entry.gicv3_hcr == exit.gicv3_hcr
    &&& entry.gicv3_lrs@ == exit.gicv3_lrs@
    &&& after.runner.hcl == before.runner.hcl
    &&& after.runner.context == before.runner.context
    &&& after.runner.state.pfns == before.runner.state.pfns
    &&& after.exit() == before.exit()
    &&& after.vp_index == before.vp_index
    &&& after.mpidr == before.mpidr
    &&& after.partition == before.partition
    &&& after.backing.exit_vtl == before.backing.exit_vtl
}

/// What a data abort asks for: exception class 0x24 in bits 31 to 26 of ESR_EL2.
/// Without bit 24 it is refused. Otherwise an access of two to the power of bits
/// 23 and 22 bytes is owed at the address of FAR_EL2: with bit 6 a store of the
/// register that bits 20 to 16 name, of which number 31 is zero; without it a load
/// into that register, sign-extended by bit 21, 64 bits wide by bit 15.
pub proof fn data_aborts_by_bits(before: UhProcessor, virt_timer_ppi: u32)
    requires
        before.exit().exit_reason == 0,
        (before.exit().esr_el2 >> 26) & 0x3f == 0x24,
    ensures
        ({
            let exit = before.exit();
            let esr = exit.esr_el2;
            let srt = (esr >> 16) & 0x1f;
            let outcome = before.exited(virt_timer_ppi);
            if (esr >> 24) & 1 == 0 {
                outcome == Err::<(UhProcessor, ExitAction), _>(
                    CcaUnsupportedExit::InvalidDataAbortIss(esr),
                )
            } else {
                &&& outcome is Ok
                &&& resumes(outcome->Ok_0.0, before, 0)
                &&& outcome->Ok_0.0.backing == before.backing
                &&& outcome->Ok_0.0.entry().flags == before.entry().flags
                &&& (esr >> 6) & 1 == 1 ==> {
                    &&& outcome->Ok_0.1 matches ExitAction::WriteMmio { address, value, len }
                    &&& address == exit.far_el2
                    &&& value == (if srt == 31 {
                        0
                    } else {
                        exit.gprs@[srt as int]
                    })
                    &&& len as u64 == 1u64 << ((esr >> 22) & 3)
                    &&& len == 1 || len == 2 || len == 4 || len == 8
                }
                &&& (esr >> 6) & 1 == 0 ==> {
                    &&& outcome->Ok_0.1 matches ExitAction::ReadMmio(read)
                    &&& read.address == exit.far_el2
                    &&& read.len as u64 == 1u64 << ((esr >> 22) & 3)
                    &&& read.len == 1 || read.len == 2 || read.len == 4 || read.len == 8
                    &&& read.srt as u64 == srt
                    &&& read.sse == ((esr >> 21) & 1 == 1)
                    &&& read.sf == ((esr >> 15) & 1 == 1)
                }
            }
        }),
{
    let esr = before.exit().esr_el2;
    lemma_esr_fields(esr);
    access_size_by_bits(esr);
}

/// What an instruction abort comes to: exception class 0x20. With bit 10 of
/// ESR_EL2 the address is not valid and the fault is reported at once; otherwise
/// the state of the faulting guest address is owed, whose page is bits 43 to 4 of
/// HPFAR_EL2 and whose low twelve bits are those of FAR_EL2. The status code is
/// bits 5 to 0.
pub proof fn instruction_aborts_by_bits(before: UhProcessor, virt_timer_ppi: u32)
    requires
        before.exit().exit_reason == 0,
        (before.exit().esr_el2 >> 26) & 0x3f == 0x20,
    ensures
        ({
            let exit = before.exit();
            let esr = exit.esr_el2;
            let outcome = before.exited(virt_timer_ppi);
            &&& (esr >> 10) & 1 == 1 ==> {
                &&& outcome matches Err(
                    CcaUnsupportedExit::InstructionAbort {
                        esr_el2,
                        elr_el2,
                        far_el2,
                        fipa,
                        fipa_state,
                        ifsc,
                        reason,
                        far_not_valid,
                    },
                )
                &&& esr_el2 == esr && elr_el2 == exit.elr_el2 && far_el2 == exit.far_el2
                &&& fipa == 0 && fipa_state == 0xff && far_not_valid
                &&& ifsc as u64 == esr & 0x3f
                &&& reason == InstructionAbortReason::decode(ifsc)
            }
            &&& (esr >> 10) & 1 == 0 ==> {
                &&& outcome matches Ok((after, ExitAction::ReadIpaState(fault)))
                &&& resumes(after, before, 0)
                &&& after.backing == before.backing
                &&& fault.esr_el2 == esr && fault.elr_el2 == exit.elr_el2
                &&& fault.far_el2 == exit.far_el2
                &&& fault.ifsc as u64 == esr & 0x3f
                &&& fault.fipa >> 12 == (exit.hpfar_el2 >> 4) & 0xff_ffff_ffff
                &&& fault.fipa & 0xfff == exit.far_el2 & 0xfff
            }
        }),
{
    let exit = before.exit();
    lemma_esr_fields(exit.esr_el2);
    lemma_fault_address(exit.hpfar_el2, exit.far_el2);
}

proof fn lemma_fault_address(hpfar: u64, far: u64)
    by (bit_vector)
    ensures
        ({
            let fipa = (hpfar / 0x10 % 0x100_0000_0000 * 0x1000 + far % 0x1000) as u64;
            &&& fipa >> 12 == (hpfar >> 4) & 0xff_ffff_ffff
            &&& fipa & 0xfff == far & 0xfff
        }),
{
}

/// The fault status codes come in blocks of four by their upper bits, with the
/// level of the translation table in the lowest two.
pub proof fn fault_codes_by_bits(ifsc: u8)
    ensures
        ({
            let reason = InstructionAbortReason::decode(ifsc);
            &&& ifsc >> 2 == 0 <==> reason == InstructionAbortReason::AddressSize(ifsc & 3)
            &&& ifsc >> 2 == 1 <==> reason == InstructionAbortReason::Translation(ifsc & 3)
            &&& ifsc >> 2 == 2 <==> reason == InstructionAbortReason::AccessFlag(ifsc & 3)
            &&& ifsc >> 2 == 3 <==> reason == InstructionAbortReason::Permission(ifsc & 3)
            &&& ifsc >> 2 == 5 <==> reason == InstructionAbortReason::ExternalOnWalk(ifsc & 3)
            &&& ifsc >> 2 == 7 <==> reason == InstructionAbortReason::ParityOnWalk(ifsc & 3)
            &&& ifsc == 0b01_0000 <==> reason == InstructionAbortReason::External
            &&& ifsc == 0b01_1000 <==> reason == InstructionAbortReason::Parity
            &&& ifsc == 0b11_0000 <==> reason == InstructionAbortReason::TlbConflict
            &&& reason is Other <==> reason == InstructionAbortReason::Other(ifsc)
        }),
{
    let code = ifsc as u64;
    assert(code >> 2 == code / 4 && code & 3 == code % 4) by (bit_vector);
}

/// Whether a trapped access, by the bits of ESR_EL2, writes the system register
/// of these five encoding fields.
pub open spec fn writes_register(esr: u64, op0: u64, op1: u64, crn: u64, crm: u64, op2: u64) -> bool {
    &&& esr & 1 == 0
    &&& (esr >> 20) & 3 == op0
    &&& (esr >> 14) & 7 == op1
    &&& (esr >> 10) & 0xf == crn
    &&& (esr >> 1) & 0xf == crm
    &&& (esr >> 17) & 7 == op2
}

/// The value that a trapped access stores: the register that bits 9 to 5 of
/// ESR_EL2 name, of which number 31 is zero.
pub open spec fn stored_value(before: UhProcessor) -> u64 {
    let rt = (before.exit().esr_el2 >> 5) & 0x1f;
    if rt == 31 {
        0
    } else {
        before.exit().gprs@[rt as int]
    }
}

/// Whether an SGI request names the very processor that makes it: bit 40 is
/// clear, bits 55 to 48, 39 to 32 and 23 to 16 are its affinity levels 3, 2 and
/// 1, bits 47 to 44 the range of 16 of its level 0, and its bit of the low 16 is
/// set.
pub open spec fn names_sender(value: u64, mpidr: MpidrEl1) -> bool {
    &&& (value >> 40) & 1 == 0
    &&& (value >> 48) & 0xff == mpidr.aff3 as u64
    &&& (value >> 32) & 0xff == mpidr.aff2 as u64
    &&& (value >> 16) & 0xff == mpidr.aff1 as u64
    &&& (value >> 44) & 0xf == (mpidr.aff0 / 16) as u64
    &&& (value >> ((mpidr.aff0 % 16) as u64)) & 1 == 1
}

/// What a trapped system register access comes to, whether the plane left for it
/// or for an interrupt: exception class 0x18. A write of the priority mask,
/// S3_0_C4_C6_0, sets the mask of the VTL to the low byte of the stored value. A
/// write of an SGI request, S3_0_C12_C11_5, requests the private interrupt of bits
/// 27 to 24 if it names this processor, and else nothing. Either way the guest
/// goes on behind the instruction; every other access is refused.
pub proof fn register_traps_by_bits(before: UhProcessor, virt_timer_ppi: u32, bit: u32)
    requires
        before.exit().exit_reason == 0 || before.exit().exit_reason == 1,
        (before.exit().esr_el2 >> 26) & 0x3f == 0x18,
        before.exit().elr_el2 <= u64::MAX - 4,
        bit < 32,
    ensures
        ({
            let esr = before.exit().esr_el2;
            let value = stored_value(before);
            let vtl = before.backing.exit_vtl;
            let outcome = before.exited(virt_timer_ppi);
            let (old_gic, gic) = (
                before.backing.spec_gic(vtl),
                outcome->Ok_0.0.backing.spec_gic(vtl),
            );
            if writes_register(esr, 3, 0, 4, 6, 0) {
                &&& outcome is Ok
                &&& outcome->Ok_0.1 is Continue
                &&& resumes(outcome->Ok_0.0, before, 4)
                &&& outcome->Ok_0.0.entry().flags == before.entry().flags
                &&& outcome->Ok_0.0.backing == before.backing.with_gic(vtl, gic)
                &&& gic.priority_mask as u64 == value & 0xff
                &&& gic.pending == old_gic.pending
            } else if writes_register(esr, 3, 0, 12, 11, 5) {
                &&& outcome is Ok
                &&& outcome->Ok_0.1 is Continue
                &&& resumes(outcome->Ok_0.0, before, 4)
                &&& outcome->Ok_0.0.entry().flags == before.entry().flags
                &&& outcome->Ok_0.0.backing == before.backing.with_gic(vtl, gic)
                &&& gic.priority_mask == old_gic.priority_mask
                &&& (gic.pending >> bit) & 1 == 1 <==> {
                    ||| (old_gic.pending >> bit) & 1 == 1
                    ||| names_sender(value, before.mpidr) && bit as u64 == (value >> 24) & 0xf
                }
            } else {
                outcome matches Err(CcaUnsupportedExit::UnsupportedSystemRegister { esr_el2, .. })
                    && esr_el2 == esr
            }
        }),
{
    let esr = before.exit().esr_el2;
    let value = stored_value(before);
    lemma_esr_fields(esr);
    delivery::sgi_requests_by_bits(value, (before.mpidr.aff0 % 16) as u64);
    let old_pending = before.backing.spec_gic(before.backing.exit_vtl).pending;
    let sgi = GicrSgi::decode(value);
    bits::lemma_bit_shifted(old_pending, bit);
    bits::lemma_bit_update(old_pending, sgi.intid as u32, bit);
    bits::lemma_bit_shifted(old_pending | (1u32 << (sgi.intid as u32)), bit);
}

/// What an exit for an interrupt comes to, where no system register access was
/// trapped: the private interrupt of the virtual timer is requested exactly when
/// the timer, by the low three bits of its control register, is enabled, not
/// masked and expired; otherwise nothing changes.
pub proof fn timer_exits_by_bits(before: UhProcessor, virt_timer_ppi: u32, bit: u32)
    requires
        before.exit().exit_reason == 1,
        (before.exit().esr_el2 >> 26) & 0x3f != 0x18,
        virt_timer_ppi < 32,
        bit < 32,
    ensures
        ({
            let control = before.exit().cntv_ctl_el0;
            let expired = control & 1 == 1 && (control >> 1) & 1 == 0 && (control >> 2) & 1 == 1;
            let vtl = before.backing.exit_vtl;
            let outcome = before.exited(virt_timer_ppi);
            let (old_gic, gic) = (
                before.backing.spec_gic(vtl),
                outcome->Ok_0.0.backing.spec_gic(vtl),
            );
            &&& outcome is Ok
            &&& outcome->Ok_0.1 is Continue
            &&& resumes(outcome->Ok_0.0, before, 0)
            &&& outcome->Ok_0.0.entry().flags == before.entry().flags
            &&& outcome->Ok_0.0.backing == before.backing.with_gic(vtl, gic)
            &&& gic.priority_mask == old_gic.priority_mask
            &&& (gic.pending >> bit) & 1 == 1 <==> {
                ||| (old_gic.pending >> bit) & 1 == 1
                ||| expired && bit == virt_timer_ppi
            }
        }),
{
    let control = before.exit().cntv_ctl_el0;
    lemma_esr_fields(before.exit().esr_el2);
    assert((control % 8 == 5) == (control & 1 == 1 && (control >> 1) & 1 == 0 && (control >> 2) & 1
        == 1)) by (bit_vector);
    let old_pending = before.backing.spec_gic(before.backing.exit_vtl).pending;
    bits::lemma_bit_shifted(old_pending, bit);
    bits::lemma_bit_update(old_pending, virt_timer_ppi, bit);
    bits::lemma_bit_shifted(old_pending | (1u32 << virt_timer_ppi), bit);
}

/// What the other exits come to. At the first SIMD instruction, exception class
/// 7, the plane is entered again without bit 4 of the entry flags, and with all
/// the others as they were; after a failed monitor call, class 0x17, it is entered
/// again as it left. Any other class, and any other reason than 0 and 1, is
/// refused and named.
pub proof fn other_exits_by_bits(before: UhProcessor, virt_timer_ppi: u32)
    ensures
        ({
            let exit = before.exit();
            let class = (exit.esr_el2 >> 26) & 0x3f;
            let outcome = before.exited(virt_timer_ppi);
            &&& exit.exit_reason == 0 && class == 0x07 ==> {
                &&& outcome is Ok
                &&& outcome->Ok_0.1 is Continue
                &&& resumes(outcome->Ok_0.0, before, 0)
                &&& outcome->Ok_0.0.backing == before.backing
                &&& (outcome->Ok_0.0.entry().flags >> 4) & 1 == 0
                &&& outcome->Ok_0.0.entry().flags | 0x10 == before.entry().flags | 0x10
            }
            &&& exit.exit_reason == 0 && class == 0x17 ==> {
                &&& outcome is Ok
                &&& outcome->Ok_0.1 is Continue
                &&& resumes(outcome->Ok_0.0, before, 0)
                &&& outcome->Ok_0.0.backing == before.backing
                &&& outcome->Ok_0.0.entry().flags == before.entry().flags
            }
            &&& exit.exit_reason == 0 && class != 0x24 && class != 0x20 && class != 0x07 && class
                != 0x17 && class != 0x18 ==> {
                &&& outcome matches Err(
                    CcaUnsupportedExit::ExceptionClass { exception_class, esr_el2 },
                )
                &&& exception_class as u64 == class
                &&& esr_el2 == exit.esr_el2
            }
            &&& exit.exit_reason > 1 ==> outcome == Err::<(UhProcessor, ExitAction), _>(
                CcaUnsupportedExit::ExitReason(exit.exit_reason),
            )
        }),
{
    lemma_esr_fields(before.exit().esr_el2);
    let flags = before.entry().flags;
    assert((flags & !0x10u64) >> 4 & 1 == 0 && (flags & !0x10u64) | 0x10 == flags | 0x10)
        by (bit_vector);
}

/// What a load leaves in each byte of its register: the bytes of the device as
/// far as the access goes, and above them zeros, or ones where a sign-extended
/// access of fewer bytes ends in a byte whose top bit is set. A sign-extended
/// load into a register of 32 bits leaves zeros in the upper half.
pub proof fn loads_by_bytes(data: Seq<u8>, len: nat, sign_extend: bool, sf: bool)
    requires
        data.len() == 8,
        len == 1 || len == 2 || len == 4 || len == 8,
    ensures
        exit::loaded_value(data, len, sign_extend, sf) == bytes::le_value(
            Seq::new(
                8,
                |k: int|
                    if sign_extend && !sf && k >= 4 {
                        0u8
                    } else if k < len {
                        data[k]
                    } else if sign_extend && data[len - 1] >= 0x80 {
                        0xffu8
                    } else {
                        0u8
                    },
            ),
        ),
{
    let register = Seq::new(
        8,
        |k: int|
            if sign_extend && !sf && k >= 4 {
                0u8
            } else if k < len {
                data[k]
            } else if sign_extend && data[len - 1] >= 0x80 {
                0xffu8
            } else {
                0u8
            },
    );
    bytes::lemma_pow256();
    bytes::lemma_le_value_of_eight(data);
    bytes::lemma_le_value_of_eight(register);
    let value = bytes::le_value(data);
    let low = data[0] + data[1] * 0x100 + data[2] * 0x1_0000 + data[3] * 0x100_0000;
    let high = data[4] + data[5] * 0x100 + data[6] * 0x1_0000 + data[7] * 0x100_0000;
    assert(value == low + high * 0x1_0000_0000);
    lemma_halves(low, high);
    lemma_low_bytes(
        value as int,
        data[0] as int,
        data[1] as int,
        low / 0x1_0000 + high * 0x1_0000,
    );
    let extended = exit::sign_extended(value, len);
    if !sign_extend {
    } else if len == 1 {
        let fill: int = if data[0] >= 0x80 {
            0xffff_ff00
        } else {
            0
        };
        let top: int = if data[0] >= 0x80 {
            0xffff_ffff
        } else {
            0
        };
        lemma_halves(data[0] + fill, top);
        assert(extended == data[0] + fill + top * 0x1_0000_0000);
    } else if len == 2 {
        let fill: int = if data[1] >= 0x80 {
            0xffff_0000
        } else {
            0
        };
        let top: int = if data[1] >= 0x80 {
            0xffff_ffff
        } else {
            0
        };
        lemma_halves(data[0] + data[1] * 0x100 + fill, top);
        assert(extended == data[0] + data[1] * 0x100 + fill + top * 0x1_0000_0000);
    } else if len == 4 {
        let top: int = if data[3] >= 0x80 {
            0xffff_ffff
        } else {
            0
        };
        lemma_halves(low, top);
        assert(extended == low + top * 0x1_0000_0000);
    } else {
        assert(extended == value);
    }
}

proof fn lemma_halves(low: int, high: int)
    requires
        0 <= low < 0x1_0000_0000,
        0 <= high < 0x1_0000_0000,
    ensures
        (low + high * 0x1_0000_0000) % 0x1_0000_0000 == low,
        (low + high * 0x1_0000_0000) % 0x1_0000_0000_0000_0000 == low + high * 0x1_0000_0000,
{
}

proof fn lemma_low_bytes(value: int, first: int, second: int, rest: int)
    requires
        value == first + second * 0x100 + rest * 0x1_0000,
        0 <= first < 0x100,
        0 <= second < 0x100,
        0 <= rest,
    ensures
        value % 0x100 == first,
        value % 0x1_0000 == first + second * 0x100,
{
}

} // verus!
