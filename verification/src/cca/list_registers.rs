//! The list registers, through which interrupts are handed to a plane.

use crate::gic::interrupt::PendingInterrupt;
use crate::gic::registers::{GicrSgi, MpidrEl1};
use vstd::prelude::*;

verus! {

/// The interrupt ID of a list register.
pub const ICH_LR_VINTID_MASK: u64 = 0xffff_ffff;

/// The place of the priority in a list register.
pub const ICH_LR_PRIORITY_SHIFT: u32 = 48;

/// The interrupt belongs to group 1.
pub const ICH_LR_GROUP1: u64 = 0x1000_0000_0000_0000;

/// The interrupt is pending.
pub const ICH_LR_PENDING: u64 = 0x4000_0000_0000_0000;

/// The interrupt is active.
pub const ICH_LR_ACTIVE: u64 = 0x8000_0000_0000_0000;

/// The two state bits of a list register, which is free when both are zero.
pub const ICH_LR_STATE_MASK: u64 = 0xc000_0000_0000_0000;

/// Whether a list register holds no interrupt.
pub open spec fn is_free(lr: u64) -> bool {
    lr & ICH_LR_STATE_MASK == 0
}

/// Whether a list register holds interrupt `intid`.
pub open spec fn lists(lr: u64, intid: u32) -> bool {
    !is_free(lr) && lr & ICH_LR_VINTID_MASK == intid as u64
}

/// Whether some list register holds interrupt `intid`.
pub open spec fn is_listed(lrs: Seq<u64>, intid: u32) -> bool {
    exists|i: int| 0 <= i < lrs.len() && lists(#[trigger] lrs[i], intid)
}

/// The first place, from `from` on, of a list register that `pred` admits.
pub open spec fn find(lrs: Seq<u64>, pred: spec_fn(u64) -> bool, from: int) -> Option<int>
    decreases lrs.len() - from,
{
    if from < 0 || from >= lrs.len() {
        None
    } else if pred(lrs[from]) {
        Some(from)
    } else {
        find(lrs, pred, from + 1)
    }
}

/// The list register that makes an interrupt pending.
pub open spec fn pending_lr(interrupt: PendingInterrupt) -> u64 {
    (interrupt.intid + interrupt.priority * 0x1_0000_0000_0000 + (if interrupt.group1 {
        ICH_LR_GROUP1 as int
    } else {
        0
    }) + ICH_LR_PENDING) as u64
}

/// The list registers after an interrupt was injected: made pending where it is
/// listed, or else put into the first free register. `None` when neither is
/// possible.
pub open spec fn injected(lrs: Seq<u64>, interrupt: PendingInterrupt) -> Option<Seq<u64>> {
    match find(lrs, |lr: u64| lists(lr, interrupt.intid), 0) {
        Some(i) => Some(lrs.update(i, lrs[i] | ICH_LR_PENDING)),
        None => match find(lrs, |lr: u64| is_free(lr), 0) {
            Some(i) => Some(lrs.update(i, pending_lr(interrupt))),
            None => None,
        },
    }
}

proof fn lemma_pending_lr_bits(intid: u32, priority: u8)
    by (bit_vector)
    ensures
        intid + priority * 0x1_0000_0000_0000 + 0x5000_0000_0000_0000 < 0x1_0000_0000_0000_0000,
        (intid as u64) | ((priority as u64) << 48) | 0x1000_0000_0000_0000u64
            | 0x4000_0000_0000_0000u64 == (intid + priority * 0x1_0000_0000_0000
            + 0x5000_0000_0000_0000) as u64,
        (intid as u64) | ((priority as u64) << 48) | 0u64 | 0x4000_0000_0000_0000u64 == (intid
            + priority * 0x1_0000_0000_0000 + 0x4000_0000_0000_0000) as u64,
        ((intid + priority * 0x1_0000_0000_0000 + 0x5000_0000_0000_0000) as u64)
            & 0xc000_0000_0000_0000u64 == 0x4000_0000_0000_0000u64,
        ((intid + priority * 0x1_0000_0000_0000 + 0x4000_0000_0000_0000) as u64)
            & 0xc000_0000_0000_0000u64 == 0x4000_0000_0000_0000u64,
        ((intid + priority * 0x1_0000_0000_0000 + 0x5000_0000_0000_0000) as u64) & 0xffff_ffffu64
            == intid as u64,
        ((intid + priority * 0x1_0000_0000_0000 + 0x4000_0000_0000_0000) as u64) & 0xffff_ffffu64
            == intid as u64,
{
}

/// Hands an interrupt to the plane. Returns whether there was room for it.
pub fn inject_virtual_interrupt(lrs: &mut [u64], interrupt: PendingInterrupt) -> (done: bool)
    ensures
        final(lrs)@.len() == old(lrs)@.len(),
        match injected(old(lrs)@, interrupt) {
            Some(after) => done && final(lrs)@ == after,
            None => !done && final(lrs)@ == old(lrs)@,
        },
{
    let ghost before = lrs@;
    let ghost listing = |lr: u64| lists(lr, interrupt.intid);
    let ghost free = |lr: u64| is_free(lr);
    let mut i: usize = 0;
    while i < lrs.len()
        invariant
            i <= lrs@.len(),
            lrs@ == before,
            before == old(lrs)@,
            listing == (|lr: u64| lists(lr, interrupt.intid)),
            find(before, listing, 0) == find(before, listing, i as int),
        decreases lrs@.len() - i,
    {
        let lr: u64 = lrs[i];
        if lr & ICH_LR_STATE_MASK != 0 && lr & ICH_LR_VINTID_MASK == interrupt.intid as u64 {
            // A new request for an active interrupt must remain pending after the
            // guest deactivates it. This also leaves pending and active-and-pending
            // list registers unchanged.
            lrs[i] = lr | ICH_LR_PENDING;
            return true;
        }
        i = i + 1;
    }
    let mut i: usize = 0;
    while i < lrs.len()
        invariant
            i <= lrs@.len(),
            lrs@ == before,
            before == old(lrs)@,
            listing == (|lr: u64| lists(lr, interrupt.intid)),
            find(before, listing, 0) is None,
            free == (|lr: u64| is_free(lr)),
            find(before, free, 0) == find(before, free, i as int),
        decreases lrs@.len() - i,
    {
        if lrs[i] & ICH_LR_STATE_MASK == 0 {
            let group: u64 = if interrupt.group1 {
                ICH_LR_GROUP1
            } else {
                0
            };
            proof {
                lemma_pending_lr_bits(interrupt.intid, interrupt.priority);
            }
            lrs[i] = interrupt.intid as u64 | ((interrupt.priority as u64)
                << ICH_LR_PRIORITY_SHIFT) | group | ICH_LR_PENDING;
            return true;
        }
        i = i + 1;
    }
    false
}

/// Whether an interrupt is still in a list register.
pub fn virtual_interrupt_is_listed(lrs: &[u64], intid: u32) -> (listed: bool)
    ensures
        listed == is_listed(lrs@, intid),
{
    let mut i: usize = 0;
    while i < lrs.len()
        invariant
            i <= lrs@.len(),
            forall|j: int| 0 <= j < i ==> !lists(#[trigger] lrs@[j], intid),
        decreases lrs@.len() - i,
    {
        let lr: u64 = lrs[i];
        if lr & ICH_LR_STATE_MASK != 0 && lr & ICH_LR_VINTID_MASK == intid as u64 {
            proof {
                assert(lists(lrs@[i as int], intid));
            }
            return true;
        }
        i = i + 1;
    }
    false
}

/// Whether an SGI names the processor that sends it: its affinity, and its
/// place in a range of 16 processors.
pub open spec fn names_processor(sgi: GicrSgi, mpidr: MpidrEl1) -> bool {
    &&& !sgi.irm
    &&& sgi.aff3 == mpidr.aff3
    &&& sgi.aff2 == mpidr.aff2
    &&& sgi.aff1 == mpidr.aff1
    &&& sgi.rs == mpidr.aff0 / 16
    &&& sgi.target_list & (1u16 << ((mpidr.aff0 % 16) as u16)) != 0
}

pub fn sgi_targets_current_vp(sgi: GicrSgi, mpidr: MpidrEl1) -> (targets: bool)
    ensures
        targets == names_processor(sgi, mpidr),
{
    if sgi.irm || sgi.aff3 != mpidr.aff3 || sgi.aff2 != mpidr.aff2 || sgi.aff1 != mpidr.aff1
        || sgi.rs != mpidr.aff0 / 16 {
        return false;
    }
    sgi.target_list & (1u16 << ((mpidr.aff0 % 16) as u16)) != 0
}

/// What `find` finds, and that it finds the first.
pub proof fn lemma_find(lrs: Seq<u64>, pred: spec_fn(u64) -> bool, from: int)
    requires
        0 <= from <= lrs.len(),
    ensures
        match find(lrs, pred, from) {
            Some(i) => {
                &&& from <= i < lrs.len()
                &&& pred(lrs[i])
                &&& forall|j: int| from <= j < i ==> !pred(#[trigger] lrs[j])
            },
            None => forall|j: int| from <= j < lrs.len() ==> !pred(#[trigger] lrs[j]),
        },
    decreases lrs.len() - from,
{
    if from < lrs.len() && !pred(lrs[from]) {
        lemma_find(lrs, pred, from + 1);
    }
}

/// An interrupt that was injected is listed, and pending in the register that
/// lists it.
pub proof fn injected_is_listed(lrs: Seq<u64>, interrupt: PendingInterrupt)
    requires
        injected(lrs, interrupt) is Some,
    ensures
        is_listed(injected(lrs, interrupt)->0, interrupt.intid),
        exists|i: int|
            0 <= i < lrs.len() && lists(
                #[trigger] injected(lrs, interrupt)->0[i],
                interrupt.intid,
            ) && injected(lrs, interrupt)->0[i] & ICH_LR_PENDING != 0,
{
    let listing = |lr: u64| lists(lr, interrupt.intid);
    let free = |lr: u64| is_free(lr);
    let after = injected(lrs, interrupt)->0;
    lemma_find(lrs, listing, 0);
    lemma_find(lrs, free, 0);
    lemma_pending_lr_bits(interrupt.intid, interrupt.priority);
    match find(lrs, listing, 0) {
        Some(i) => {
            lemma_set_pending(lrs[i]);
            assert(lists(after[i], interrupt.intid));
        },
        None => {
            let i = find(lrs, free, 0)->0;
            let lr = pending_lr(interrupt);
            assert(lr & ICH_LR_STATE_MASK == ICH_LR_PENDING);
            assert(lr & 0xc000_0000_0000_0000u64 == 0x4000_0000_0000_0000u64 ==> lr
                & 0x4000_0000_0000_0000u64 != 0 && lr & 0xc000_0000_0000_0000u64 != 0)
                by (bit_vector);
            assert(lists(after[i], interrupt.intid));
        },
    }
}

proof fn lemma_set_pending(lr: u64)
    by (bit_vector)
    ensures
        (lr | 0x4000_0000_0000_0000u64) & 0xffff_ffffu64 == lr & 0xffff_ffffu64,
        (lr | 0x4000_0000_0000_0000u64) & 0xc000_0000_0000_0000u64 != 0,
        (lr | 0x4000_0000_0000_0000u64) & 0x4000_0000_0000_0000u64 != 0,
        (lr | 0x4000_0000_0000_0000u64) & 0x8000_0000_0000_0000u64 == lr
            & 0x8000_0000_0000_0000u64,
        (lr | 0x4000_0000_0000_0000u64) | 0x4000_0000_0000_0000u64 == (lr
            | 0x4000_0000_0000_0000u64),
{
}

/// Injecting an interrupt drops none that was listed before.
pub proof fn injection_keeps_listed_interrupts(
    lrs: Seq<u64>,
    interrupt: PendingInterrupt,
    intid: u32,
)
    requires
        injected(lrs, interrupt) is Some,
        is_listed(lrs, intid),
    ensures
        is_listed(injected(lrs, interrupt)->0, intid),
{
    let listing = |lr: u64| lists(lr, interrupt.intid);
    let free = |lr: u64| is_free(lr);
    let after = injected(lrs, interrupt)->0;
    lemma_find(lrs, listing, 0);
    lemma_find(lrs, free, 0);
    let k = choose|k: int| 0 <= k < lrs.len() && lists(#[trigger] lrs[k], intid);
    lemma_set_pending(lrs[k]);
    assert(lists(after[k], intid));
}

/// A second injection of the same interrupt changes nothing.
pub proof fn injecting_twice_is_injecting_once(lrs: Seq<u64>, interrupt: PendingInterrupt)
    requires
        injected(lrs, interrupt) is Some,
    ensures
        injected(injected(lrs, interrupt)->0, interrupt) == injected(lrs, interrupt),
{
    let listing = |lr: u64| lists(lr, interrupt.intid);
    let free = |lr: u64| is_free(lr);
    let after = injected(lrs, interrupt)->0;
    lemma_find(lrs, listing, 0);
    lemma_find(lrs, free, 0);
    lemma_find(after, listing, 0);
    lemma_pending_lr_bits(interrupt.intid, interrupt.priority);
    let i = match find(lrs, listing, 0) {
        Some(i) => i,
        None => find(lrs, free, 0)->0,
    };
    lemma_set_pending(lrs[i]);
    let lr = pending_lr(interrupt);
    assert(lr & 0xc000_0000_0000_0000u64 == 0x4000_0000_0000_0000u64 ==> lr
        | 0x4000_0000_0000_0000u64 == lr && lr & 0xc000_0000_0000_0000u64 != 0) by (bit_vector);
    assert(lists(after[i], interrupt.intid));
    assert(forall|j: int| 0 <= j < i ==> after[j] == lrs[j]);
    assert(find(after, listing, 0) == Some(i)) by {
        let found = find(after, listing, 0)->0;
        assert(listing(after[i]));
        if found < i {
            assert(listing(lrs[found]));
        }
    }
    assert(after.update(i, after[i] | ICH_LR_PENDING) =~= after);
}

/// An interrupt that is active when it is injected stays active, and becomes
/// pending too.
pub proof fn reinjected_interrupt_stays_active(lrs: Seq<u64>, interrupt: PendingInterrupt, i: int)
    requires
        find(lrs, |lr: u64| lists(lr, interrupt.intid), 0) == Some(i),
        lrs[i] & ICH_LR_ACTIVE != 0,
    ensures
        injected(lrs, interrupt) is Some,
        injected(lrs, interrupt)->0[i] & ICH_LR_STATE_MASK == ICH_LR_ACTIVE | ICH_LR_PENDING,
{
    lemma_find(lrs, |lr: u64| lists(lr, interrupt.intid), 0);
    let lr = lrs[i];
    assert(lr & 0x8000_0000_0000_0000u64 != 0 ==> (lr | 0x4000_0000_0000_0000u64)
        & 0xc000_0000_0000_0000u64 == 0x8000_0000_0000_0000u64 | 0x4000_0000_0000_0000u64)
        by (bit_vector);
}

/// There is no room for an interrupt exactly when it is not listed and no
/// register is free.
pub proof fn no_room_means_full(lrs: Seq<u64>, interrupt: PendingInterrupt)
    ensures
        injected(lrs, interrupt) is None <==> (!is_listed(lrs, interrupt.intid) && forall|i: int|
            0 <= i < lrs.len() ==> !is_free(#[trigger] lrs[i])),
{
    let listing = |lr: u64| lists(lr, interrupt.intid);
    let free = |lr: u64| is_free(lr);
    lemma_find(lrs, listing, 0);
    lemma_find(lrs, free, 0);
}

proof fn lemma_lr_fields(intid: u32, priority: u8, group: u64)
    by (bit_vector)
    requires
        group == 0 || group == 0x1000_0000_0000_0000,
    ensures
        ({
            let lr = (intid + priority * 0x1_0000_0000_0000 + group + 0x4000_0000_0000_0000) as u64;
            &&& lr & 0xffff_ffff == intid as u64
            &&& (lr >> 32) & 0xffff == 0
            &&& (lr >> 48) & 0xff == priority as u64
            &&& (lr >> 60) & 1 == (group >> 60) & 1
            &&& (lr >> 62) == 1
        }),
        0x1000_0000_0000_0000u64 >> 60 & 1 == 1,
        0u64 >> 60 & 1 == 0,
{
}

proof fn lemma_lr_state(lr: u64)
    by (bit_vector)
    ensures
        (lr & 0xc000_0000_0000_0000 == 0) == (lr >> 62 == 0),
        (lr | 0x4000_0000_0000_0000) & 0xffff_ffff == lr & 0xffff_ffff,
        ((lr | 0x4000_0000_0000_0000) >> 62) & 1 == 1,
        (lr | 0x4000_0000_0000_0000) >> 63 == lr >> 63,
        (lr | 0x4000_0000_0000_0000) & 0xbfff_ffff_ffff_ffff == lr & 0xbfff_ffff_ffff_ffff,
        lr >> 62 == 1 ==> (lr >> 62) & 1 == 1,
        (lr >> 62) & 1 == 1 ==> (lr | 0x4000_0000_0000_0000) == lr && lr >> 62 != 0,
{
}

/// An injection writes one register, which then names the interrupt in its low
/// word and has the pending bit, bit 62. A register that held nothing before
/// also gets the priority in bits 55 to 48, the group in bit 60 and no active
/// bit; one that named the interrupt keeps all its other bits.
pub proof fn an_injection_writes_one_register(lrs: Seq<u64>, interrupt: PendingInterrupt)
    requires
        injected(lrs, interrupt) is Some,
    ensures
        injected(lrs, interrupt)->0.len() == lrs.len(),
        exists|i: int|
            {
                let lr = #[trigger] injected(lrs, interrupt)->0[i];
                &&& 0 <= i < lrs.len()
                &&& forall|j: int|
                    0 <= j < lrs.len() && j != i ==> #[trigger] injected(lrs, interrupt)->0[j]
                        == lrs[j]
                &&& lr & 0xffff_ffff == interrupt.intid as u64
                &&& (lr >> 62) & 1 == 1
                &&& lrs[i] >> 62 == 0 ==> {
                    &&& lr >> 62 == 1
                    &&& (lr >> 60) & 1 == (if interrupt.group1 {
                        1u64
                    } else {
                        0u64
                    })
                    &&& (lr >> 48) & 0xff == interrupt.priority as u64
                }
                &&& lrs[i] >> 62 != 0 ==> {
                    &&& lrs[i] & 0xffff_ffff == interrupt.intid as u64
                    &&& lr & 0xbfff_ffff_ffff_ffff == lrs[i] & 0xbfff_ffff_ffff_ffff
                }
                &&& (lrs[i] >> 62) & 1 == 1 ==> lr == lrs[i]
            },
{
    let listing = |lr: u64| lists(lr, interrupt.intid);
    let free = |lr: u64| is_free(lr);
    let after = injected(lrs, interrupt)->0;
    let group: u64 = if interrupt.group1 {
        ICH_LR_GROUP1
    } else {
        0
    };
    lemma_find(lrs, listing, 0);
    lemma_find(lrs, free, 0);
    lemma_lr_fields(interrupt.intid, interrupt.priority, group);
    let i = match find(lrs, listing, 0) {
        Some(i) => i,
        None => find(lrs, free, 0)->0,
    };
    lemma_lr_state(lrs[i]);
    lemma_lr_state(after[i]);
    assert(after == lrs.update(i, after[i]));
}

/// An interrupt finds no room exactly when no register names it and none is
/// free: the two state bits of each are not both zero.
pub proof fn room_is_a_free_or_naming_register(lrs: Seq<u64>, interrupt: PendingInterrupt)
    ensures
        injected(lrs, interrupt) is None <==> forall|i: int|
            0 <= i < lrs.len() ==> (#[trigger] lrs[i]) >> 62 != 0 && lrs[i] & 0xffff_ffff
                != interrupt.intid as u64,
{
    let listing = |lr: u64| lists(lr, interrupt.intid);
    let free = |lr: u64| is_free(lr);
    lemma_find(lrs, listing, 0);
    lemma_find(lrs, free, 0);
    assert forall|i: int| 0 <= i < lrs.len() implies is_free(#[trigger] lrs[i]) == (lrs[i] >> 62
        == 0) by {
        lemma_lr_state(lrs[i]);
    }
    if injected(lrs, interrupt) is None {
        assert forall|i: int| 0 <= i < lrs.len() implies (#[trigger] lrs[i]) >> 62 != 0 && lrs[i]
            & 0xffff_ffff != interrupt.intid as u64 by {
            assert(!free(lrs[i]));
            assert(!listing(lrs[i]));
        }
    }
}

/// A register that holds an interrupt, by its state bits and its low word.
pub proof fn lemma_lists_by_bits(lr: u64, intid: u32)
    ensures
        lists(lr, intid) <==> lr >> 62 != 0 && lr & 0xffff_ffff == intid as u64,
{
    lemma_lr_state(lr);
}

} // verus!
