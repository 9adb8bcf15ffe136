//! Interrupts that wait for delivery, and the order in which they are delivered.

use vstd::prelude::*;

verus! {

/// An interrupt that is ready for delivery to a virtual processor.
#[derive(Clone, Copy, Debug)]
pub struct PendingInterrupt {
    pub intid: u32,
    pub priority: u8,
    pub group1: bool,
}

/// Whether an interrupt is delivered before another: a lower priority value
/// wins, and among equals the lower interrupt ID.
pub open spec fn precedes(a_priority: u8, a_intid: u32, b_priority: u8, b_intid: u32) -> bool {
    a_priority < b_priority || (a_priority == b_priority && a_intid < b_intid)
}

/// `chosen` is the first of `candidates` in delivery order, and `None` exactly
/// when there is no candidate. Since the order is total, this fixes `chosen`.
pub open spec fn is_first(
    candidates: Set<u32>,
    priority: spec_fn(u32) -> u8,
    chosen: Option<PendingInterrupt>,
) -> bool {
    match chosen {
        None => forall|i: u32| !#[trigger] candidates.contains(i),
        Some(p) => {
            &&& candidates.contains(p.intid)
            &&& p.priority == priority(p.intid)
            &&& p.group1
            &&& forall|i: u32| #[trigger]
                candidates.contains(i) ==> i == p.intid || precedes(
                    p.priority,
                    p.intid,
                    priority(i),
                    i,
                )
        },
    }
}

/// Whether `a` is delivered before `b`.
pub fn interrupt_precedes(a: PendingInterrupt, b: PendingInterrupt) -> (first: bool)
    ensures
        first == precedes(a.priority, a.intid, b.priority, b.intid),
{
    a.priority < b.priority || (a.priority == b.priority && a.intid < b.intid)
}

/// Adds one candidate to a choice among others.
pub(crate) fn keep_first(best: Option<PendingInterrupt>, interrupt: PendingInterrupt) -> (r: Option<
    PendingInterrupt,
>)
    ensures
        r == (match best {
            Some(current) if !precedes(
                interrupt.priority,
                interrupt.intid,
                current.priority,
                current.intid,
            ) => Some(current),
            _ => Some(interrupt),
        }),
{
    match best {
        Some(current) => if interrupt_precedes(interrupt, current) {
            Some(interrupt)
        } else {
            Some(current)
        },
        None => Some(interrupt),
    }
}

/// A choice among `before`, with `interrupt` added to it, is a choice among
/// `after` when `after` holds just one candidate more.
pub(crate) proof fn lemma_keep_first(
    before: Set<u32>,
    after: Set<u32>,
    priority: spec_fn(u32) -> u8,
    best: Option<PendingInterrupt>,
    interrupt: PendingInterrupt,
    r: Option<PendingInterrupt>,
)
    requires
        is_first(before, priority, best),
        after == before.insert(interrupt.intid),
        interrupt.priority == priority(interrupt.intid),
        interrupt.group1,
        r == (match best {
            Some(current) if !precedes(
                interrupt.priority,
                interrupt.intid,
                current.priority,
                current.intid,
            ) => Some(current),
            _ => Some(interrupt),
        }),
    ensures
        is_first(after, priority, r),
{
    assert(after.contains(interrupt.intid));
    if let Some(current) = best {
        assert(before.contains(current.intid));
        assert(after.contains(current.intid));
    }
}

/// There is only one first candidate.
pub proof fn lemma_first_is_unique(
    candidates: Set<u32>,
    priority: spec_fn(u32) -> u8,
    a: Option<PendingInterrupt>,
    b: Option<PendingInterrupt>,
)
    requires
        is_first(candidates, priority, a),
        is_first(candidates, priority, b),
    ensures
        a == b,
{
    if let Some(p) = a {
        assert(candidates.contains(p.intid));
    }
    if let Some(q) = b {
        assert(candidates.contains(q.intid));
    }
}

/// The first of `candidates` in delivery order, if there is one.
pub open spec fn first_of(candidates: Set<u32>, priority: spec_fn(u32) -> u8) -> Option<
    PendingInterrupt,
> {
    choose|chosen: Option<PendingInterrupt>| is_first(candidates, priority, chosen)
}

/// What was chosen as the first candidate is the first candidate.
pub proof fn lemma_first_of(
    candidates: Set<u32>,
    priority: spec_fn(u32) -> u8,
    chosen: Option<PendingInterrupt>,
)
    requires
        is_first(candidates, priority, chosen),
    ensures
        first_of(candidates, priority) == chosen,
{
    lemma_first_is_unique(candidates, priority, first_of(candidates, priority), chosen);
}

/// Any candidates have a first one: a choice can always be made.
pub proof fn lemma_first_exists(candidates: Set<u32>, priority: spec_fn(u32) -> u8)
    ensures
        is_first(candidates, priority, first_of(candidates, priority)),
{
    let chosen = lemma_first_below(candidates, priority, 0x1_0000_0000);
    let below = Set::new(|i: u32| candidates.contains(i) && i < 0x1_0000_0000);
    assert(below =~= candidates);
}

proof fn lemma_first_below(
    candidates: Set<u32>,
    priority: spec_fn(u32) -> u8,
    bound: nat,
) -> (chosen: Option<PendingInterrupt>)
    requires
        bound <= 0x1_0000_0000,
    ensures
        is_first(
            Set::new(|i: u32| candidates.contains(i) && i < bound),
            priority,
            chosen,
        ),
    decreases bound,
{
    let below = Set::new(|i: u32| candidates.contains(i) && i < bound);
    if bound == 0 {
        None
    } else {
        let last = (bound - 1) as u32;
        let rest = Set::new(|i: u32| candidates.contains(i) && i < (bound - 1) as nat);
        let best = lemma_first_below(candidates, priority, (bound - 1) as nat);
        if candidates.contains(last) {
            let interrupt = PendingInterrupt { intid: last, priority: priority(last), group1: true };
            let r = match best {
                Some(current) if !precedes(
                    interrupt.priority,
                    interrupt.intid,
                    current.priority,
                    current.intid,
                ) => Some(current),
                _ => Some(interrupt),
            };
            assert(below =~= rest.insert(last));
            lemma_keep_first(rest, below, priority, best, interrupt, r);
            r
        } else {
            assert(below =~= rest);
            best
        }
    }
}

} // verus!
