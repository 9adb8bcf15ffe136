//! Memory for a guest of a CCA realm: a part of the monitor's own memory that is
//! physically contiguous and aligned.

use crate::memory_range::{MemoryRange, PAGE_SIZE};
use vstd::prelude::*;
use vstd::seq_lib::group_to_multiset_ensures;

verus! {

/// What the memory of a guest is aligned to: the pages that a byte of a bitmap
/// covers.
pub const BITMAP_ALIGNMENT: u64 = 0x8000;

/// The page numbers of aligned memory are multiples of this.
pub const ALIGNED_PAGES: u64 = 8;

/// How often memory is asked for.
pub const MAX_ALLOC_ATTEMPTS: usize = 4;

/// Why there is no memory for a guest.
#[derive(Clone, Copy, Debug, PartialEq, Eq, Structural)]
pub enum RamError {
    /// The size of the memory to search for overflowed.
    SearchSizeOverflow,
    /// The size of the memory to ask for overflowed.
    AllocationSizeOverflow,
    /// No attempt gave enough contiguous memory.
    NotContiguous,
    /// The memory reaches beyond the address space.
    RangeOverflow,
}

/// How many pages hold a number of bytes.
pub open spec fn pages_for(size: nat) -> nat {
    (size + 0xfff) / 0x1000
}

/// Whether page numbers are in order.
pub open spec fn is_sorted(pfns: Seq<u64>) -> bool {
    forall|i: int, j: int| 0 <= i <= j < pfns.len() ==> pfns[i] <= pfns[j]
}

/// Whether `n` page numbers from place `start` on follow each other.
pub open spec fn is_run(pfns: Seq<u64>, start: int, n: nat) -> bool {
    &&& 0 <= start
    &&& start + n <= pfns.len()
    &&& forall|i: int| start <= i < start + n ==> #[trigger] pfns[i] == pfns[start] + (i - start)
}

/// `run` is the first run of `n` pages among `pfns` once they are in order, and
/// `None` if there is none.
pub open spec fn is_first_run(pfns: Seq<u64>, n: nat, run: Option<Seq<u64>>) -> bool {
    exists|sorted: Seq<u64>|
        {
            &&& is_sorted(sorted)
            &&& #[trigger] sorted.to_multiset() == pfns.to_multiset()
            &&& match run {
                Some(run) => exists|start: int|
                    {
                        &&& #[trigger] is_run(sorted, start, n)
                        &&& forall|j: int| j < start ==> !is_run(sorted, j, n)
                        &&& run == sorted.subrange(start, start + n)
                    },
                None => forall|j: int| !is_run(sorted, j, n),
            }
        }
}

/// Calls `<[u64]>::sort_unstable`, which puts the numbers in order and neither
/// adds nor drops one.
#[verifier::external_body]
fn sort_unstable(pfns: &mut Vec<u64>)
    ensures
        is_sorted(final(pfns)@),
        final(pfns)@.to_multiset() == old(pfns)@.to_multiset(),
{
    pfns.sort_unstable();
}

/// Returns a sorted contiguous subset of PFNs large enough for `asking_size` bytes.
pub fn contiguous_subpfns(pfns: &Vec<u64>, asking_size: usize) -> (run: Option<Vec<u64>>)
    ensures
        match run {
            Some(run) => is_first_run(pfns@, pages_for(asking_size as nat), Some(run@)),
            None => is_first_run(pfns@, pages_for(asking_size as nat), None),
        },
{
    let page_count: usize = asking_size / 0x1000 + if asking_size % 0x1000 != 0 {
        1
    } else {
        0
    };
    let mut sorted: Vec<u64> = pfns.clone();
    proof {
        assert(sorted@ =~= pfns@);
    }
    sort_unstable(&mut sorted);
    if page_count == 0 {
        let empty: Vec<u64> = Vec::new();
        proof {
            assert(is_run(sorted@, 0, 0));
            assert(empty@ =~= sorted@.subrange(0, 0));
        }
        return Some(empty);
    }
    let mut run_start: usize = 0;
    let mut i: usize = 0;
    while i < sorted.len()
        invariant
            page_count == pages_for(asking_size as nat),
            page_count > 0,
            sorted@.to_multiset() == pfns@.to_multiset(),
            is_sorted(sorted@),
            run_start <= i <= sorted@.len(),
            i == sorted@.len() ==> run_start == i,
            i < sorted@.len() ==> is_run(sorted@, run_start as int, (i + 1 - run_start) as nat),
            forall|j: int| j < run_start ==> !is_run(sorted@, j, page_count as nat),
        decreases sorted@.len() - i,
    {
        let run_ended = i + 1 == sorted.len() || !(sorted[i] < u64::MAX && sorted[i] + 1
            == sorted[i + 1]);
        if run_ended {
            if i + 1 - run_start >= page_count {
                let run: Vec<u64> = copy_run(&sorted, run_start, page_count);
                proof {
                    assert(is_run(sorted@, run_start as int, page_count as nat));
                }
                return Some(run);
            }
            proof {
                lemma_run_ends(sorted@, run_start as int, i as int, page_count as nat);
            }
            run_start = i + 1;
        }
        i = i + 1;
    }
    proof {
        assert forall|j: int| !is_run(sorted@, j, page_count as nat) by {}
    }
    None
}

/// A run that is too short, and that cannot go on, holds no longer one.
proof fn lemma_run_ends(pfns: Seq<u64>, start: int, last: int, n: nat)
    requires
        0 <= start <= last < pfns.len(),
        is_run(pfns, start, (last + 1 - start) as nat),
        last + 1 == pfns.len() || pfns[last] + 1 != pfns[last + 1],
        last + 1 - start < n,
    ensures
        forall|j: int| start <= j <= last ==> !is_run(pfns, j, n),
{
    assert forall|j: int| start <= j <= last implies !is_run(pfns, j, n) by {
        if is_run(pfns, j, n) {
            assert(last + 1 < j + n);
            assert(pfns[last] == pfns[j] + (last - j));
            assert(pfns[last + 1] == pfns[j] + (last + 1 - j));
        }
    }
}

/// The page numbers from a place on.
fn copy_run(pfns: &Vec<u64>, start: usize, n: usize) -> (run: Vec<u64>)
    requires
        start + n <= pfns@.len(),
    ensures
        run@ == pfns@.subrange(start as int, start + n),
{
    let mut run: Vec<u64> = Vec::new();
    let mut k: usize = 0;
    while k < n
        invariant
            k <= n,
            start + n <= pfns@.len(),
            run@ == pfns@.subrange(start as int, start + k),
        decreases n - k,
    {
        proof {
            assert(pfns@.len() == pfns.len());
        }
        run.push(pfns[start + k]);
        proof {
            assert(run@ =~= pfns@.subrange(start as int, start + k + 1));
        }
        k = k + 1;
    }
    run
}

/// The first aligned page of a run of pages, with enough pages behind it.
pub open spec fn aligned_page(run: Seq<u64>, pages: nat, from: int) -> Option<u64>
    decreases run.len() - from,
{
    if from < 0 || from >= run.len() {
        None
    } else if run[from] % ALIGNED_PAGES == 0 {
        if run.len() - from >= pages {
            Some(run[from])
        } else {
            None
        }
    } else {
        aligned_page(run, pages, from + 1)
    }
}

fn find_aligned_page(run: &Vec<u64>, pages: usize) -> (page: Option<u64>)
    ensures
        page == aligned_page(run@, pages as nat, 0),
{
    let mut i: usize = 0;
    while i < run.len()
        invariant
            i <= run@.len(),
            aligned_page(run@, pages as nat, 0) == aligned_page(run@, pages as nat, i as int),
        decreases run@.len() - i,
    {
        if run[i] % ALIGNED_PAGES == 0 {
            if run.len() - i >= pages {
                return Some(run[i]);
            }
            return None;
        }
        i = i + 1;
    }
    None
}

/// Whether a page of some memory is the start of a guest's memory: the first
/// aligned page of the first run that has room for it wherever the run starts.
pub open spec fn is_ram_start(pfns: Seq<u64>, ram_size: u64, page: Option<u64>) -> bool {
    let wanted = pages_for((ram_size + BITMAP_ALIGNMENT - PAGE_SIZE) as nat);
    exists|run: Option<Seq<u64>>| #[trigger]
        is_first_run(pfns, wanted, run) && page == (match run {
            Some(run) => aligned_page(run, pages_for(ram_size as nat), 0),
            None => None,
        })
}

/// Whether the size of the memory to search for overflows.
pub open spec fn search_overflows(ram_size: u64) -> bool {
    ram_size + BITMAP_ALIGNMENT - PAGE_SIZE > u64::MAX
}

/// Looks for the memory of a guest in memory that was allocated.
pub fn find_ram(pfns: &Vec<u64>, ram_size: u64) -> (page: Result<Option<u64>, RamError>)
    requires
        ram_size + BITMAP_ALIGNMENT - PAGE_SIZE <= usize::MAX || search_overflows(ram_size),
    ensures
        match page {
            Ok(page) => !search_overflows(ram_size) && is_ram_start(pfns@, ram_size, page),
            Err(error) => search_overflows(ram_size) && error == RamError::SearchSizeOverflow,
        },
{
    let asking_size: u64 = match ram_size.checked_add(BITMAP_ALIGNMENT - PAGE_SIZE) {
        Some(size) => size,
        None => return Err(RamError::SearchSizeOverflow),
    };
    let run = contiguous_subpfns(pfns, asking_size as usize);
    match run {
        Some(run) => {
            let page_count: usize = (ram_size / PAGE_SIZE) as usize + if ram_size % PAGE_SIZE != 0 {
                1
            } else {
                0
            };
            let page = find_aligned_page(&run, page_count);
            proof {
                assert(is_first_run(
                    pfns@,
                    pages_for((ram_size + BITMAP_ALIGNMENT - PAGE_SIZE) as nat),
                    Some(run@),
                ));
            }
            Ok(page)
        },
        None => {
            proof {
                assert(is_first_run(
                    pfns@,
                    pages_for((ram_size + BITMAP_ALIGNMENT - PAGE_SIZE) as nat),
                    None,
                ));
            }
            Ok(None)
        },
    }
}

/// The search for the memory of a guest, which asks for twice as much with each
/// attempt.
#[derive(Clone, Copy, Debug, PartialEq, Eq, Structural)]
pub struct RamSearch {
    pub ram_size: u64,
    /// How much memory to ask for next.
    pub map_size: usize,
    /// How many attempts were made.
    pub attempts: usize,
}

/// What an attempt came to.
#[derive(Clone, Copy, Debug, PartialEq, Eq, Structural)]
pub enum RamAttempt {
    /// The memory starts at this page.
    Found(u64),
    /// More memory has to be asked for.
    Retry,
}

impl RamSearch {
    pub open spec fn wf(self) -> bool {
        &&& self.attempts < MAX_ALLOC_ATTEMPTS
        &&& self.ram_size + BITMAP_ALIGNMENT - PAGE_SIZE <= usize::MAX || search_overflows(
            self.ram_size,
        )
    }

    pub fn new(ram_size: u64) -> (search: RamSearch)
        requires
            ram_size + BITMAP_ALIGNMENT - PAGE_SIZE <= usize::MAX || search_overflows(ram_size),
            ram_size <= usize::MAX,
        ensures
            search == (RamSearch { ram_size, map_size: ram_size as usize, attempts: 0 }),
            search.wf(),
    {
        RamSearch { ram_size, map_size: ram_size as usize, attempts: 0 }
    }

    /// Looks at the memory that was allocated for an attempt.
    pub fn attempt(&mut self, pfns: &Vec<u64>) -> (result: Result<RamAttempt, RamError>)
        requires
            old(self).wf(),
        ensures
            final(self).ram_size == old(self).ram_size,
            match result {
                Ok(RamAttempt::Found(page)) => is_ram_start(
                    pfns@,
                    old(self).ram_size,
                    Some(page),
                ) && *final(self) == *old(self),
                Ok(RamAttempt::Retry) => {
                    &&& is_ram_start(pfns@, old(self).ram_size, None)
                    &&& final(self).wf()
                    &&& final(self).map_size == old(self).map_size * 2
                    &&& final(self).attempts == old(self).attempts + 1
                },
                Err(RamError::SearchSizeOverflow) => search_overflows(old(self).ram_size),
                Err(error) => {
                    &&& !search_overflows(old(self).ram_size)
                    &&& is_ram_start(pfns@, old(self).ram_size, None)
                    &&& error == (if old(self).map_size * 2 > usize::MAX {
                        RamError::AllocationSizeOverflow
                    } else {
                        RamError::NotContiguous
                    })
                    &&& old(self).map_size * 2 > usize::MAX || old(self).attempts + 1
                        == MAX_ALLOC_ATTEMPTS
                },
            },
            search_overflows(old(self).ram_size) ==> result is Err,
    {
        match find_ram(pfns, self.ram_size) {
            Ok(Some(page)) => return Ok(RamAttempt::Found(page)),
            Ok(None) => {},
            Err(error) => return Err(error),
        }
        match self.map_size.checked_mul(2) {
            Some(size) => {
                self.map_size = size;
            },
            None => return Err(RamError::AllocationSizeOverflow),
        }
        self.attempts = self.attempts + 1;
        if self.attempts == MAX_ALLOC_ATTEMPTS {
            return Err(RamError::NotContiguous);
        }
        Ok(RamAttempt::Retry)
    }
}

/// The memory of a guest that starts at a page.
pub fn ram_range(page: u64, ram_size: u64) -> (range: Result<MemoryRange, RamError>)
    requires
        page * PAGE_SIZE <= u64::MAX,
        ram_size % PAGE_SIZE == 0,
    ensures
        match range {
            Ok(range) => {
                &&& range.wf()
                &&& range.spec_start() == page * PAGE_SIZE
                &&& range.spec_end() == page * PAGE_SIZE + ram_size
            },
            Err(error) => page * PAGE_SIZE + ram_size > u64::MAX && error
                == RamError::RangeOverflow,
        },
{
    let start: u64 = page * PAGE_SIZE;
    match start.checked_add(ram_size) {
        Some(end) => {
            proof {
                assert(start % PAGE_SIZE == 0);
                assert(end % PAGE_SIZE == 0);
            }
            Ok(MemoryRange::new(start, end))
        },
        None => Err(RamError::RangeOverflow),
    }
}

/// The pages of a guest's memory follow each other, from an aligned one on, and
/// all of them were allocated.
pub proof fn ram_is_aligned_and_contiguous(pfns: Seq<u64>, ram_size: u64, page: u64, i: int)
    requires
        is_ram_start(pfns, ram_size, Some(page)),
        0 <= i < pages_for(ram_size as nat),
    ensures
        page % 8 == 0,
        page * 0x1000 % 0x8000 == 0,
        page + i <= u64::MAX,
        pfns.contains((page + i) as u64),
{
    broadcast use group_to_multiset_ensures;

    let wanted = pages_for((ram_size + BITMAP_ALIGNMENT - PAGE_SIZE) as nat);
    let pages = pages_for(ram_size as nat);
    let run = choose|run: Option<Seq<u64>>| #[trigger]
        is_first_run(pfns, wanted, run) && Some(page) == (match run {
            Some(run) => aligned_page(run, pages, 0),
            None => None,
        });
    let run = run->0;
    let sorted = choose|sorted: Seq<u64>|
        {
            &&& is_sorted(sorted)
            &&& #[trigger] sorted.to_multiset() == pfns.to_multiset()
            &&& exists|start: int|
                {
                    &&& #[trigger] is_run(sorted, start, wanted)
                    &&& forall|j: int| j < start ==> !is_run(sorted, j, wanted)
                    &&& run == sorted.subrange(start, start + wanted)
                }
        };
    let start = choose|start: int|
        {
            &&& #[trigger] is_run(sorted, start, wanted)
            &&& forall|j: int| j < start ==> !is_run(sorted, j, wanted)
            &&& run == sorted.subrange(start, start + wanted)
        };
    let place = lemma_aligned_page(run, pages, 0);
    assert(sorted[start + place] == page);
    assert(sorted[start + place + i] == sorted[start] + (place + i));
    assert(sorted[start + place] == sorted[start] + place);
    assert(sorted.contains(sorted[start + place + i]));
    assert(sorted.to_multiset().count(sorted[start + place + i]) > 0);
    assert(pfns.to_multiset().count((page + i) as u64) > 0);
}

/// Where the aligned page is in its run.
proof fn lemma_aligned_page(run: Seq<u64>, pages: nat, from: int) -> (place: int)
    requires
        0 <= from,
        aligned_page(run, pages, from) is Some,
    ensures
        from <= place < run.len(),
        run[place] == aligned_page(run, pages, from)->0,
        run[place] % ALIGNED_PAGES == 0,
        run.len() - place >= pages,
    decreases run.len() - from,
{
    if run[from] % ALIGNED_PAGES == 0 {
        from
    } else {
        lemma_aligned_page(run, pages, from + 1)
    }
}

/// Where a long enough run of pages was found, it has room for the memory of
/// the guest: the search for alignment never fails.
pub proof fn a_run_always_has_room(run: Seq<u64>, ram_size: u64)
    requires
        ram_size > 0,
        is_run(run, 0, run.len()),
        run.len() == pages_for((ram_size + BITMAP_ALIGNMENT - PAGE_SIZE) as nat),
    ensures
        aligned_page(run, pages_for(ram_size as nat), 0) is Some,
{
    assert(run.len() == pages_for(ram_size as nat) + 7);
    reveal_with_fuel(aligned_page, 9);
    let first = run[0] as int;
    assert(run[0] == first && run[1] == first + 1 && run[2] == first + 2 && run[3] == first + 3);
    assert(run[4] == first + 4 && run[5] == first + 5 && run[6] == first + 6 && run[7] == first
        + 7);
}

/// Memory is found where there is enough of it: where no page was allocated twice,
/// and the pages of a guest and seven more follow each other, a guest gets memory.
pub proof fn contiguous_memory_is_found(
    pfns: Seq<u64>,
    ram_size: u64,
    first: u64,
    page: Option<u64>,
)
    requires
        is_ram_start(pfns, ram_size, page),
        pfns.no_duplicates(),
        ram_size > 0,
        first + pages_for(ram_size as nat) + 7 <= u64::MAX,
        forall|i: int|
            0 <= i < pages_for(ram_size as nat) + 7 ==> pfns.contains(
                #[trigger] ((first + i) as u64),
            ),
    ensures
        page is Some,
{
    let wanted = pages_for((ram_size + BITMAP_ALIGNMENT - PAGE_SIZE) as nat);
    assert(wanted == pages_for(ram_size as nat) + 7);
    let run = choose|run: Option<Seq<u64>>| #[trigger]
        is_first_run(pfns, wanted, run) && page == (match run {
            Some(run) => aligned_page(run, pages_for(ram_size as nat), 0),
            None => None,
        });
    let sorted = choose|sorted: Seq<u64>|
        {
            &&& is_sorted(sorted)
            &&& #[trigger] sorted.to_multiset() == pfns.to_multiset()
            &&& match run {
                Some(run) => exists|start: int|
                    {
                        &&& #[trigger] is_run(sorted, start, wanted)
                        &&& forall|j: int| j < start ==> !is_run(sorted, j, wanted)
                        &&& run == sorted.subrange(start, start + wanted)
                    },
                None => forall|j: int| !is_run(sorted, j, wanted),
            }
        };
    match run {
        Some(run) => {
            let start = choose|start: int|
                {
                    &&& #[trigger] is_run(sorted, start, wanted)
                    &&& forall|j: int| j < start ==> !is_run(sorted, j, wanted)
                    &&& run == sorted.subrange(start, start + wanted)
                };
            assert(is_run(run, 0, wanted)) by {
                assert forall|i: int| 0 <= i < wanted implies #[trigger] run[i] == run[0] + i by {
                    assert(run[i] == sorted[start + i] && run[0] == sorted[start]);
                }
            }
            a_run_always_has_room(run, ram_size);
        },
        None => {
            lemma_distinct(pfns, sorted);
            let start = lemma_pages_follow(pfns, sorted, first, (wanted - 1) as nat);
            assert(is_run(sorted, start, wanted));
        },
    }
}

/// Numbers in another order are as distinct as they were.
proof fn lemma_distinct(pfns: Seq<u64>, sorted: Seq<u64>)
    requires
        pfns.no_duplicates(),
        sorted.to_multiset() == pfns.to_multiset(),
    ensures
        sorted.no_duplicates(),
        forall|x: u64| pfns.contains(x) ==> sorted.contains(x),
{
    broadcast use group_to_multiset_ensures;

    pfns.lemma_multiset_has_no_duplicates();
    sorted.lemma_multiset_has_no_duplicates_conv();
    assert forall|x: u64| pfns.contains(x) implies sorted.contains(x) by {
        assert(pfns.to_multiset().count(x) > 0);
        assert(sorted.to_multiset().count(x) > 0);
    }
}

/// Page numbers in order, among which some follow each other, have these behind each
/// other.
proof fn lemma_pages_follow(pfns: Seq<u64>, sorted: Seq<u64>, first: u64, n: nat) -> (start: int)
    requires
        is_sorted(sorted),
        sorted.no_duplicates(),
        forall|x: u64| pfns.contains(x) ==> sorted.contains(x),
        first + n <= u64::MAX,
        forall|i: int| 0 <= i <= n ==> pfns.contains(#[trigger] ((first + i) as u64)),
    ensures
        0 <= start,
        start + n < sorted.len(),
        forall|i: int| 0 <= i <= n ==> #[trigger] sorted[start + i] == first + i,
        is_run(sorted, start, n + 1),
    decreases n,
{
    if n == 0 {
        assert(pfns.contains((first + 0) as u64));
        let start = choose|k: int| 0 <= k < sorted.len() && sorted[k] == first;
        start
    } else {
        let start = lemma_pages_follow(pfns, sorted, first, (n - 1) as nat);
        let last = (first + n) as u64;
        assert(pfns.contains(last));
        let k = choose|k: int| 0 <= k < sorted.len() && sorted[k] == last;
        let end = start + (n - 1);
        assert(sorted[end] == first + (n - 1));
        if k <= end {
            assert(sorted[k] <= sorted[end]);
        }
        if k > end + 1 {
            assert(sorted[end] <= sorted[end + 1] <= sorted[k]);
            assert(sorted[end + 1] != sorted[end] && sorted[end + 1] != sorted[k]);
        }
        assert forall|i: int| 0 <= i <= n implies #[trigger] sorted[start + i] == first + i by {
            if i == n {
                assert(start + i == k);
            }
        }
        assert forall|i: int| start <= i < start + (n + 1) implies #[trigger] sorted[i]
            == sorted[start] + (i - start) by {
            assert(sorted[start + (i - start)] == first + (i - start));
            assert(sorted[start + 0] == first + 0);
        }
        start
    }
}

} // verus!
