//! Page-aligned ranges of guest physical addresses.

use vstd::prelude::*;

verus! {

/// The granularity of a [`MemoryRange`].
pub const PAGE_SIZE: u64 = 4096;

/// A half-open range of page-aligned addresses.
#[derive(Clone, Copy, Debug, PartialEq, Eq, Structural)]
pub struct MemoryRange {
    start: u64,
    end: u64,
}

impl MemoryRange {
    /// The first address of the range.
    pub closed spec fn spec_start(self) -> u64 {
        self.start
    }

    /// The first address behind the range.
    pub closed spec fn spec_end(self) -> u64 {
        self.end
    }

    /// Both ends are page-aligned and in order.
    pub open spec fn wf(self) -> bool {
        &&& self.spec_start() <= self.spec_end()
        &&& self.spec_start() % PAGE_SIZE == 0
        &&& self.spec_end() % PAGE_SIZE == 0
    }

    /// Whether `address` lies inside the range.
    pub open spec fn spec_contains(self, address: u64) -> bool {
        self.spec_start() <= address < self.spec_end()
    }

    /// The range from `start` up to, and not with, `end`.
    pub fn new(start: u64, end: u64) -> (range: MemoryRange)
        requires
            start <= end,
            start % PAGE_SIZE == 0,
            end % PAGE_SIZE == 0,
        ensures
            range.wf(),
            range.spec_start() == start,
            range.spec_end() == end,
    {
        MemoryRange { start, end }
    }

    pub fn start(&self) -> (start: u64)
        ensures
            start == self.spec_start(),
    {
        self.start
    }

    pub fn end(&self) -> (end: u64)
        ensures
            end == self.spec_end(),
    {
        self.end
    }

    /// The length in bytes.
    pub fn len(&self) -> (len: u64)
        requires
            self.wf(),
        ensures
            len == self.spec_end() - self.spec_start(),
    {
        self.end - self.start
    }

    pub fn contains_addr(&self, address: u64) -> (inside: bool)
        ensures
            inside == self.spec_contains(address),
    {
        self.start <= address && address < self.end
    }
}

} // verus!
