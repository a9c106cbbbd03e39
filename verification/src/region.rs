//! Half-open ranges of storage-unit addresses.

use vstd::prelude::*;

verus! {

/// The addresses `start, start + 1, .., end - 1`.
///
/// A region whose `end` lies before its `start` holds no address and is
/// called unterminated.
#[derive(Clone, Copy, Debug, PartialEq, Eq, Structural)]
pub struct Region {
    pub start: usize,
    pub end: usize,
}

impl Region {
    /// The end does not lie before the start.
    pub open spec fn terminated(self) -> bool {
        self.start <= self.end
    }

    /// The number of addresses in the region.
    pub open spec fn spec_len(self) -> nat {
        if self.start <= self.end {
            (self.end - self.start) as nat
        } else {
            0
        }
    }

    /// `addr` is one of the region's addresses.
    pub open spec fn contains(self, addr: int) -> bool {
        self.start <= addr < self.end
    }

    /// Some address lies in both regions.
    pub open spec fn overlaps(self, other: Region) -> bool {
        self.start < self.end && other.start < other.end && self.start < other.end && other.start
            < self.end
    }

    /// Every address of the region is below `limit`.
    pub open spec fn within(self, limit: nat) -> bool {
        self.spec_len() == 0 || self.end <= limit
    }

    /// The region from `start` up to, not including, `end`.
    pub fn new(start: usize, end: usize) -> (region: Region)
        ensures
            region == (Region { start, end }),
    {
        Region { start, end }
    }

    /// The number of addresses in the region.
    pub fn len(&self) -> (n: usize)
        ensures
            n == self.spec_len(),
    {
        if self.start <= self.end {
            self.end - self.start
        } else {
            0
        }
    }

    /// Whether the region holds no address.
    pub fn is_empty(&self) -> (empty: bool)
        ensures
            empty <==> self.spec_len() == 0,
    {
        self.start >= self.end
    }

    /// Whether the end does not lie before the start.
    pub fn is_terminated(&self) -> (ok: bool)
        ensures
            ok == self.terminated(),
    {
        self.start <= self.end
    }

    /// Whether `addr` is one of the region's addresses.
    pub fn holds(&self, addr: usize) -> (inside: bool)
        ensures
            inside == self.contains(addr as int),
    {
        self.start <= addr && addr < self.end
    }

    /// Whether some address lies in both regions.
    pub fn intersects(&self, other: &Region) -> (shared: bool)
        ensures
            shared == self.overlaps(*other),
    {
        self.start < self.end && other.start < other.end && self.start < other.end && other.start
            < self.end
    }

    /// Whether every address of the region is below `limit`.
    pub fn fits_within(&self, limit: usize) -> (ok: bool)
        ensures
            ok == self.within(limit as nat),
    {
        self.start >= self.end || self.end <= limit
    }
}

/// Two regions overlap exactly when they share an address.
pub proof fn lemma_overlap_is_shared_address(a: Region, b: Region)
    ensures
        a.overlaps(b) <==> exists|addr: int| a.contains(addr) && b.contains(addr),
{
    if a.overlaps(b) {
        let addr = if a.start <= b.start {
            b.start as int
        } else {
            a.start as int
        };
        assert(a.contains(addr) && b.contains(addr));
    }
}

} // verus!
