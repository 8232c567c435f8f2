use vstd::prelude::*;

verus! {

/// A virtual address range `[start, end)` whose contents are executed in place
/// from flash and must never be written by the loader.
#[derive(Clone, Copy, Debug, PartialEq, Eq, Structural)]
pub struct XipRegion {
    start: usize,
    end: usize,
}

impl View for XipRegion {
    type V = (usize, usize);

    closed spec fn view(&self) -> (usize, usize) {
        (self.start, self.end)
    }
}

/// The region `r` is non-empty and holds the whole range `[start, end)`.
pub open spec fn region_holds(r: (usize, usize), start: int, end: int) -> bool {
    r.0 < r.1 && start >= r.0 && end <= r.1
}

/// The region `r` and the range `[start, end)` share at least one address.
pub open spec fn region_meets(r: (usize, usize), start: int, end: int) -> bool {
    r.0 < end && start < r.1
}

impl XipRegion {
    pub fn new(start: usize, end: usize) -> (r: Self)
        ensures
            r@ == (start, end),
    {
        Self { start, end }
    }

    /// The region is non-empty and covers the whole range `[start, end)`.
    pub fn contains(self, start: usize, end: usize) -> (b: bool)
        ensures
            b == region_holds(self@, start as int, end as int),
    {
        self.start < self.end && start >= self.start && end <= self.end
    }

    /// The region and the range `[start, end)` overlap.
    pub fn intersects(self, start: usize, end: usize) -> (b: bool)
        ensures
            b == region_meets(self@, start as int, end as int),
    {
        self.start < end && start < self.end
    }
}

} // verus!
