use vstd::prelude::*;

verus! {

/// Bounds on the size of a generated collection: the half-open interval
/// `[start, end)`.
#[derive(Clone, Copy, Debug, PartialEq, Eq, Structural, Hash)]
pub struct SizeRange {
    pub start: usize,
    pub end: usize,
}

impl SizeRange {
    /// Both bounds are ordered.
    pub open spec fn wf(self) -> bool {
        self.start <= self.end
    }

    /// At least one size lies in the interval.
    pub open spec fn nonempty(self) -> bool {
        self.start < self.end
    }

    /// Creates the interval `[range.start, range.end)`.
    pub fn new(range: std::ops::Range<usize>) -> (r: SizeRange)
        requires
            range.start <= range.end,
        ensures
            r.start == range.start,
            r.end == range.end,
            r.wf(),
    {
        SizeRange { start: range.start, end: range.end }
    }

    /// Creates `[low, high)` from a pair of bounds.
    pub fn from_pair(low: usize, high: usize) -> (r: SizeRange)
        requires
            low <= high,
        ensures
            r.start == low,
            r.end == high,
            r.wf(),
    {
        SizeRange { start: low, end: high }
    }

    /// Creates `[exact, exact + 1)`: exactly one size.
    pub fn exactly(exact: usize) -> (r: SizeRange)
        requires
            exact < usize::MAX,
        ensures
            r.start == exact,
            r.end == exact + 1,
            r.wf(),
    {
        SizeRange { start: exact, end: exact + 1 }
    }

    /// Creates `[0, high)`.
    pub fn up_to(high: usize) -> (r: SizeRange)
        ensures
            r.start == 0,
            r.end == high,
            r.wf(),
    {
        SizeRange { start: 0, end: high }
    }

    /// Returns the interval as a plain range.
    pub fn to_range(self) -> (r: std::ops::Range<usize>)
        ensures
            r.start == self.start,
            r.end == self.end,
    {
        self.start..self.end
    }

    /// Shifts both bounds up by `rhs`.
    pub fn add(self, rhs: usize) -> (r: SizeRange)
        requires
            self.end + rhs <= usize::MAX,
            self.start <= self.end,
        ensures
            r.start == self.start + rhs,
            r.end == self.end + rhs,
            r.wf(),
    {
        SizeRange { start: self.start + rhs, end: self.end + rhs }
    }

    /// Pairs the interval with another parameter.
    pub fn with<X>(self, and: X) -> (r: (SizeRange, X))
        ensures
            r.0 == self,
            r.1 == and,
    {
        (self, and)
    }

    /// Pairs the interval with `X`'s default value.
    pub fn lift<X: Default>(self) -> (r: (SizeRange, X))
        ensures
            r.0 == self,
            call_ensures(X::default, (), r.1),
    {
        let x = X::default();
        self.with(x)
    }
}

/// Creates the interval `[low, high)`.
pub fn size_range(low: usize, high: usize) -> (r: SizeRange)
    requires
        low <= high,
    ensures
        r.start == low,
        r.end == high,
{
    SizeRange::from_pair(low, high)
}

impl Default for SizeRange {
    /// The interval `[0, 100)`.
    fn default() -> (r: SizeRange)
        ensures
            r.start == 0,
            r.end == 100,
    {
        size_range(0, 100)
    }
}

} // verus!
