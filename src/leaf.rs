use crate::runner::TestRunner;
use crate::strategy::{Reject, Strategy, ValueTree};
use vstd::prelude::*;

verus! {

/// A strategy, and its value tree, that always yields one value and never
/// shrinks.
#[derive(Clone, Copy, Debug)]
pub struct Just<T: Copy>(pub T);

impl<T: Copy> Strategy for Just<T> {
    type Tree = Just<T>;

    open spec fn inv(&self) -> bool {
        true
    }

    open spec fn produces(&self, t: Just<T>) -> bool {
        t.0 == self.0
    }

    open spec fn never_rejects(&self) -> bool {
        true
    }

    fn new_value(&self, runner: &mut TestRunner) -> (r: Result<Just<T>, Reject>) {
        Ok(Just(self.0))
    }
}

impl<T: Copy> ValueTree for Just<T> {
    type Value = T;

    type Model = T;

    open spec fn inv(&self) -> bool {
        true
    }

    open spec fn model(&self) -> T {
        self.0
    }

    open spec fn reads(m: T, v: T) -> bool {
        v == m
    }

    open spec fn undoable(&self) -> bool {
        false
    }

    open spec fn prior(&self) -> T {
        self.0
    }

    open spec fn budget(&self) -> nat {
        0
    }

    open spec fn floor(&self) -> nat {
        0
    }

    fn current(&self) -> (v: T) {
        self.0
    }

    fn simplify(&mut self) -> (r: bool) {
        false
    }

    fn complicate(&mut self) -> (r: bool) {
        false
    }
}

/// Strategy for integers drawn uniformly from `[start, end)`, which shrink
/// towards `start`.
#[derive(Clone, Copy, Debug, PartialEq, Eq, Structural)]
pub struct U32Range {
    pub start: u32,
    pub end: u32,
}

impl U32Range {
    /// Integers of `[start, end)`.
    pub fn new(start: u32, end: u32) -> (r: U32Range)
        ensures
            r.start == start,
            r.end == end,
    {
        U32Range { start, end }
    }
}

/// Binary search for the smallest integer that still fails: `curr` is the
/// candidate, `lo..=hi` the interval still searched, and `hi` the last
/// candidate when the latest step can be undone.
#[derive(Clone, Copy, Debug, PartialEq, Eq, Structural)]
pub struct BinarySearch {
    lo: u32,
    curr: u32,
    hi: u32,
    undo: bool,
}

impl BinarySearch {
    pub closed spec fn low(&self) -> u32 {
        self.lo
    }

    pub closed spec fn candidate(&self) -> u32 {
        self.curr
    }

    pub closed spec fn high(&self) -> u32 {
        self.hi
    }

    pub closed spec fn can_undo(&self) -> bool {
        self.undo
    }

    /// A search that starts at `start` and shrinks towards `low`.
    pub fn new(low: u32, start: u32) -> (r: BinarySearch)
        requires
            low <= start,
        ensures
            r.inv(),
            r.low() == low,
            r.candidate() == start,
            r.high() == start,
            !r.can_undo(),
    {
        BinarySearch { lo: low, curr: start, hi: start, undo: false }
    }
}

impl ValueTree for BinarySearch {
    type Value = u32;

    type Model = u32;

    open spec fn inv(&self) -> bool {
        &&& self.low() <= self.candidate() <= self.high()
        &&& self.can_undo() ==> self.candidate() < self.high() && self.candidate()
            == self.low() + (self.high() - self.low()) / 2
    }

    open spec fn model(&self) -> u32 {
        self.candidate()
    }

    open spec fn reads(m: u32, v: u32) -> bool {
        v == m
    }

    open spec fn undoable(&self) -> bool {
        self.can_undo()
    }

    open spec fn prior(&self) -> u32 {
        if self.can_undo() {
            self.high()
        } else {
            self.candidate()
        }
    }

    open spec fn budget(&self) -> nat {
        (self.candidate() - self.low()) as nat
    }

    open spec fn floor(&self) -> nat {
        0
    }

    fn current(&self) -> (v: u32) {
        self.curr
    }

    fn simplify(&mut self) -> (r: bool)
        ensures
            r ==> final(self).high() == old(self).candidate(),
            r ==> final(self).candidate() == old(self).low() + (old(self).candidate() - old(self).low()) / 2,
            final(self).low() == old(self).low(),
            r == (old(self).candidate() != old(self).low()),
    {
        if self.curr == self.lo {
            return false;
        }
        self.hi = self.curr;
        self.curr = self.lo + (self.hi - self.lo) / 2;
        self.undo = true;
        true
    }

    fn complicate(&mut self) -> (r: bool)
        ensures
            r ==> final(self).low() == old(self).candidate() + 1,
            r ==> final(self).candidate() == old(self).high(),
            final(self).high() == old(self).high(),
            !r ==> *final(self) == *old(self),
    {
        if !self.undo {
            return false;
        }
        self.lo = self.curr + 1;
        self.curr = self.hi;
        self.undo = false;
        true
    }
}

impl Strategy for U32Range {
    type Tree = BinarySearch;

    open spec fn inv(&self) -> bool {
        self.start < self.end
    }

    open spec fn produces(&self, t: BinarySearch) -> bool {
        &&& self.start <= t.candidate() < self.end
        &&& t.low() == self.start
        &&& t.high() == t.candidate()
        &&& !t.can_undo()
    }

    open spec fn never_rejects(&self) -> bool {
        true
    }

    fn new_value(&self, runner: &mut TestRunner) -> (r: Result<BinarySearch, Reject>) {
        let x = runner.sample_size(self.start as usize, self.end as usize);
        Ok(BinarySearch::new(self.start, x as u32))
    }
}

} // verus!
