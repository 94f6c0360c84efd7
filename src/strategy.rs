use crate::runner::TestRunner;
use vstd::prelude::*;

verus! {

/// Why a strategy could not produce a value.
#[derive(Clone, Copy, Debug, PartialEq, Eq, Structural)]
pub enum Reject {
    /// Every attempt folded into a container smaller than its minimum size.
    BelowMinimumSize,
}

/// A single generated candidate together with the state needed to
/// minimise it.
///
/// `model` is the data that `current` reads; `reads` relates a model to the
/// values it may be read as. A successful `simplify` can be undone by one
/// `complicate`, which restores the model recorded in `prior`. `budget`
/// strictly drops on every successful `simplify` and never grows on
/// `complicate`, so a run of `simplify` calls always ends with `false`.
pub trait ValueTree: Sized {
    type Value;

    type Model;

    spec fn inv(&self) -> bool;

    spec fn model(&self) -> Self::Model;

    spec fn reads(m: Self::Model, v: Self::Value) -> bool;

    spec fn undoable(&self) -> bool;

    spec fn prior(&self) -> Self::Model;

    spec fn budget(&self) -> nat;

    /// A lower bound fixed when the tree is made and kept for its lifetime
    /// (the minimum length of a collection; zero where there is none).
    spec fn floor(&self) -> nat;

    /// Reads the current candidate.
    fn current(&self) -> (v: Self::Value)
        requires
            self.inv(),
        ensures
            Self::reads(self.model(), v),
    ;

    /// Tries one reduction step; `false` when no reduction is left.
    fn simplify(&mut self) -> (r: bool)
        requires
            old(self).inv(),
        ensures
            final(self).inv(),
            r ==> final(self).undoable(),
            r ==> final(self).prior() == old(self).model(),
            r ==> final(self).budget() < old(self).budget(),
            !r ==> final(self).model() == old(self).model(),
            !r ==> final(self).budget() == 0,
            final(self).floor() == old(self).floor(),
    ;

    /// Undoes the most recent successful `simplify`; `false` when there is
    /// nothing to undo.
    fn complicate(&mut self) -> (r: bool)
        requires
            old(self).inv(),
        ensures
            final(self).inv(),
            r == old(self).undoable(),
            r ==> final(self).model() == old(self).prior(),
            !r ==> final(self).model() == old(self).model(),
            final(self).budget() <= old(self).budget(),
            final(self).floor() == old(self).floor(),
    ;
}

/// A reusable description of a domain: each call of `new_value` draws a
/// fresh value tree from it.
pub trait Strategy {
    type Tree: ValueTree;

    spec fn inv(&self) -> bool;

    /// `t` is one of the value trees that `new_value` may hand out.
    spec fn produces(&self, t: Self::Tree) -> bool;

    /// No draw of this strategy is ever rejected.
    spec fn never_rejects(&self) -> bool;

    /// Draws a new value tree from the runner's randomness.
    fn new_value(&self, runner: &mut TestRunner) -> (r: Result<Self::Tree, Reject>)
        requires
            self.inv(),
        ensures
            r matches Ok(t) ==> t.inv() && self.produces(t),
            self.never_rejects() ==> r is Ok,
    ;
}

} // verus!
