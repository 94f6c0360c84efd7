use crate::runner::TestRunner;
use crate::strategy::{Reject, Strategy, ValueTree};
use vstd::prelude::*;

verus! {

/// The value tree of a pair of strategies: shrinks the first component
/// until it cannot, then the second.
#[derive(Clone, Debug)]
pub struct TupleValueTree<A, B> {
    first: A,
    second: B,
    shrinker: usize,
    prev_shrinker: Option<usize>,
}

impl<A, B> TupleValueTree<A, B> {
    pub closed spec fn parts(&self) -> (A, B) {
        (self.first, self.second)
    }

    pub closed spec fn position(&self) -> usize {
        self.shrinker
    }

    pub closed spec fn last_step(&self) -> Option<usize> {
        self.prev_shrinker
    }

    /// Pairs two trees, before any shrinking.
    pub fn new(first: A, second: B) -> (r: TupleValueTree<A, B>)
        ensures
            r.parts() == (first, second),
            r.position() == 0,
            r.last_step() == None::<usize>,
    {
        TupleValueTree { first, second, shrinker: 0, prev_shrinker: None }
    }
}

impl<A: ValueTree, B: ValueTree> ValueTree for TupleValueTree<A, B> {
    type Value = (A::Value, B::Value);

    type Model = (A::Model, B::Model);

    open spec fn inv(&self) -> bool {
        &&& self.parts().0.inv()
        &&& self.parts().1.inv()
        &&& self.position() <= 2
        &&& match self.last_step() {
            Some(i) => i < 2,
            None => true,
        }
    }

    open spec fn model(&self) -> (A::Model, B::Model) {
        (self.parts().0.model(), self.parts().1.model())
    }

    open spec fn reads(m: (A::Model, B::Model), v: (A::Value, B::Value)) -> bool {
        A::reads(m.0, v.0) && B::reads(m.1, v.1)
    }

    open spec fn undoable(&self) -> bool {
        match self.last_step() {
            Some(0) => self.parts().0.undoable(),
            Some(_) => self.parts().1.undoable(),
            None => false,
        }
    }

    open spec fn prior(&self) -> (A::Model, B::Model) {
        match self.last_step() {
            Some(0) => (self.parts().0.prior(), self.parts().1.model()),
            Some(_) => (self.parts().0.model(), self.parts().1.prior()),
            None => self.model(),
        }
    }

    open spec fn budget(&self) -> nat {
        if self.position() == 0 {
            self.parts().0.budget() + 1 + self.parts().1.budget() + 1
        } else if self.position() == 1 {
            self.parts().1.budget() + 1
        } else {
            0
        }
    }

    open spec fn floor(&self) -> nat {
        0
    }

    fn current(&self) -> (v: (A::Value, B::Value)) {
        (self.first.current(), self.second.current())
    }

    fn simplify(&mut self) -> (r: bool) {
        if self.shrinker == 0 {
            if self.first.simplify() {
                self.prev_shrinker = Some(0);
                return true;
            }
            self.shrinker = 1;
        }
        if self.shrinker == 1 {
            if self.second.simplify() {
                self.prev_shrinker = Some(1);
                return true;
            }
            self.shrinker = 2;
        }
        false
    }

    fn complicate(&mut self) -> (r: bool) {
        match self.prev_shrinker {
            None => false,
            Some(i) => {
                let r = if i == 0 {
                    self.first.complicate()
                } else {
                    self.second.complicate()
                };
                if !r {
                    self.prev_shrinker = None;
                }
                r
            },
        }
    }
}

impl<A: Strategy, B: Strategy> Strategy for (A, B) {
    type Tree = TupleValueTree<A::Tree, B::Tree>;

    open spec fn inv(&self) -> bool {
        self.0.inv() && self.1.inv()
    }

    open spec fn produces(&self, t: TupleValueTree<A::Tree, B::Tree>) -> bool {
        &&& self.0.produces(t.parts().0)
        &&& self.1.produces(t.parts().1)
        &&& t.position() == 0
        &&& t.last_step() == None::<usize>
    }

    open spec fn never_rejects(&self) -> bool {
        self.0.never_rejects() && self.1.never_rejects()
    }

    fn new_value(&self, runner: &mut TestRunner) -> (r: Result<
        TupleValueTree<A::Tree, B::Tree>,
        Reject,
    >) {
        let a = match self.0.new_value(runner) {
            Ok(a) => a,
            Err(e) => {
                return Err(e);
            },
        };
        let b = match self.1.new_value(runner) {
            Ok(b) => b,
            Err(e) => {
                return Err(e);
            },
        };
        Ok(TupleValueTree::new(a, b))
    }
}

} // verus!
