use crate::runner::TestRunner;
use crate::strategy::{Reject, Strategy, ValueTree};
use rand_xorshift::XorShiftRng;
use std::marker::PhantomData;
use std::sync::Arc;
use vstd::prelude::*;
use vstd::std_specs::convert::FromSpec;

verus! {

/// Strategy and value tree that apply a function to every value of a
/// source. The function is shared by every tree the strategy makes.
#[derive(Clone)]
pub struct Mapped<S, F> {
    pub source: S,
    pub fun: Arc<F>,
}

impl<S, F> Mapped<S, F> {
    /// Maps the values of `source` through `fun`.
    pub fn new(source: S, fun: F) -> (r: Mapped<S, F>)
        ensures
            r.source == source,
            *r.fun == fun,
    {
        Mapped { source, fun: Arc::new(fun) }
    }
}

impl<S: Strategy, O, F: Fn(<S::Tree as ValueTree>::Value) -> O> Strategy for Mapped<S, F> {
    type Tree = Mapped<S::Tree, F>;

    open spec fn inv(&self) -> bool {
        &&& self.source.inv()
        &&& forall|v: <S::Tree as ValueTree>::Value| (*self.fun).requires((v,))
    }

    open spec fn produces(&self, t: Mapped<S::Tree, F>) -> bool {
        self.source.produces(t.source) && *t.fun == *self.fun
    }

    open spec fn never_rejects(&self) -> bool {
        self.source.never_rejects()
    }

    fn new_value(&self, runner: &mut TestRunner) -> (r: Result<Mapped<S::Tree, F>, Reject>) {
        match self.source.new_value(runner) {
            Ok(v) => Ok(Mapped { source: v, fun: Arc::clone(&self.fun) }),
            Err(e) => Err(e),
        }
    }
}

impl<S: ValueTree, O, F: Fn(S::Value) -> O> ValueTree for Mapped<S, F> {
    type Value = O;

    type Model = (S::Model, F);

    open spec fn inv(&self) -> bool {
        &&& self.source.inv()
        &&& forall|v: S::Value| (*self.fun).requires((v,))
    }

    open spec fn model(&self) -> (S::Model, F) {
        (self.source.model(), *self.fun)
    }

    open spec fn reads(m: (S::Model, F), o: O) -> bool {
        exists|v: S::Value| S::reads(m.0, v) && m.1.ensures((v,), o)
    }

    open spec fn undoable(&self) -> bool {
        self.source.undoable()
    }

    open spec fn prior(&self) -> (S::Model, F) {
        (self.source.prior(), *self.fun)
    }

    open spec fn budget(&self) -> nat {
        self.source.budget()
    }

    open spec fn floor(&self) -> nat {
        self.source.floor()
    }

    fn current(&self) -> (o: O) {
        let v = self.source.current();
        let ghost gv = v;
        let f: &F = &self.fun;
        let o = f(v);
        assert(S::reads(self.model().0, gv) && self.model().1.ensures((gv,), o));
        o
    }

    fn simplify(&mut self) -> (r: bool) {
        self.source.simplify()
    }

    fn complicate(&mut self) -> (r: bool) {
        self.source.complicate()
    }
}

/// Strategy and value tree that convert every value of a source into `O`.
#[derive(Debug)]
pub struct MapInto<S, O> {
    pub source: S,
    pub output: PhantomData<O>,
}

impl<S, O> MapInto<S, O> {
    /// Converts the values of `source` into `O`.
    pub fn new(source: S) -> (r: MapInto<S, O>)
        ensures
            r.source == source,
    {
        MapInto { source, output: PhantomData }
    }
}

impl<S: Strategy, O: From<<S::Tree as ValueTree>::Value>> Strategy for MapInto<S, O> {
    type Tree = MapInto<S::Tree, O>;

    open spec fn inv(&self) -> bool {
        self.source.inv()
    }

    open spec fn produces(&self, t: MapInto<S::Tree, O>) -> bool {
        self.source.produces(t.source)
    }

    open spec fn never_rejects(&self) -> bool {
        self.source.never_rejects()
    }

    fn new_value(&self, runner: &mut TestRunner) -> (r: Result<MapInto<S::Tree, O>, Reject>) {
        match self.source.new_value(runner) {
            Ok(v) => Ok(MapInto::new(v)),
            Err(e) => Err(e),
        }
    }
}

impl<S: ValueTree, O: From<S::Value>> ValueTree for MapInto<S, O> {
    type Value = O;

    type Model = S::Model;

    open spec fn inv(&self) -> bool {
        self.source.inv()
    }

    open spec fn model(&self) -> S::Model {
        self.source.model()
    }

    open spec fn reads(m: S::Model, o: O) -> bool {
        exists|v: S::Value|
            S::reads(m, v) && (O::obeys_from_spec() ==> o == O::from_spec(v))
    }

    open spec fn undoable(&self) -> bool {
        self.source.undoable()
    }

    open spec fn prior(&self) -> S::Model {
        self.source.prior()
    }

    open spec fn budget(&self) -> nat {
        self.source.budget()
    }

    open spec fn floor(&self) -> nat {
        self.source.floor()
    }

    fn current(&self) -> (o: O) {
        let v = self.source.current();
        let ghost gv = v;
        let o = O::from(v);
        assert(S::reads(self.model(), gv) && (O::obeys_from_spec() ==> o == O::from_spec(gv)));
        o
    }

    fn simplify(&mut self) -> (r: bool) {
        self.source.simplify()
    }

    fn complicate(&mut self) -> (r: bool) {
        self.source.complicate()
    }
}

/// Strategy that hands each value of a source, together with a generator of
/// its own, to a function.
#[derive(Clone)]
pub struct Perturb<S, F> {
    pub source: S,
    pub fun: Arc<F>,
}

impl<S, F> Perturb<S, F> {
    /// Perturbs the values of `source` through `fun`.
    pub fn new(source: S, fun: F) -> (r: Perturb<S, F>)
        ensures
            r.source == source,
            *r.fun == fun,
    {
        Perturb { source, fun: Arc::new(fun) }
    }
}

/// The value tree of `Perturb`: a source tree, the shared function, and a
/// generator forked when the tree was made, which reads never advance.
#[derive(Clone)]
pub struct PerturbValueTree<S, F> {
    source: S,
    fun: Arc<F>,
    rng: XorShiftRng,
}

impl<S, F> PerturbValueTree<S, F> {
    pub closed spec fn source_tree(&self) -> S {
        self.source
    }

    pub closed spec fn function(&self) -> F {
        *self.fun
    }

    pub closed spec fn stream(&self) -> XorShiftRng {
        self.rng
    }
}

impl<
    S: Strategy,
    O,
    F: Fn(<S::Tree as ValueTree>::Value, XorShiftRng) -> O,
> Strategy for Perturb<S, F> {
    type Tree = PerturbValueTree<S::Tree, F>;

    open spec fn inv(&self) -> bool {
        &&& self.source.inv()
        &&& forall|v: <S::Tree as ValueTree>::Value, g: XorShiftRng| (*self.fun).requires((v, g))
    }

    open spec fn produces(&self, t: PerturbValueTree<S::Tree, F>) -> bool {
        self.source.produces(t.source_tree()) && t.function() == *self.fun
    }

    open spec fn never_rejects(&self) -> bool {
        self.source.never_rejects()
    }

    fn new_value(&self, runner: &mut TestRunner) -> (r: Result<PerturbValueTree<S::Tree, F>, Reject>) {
        let rng = runner.new_rng();
        match self.source.new_value(runner) {
            Ok(v) => Ok(PerturbValueTree { source: v, fun: Arc::clone(&self.fun), rng }),
            Err(e) => Err(e),
        }
    }
}

impl<S: ValueTree, O, F: Fn(S::Value, XorShiftRng) -> O> ValueTree for PerturbValueTree<S, F> {
    type Value = O;

    type Model = (S::Model, F, XorShiftRng);

    open spec fn inv(&self) -> bool {
        &&& self.source_tree().inv()
        &&& forall|v: S::Value, g: XorShiftRng| self.function().requires((v, g))
    }

    open spec fn model(&self) -> (S::Model, F, XorShiftRng) {
        (self.source_tree().model(), self.function(), self.stream())
    }

    open spec fn reads(m: (S::Model, F, XorShiftRng), o: O) -> bool {
        exists|v: S::Value| S::reads(m.0, v) && m.1.ensures((v, m.2), o)
    }

    open spec fn undoable(&self) -> bool {
        self.source_tree().undoable()
    }

    open spec fn prior(&self) -> (S::Model, F, XorShiftRng) {
        (self.source_tree().prior(), self.function(), self.stream())
    }

    open spec fn budget(&self) -> nat {
        self.source_tree().budget()
    }

    open spec fn floor(&self) -> nat {
        self.source_tree().floor()
    }

    fn current(&self) -> (o: O) {
        let v = self.source.current();
        let ghost gv = v;
        let g = self.rng.clone();
        let f: &F = &self.fun;
        let o = f(v, g);
        assert(S::reads(self.model().0, gv) && self.model().1.ensures((gv, self.model().2), o));
        o
    }

    fn simplify(&mut self) -> (r: bool) {
        let r = self.source.simplify();
        assert(self.function() == old(self).function());
        r
    }

    fn complicate(&mut self) -> (r: bool) {
        let r = self.source.complicate();
        assert(self.function() == old(self).function());
        r
    }
}

/// Where each source model is read as one value only and `O`'s `From`
/// follows its specification, a converted model is read as one value only:
/// the value before a successful `simplify` comes back after the
/// `complicate` that undoes it.
pub proof fn lemma_map_into_reads_unique<S: ValueTree, O: From<S::Value>>(
    m: S::Model,
    a: O,
    b: O,
)
    requires
        forall|e: S::Model, x: S::Value, y: S::Value| S::reads(e, x) && S::reads(e, y) ==> x == y,
        O::obeys_from_spec(),
        MapInto::<S, O>::reads(m, a),
        MapInto::<S, O>::reads(m, b),
    ensures
        a == b,
{
    let x = choose|x: S::Value| S::reads(m, x) && (O::obeys_from_spec() ==> a == O::from_spec(x));
    let y = choose|y: S::Value| S::reads(m, y) && (O::obeys_from_spec() ==> b == O::from_spec(y));
    assert(S::reads(m, x) && S::reads(m, y));
}

} // verus!
