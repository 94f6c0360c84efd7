use crate::collection::{VecStrategy, VecValueTree};
use crate::runner::TestRunner;
use crate::size_range::SizeRange;
use crate::strategy::{Reject, Strategy, ValueTree};
use std::collections::{BTreeMap, BTreeSet, HashMap, HashSet, VecDeque};
use std::hash::Hash;
use std::marker::PhantomData;
use vstd::laws_cmp::obeys_cmp;
use vstd::prelude::*;
use vstd::std_specs::btree::{
    axiom_key_obeys_cmp_spec_meaning, axiom_spec_btree_map_len, axiom_spec_btree_set_len,
};
use vstd::std_specs::hash::{axiom_random_state_builds_valid_hashers, obeys_key_model};

verus! {

/// How many fresh vectors a set or map strategy draws before it gives up on
/// reaching its minimum size.
pub const MAX_LOCAL_REJECTS: u32 = 65536;

/// The set of the items.
pub open spec fn set_of<T>(items: Seq<T>) -> Set<T>
    decreases items.len(),
{
    if items.len() == 0 {
        Set::empty()
    } else {
        set_of(items.drop_last()).insert(items.last())
    }
}

/// The map of the pairs, a later pair overriding an earlier one of the same
/// key.
pub open spec fn map_of<K, V>(items: Seq<(K, V)>) -> Map<K, V>
    decreases items.len(),
{
    if items.len() == 0 {
        Map::empty()
    } else {
        map_of(items.drop_last()).insert(items.last().0, items.last().1)
    }
}

/// No two pairs share a key.
pub open spec fn keys_distinct<K, V>(items: Seq<(K, V)>) -> bool {
    forall|i: int, j: int| 0 <= i < j < items.len() ==> items[i].0 != items[j].0
}

proof fn lemma_map_of_dom<K, V>(items: Seq<(K, V)>)
    ensures
        map_of(items).dom().finite(),
        forall|k: K|
            #[trigger] map_of(items).contains_key(k) <==> exists|i: int|
                0 <= i < items.len() && items[i].0 == k,
    decreases items.len(),
{
    if items.len() > 0 {
        let p = items.drop_last();
        lemma_map_of_dom(p);
        assert forall|k: K| #[trigger] map_of(items).contains_key(k) implies exists|i: int|
            0 <= i < items.len() && items[i].0 == k by {
            if k != items.last().0 {
                let i = choose|i: int| 0 <= i < p.len() && p[i].0 == k;
                assert(items[i] == p[i]);
            }
        }
        assert forall|k: K|
            (exists|i: int| 0 <= i < items.len() && items[i].0 == k) implies #[trigger] map_of(
            items,
        ).contains_key(k) by {
            let i = choose|i: int| 0 <= i < items.len() && items[i].0 == k;
            if i < items.len() - 1 {
                assert(p[i] == items[i]);
            }
        }
    }
}

/// Folding pairs with pairwise distinct keys into a map keeps one entry per
/// pair: the map is exactly as large as the sequence.
pub proof fn lemma_map_of_len<K, V>(items: Seq<(K, V)>)
    requires
        keys_distinct(items),
    ensures
        map_of(items).dom().finite(),
        map_of(items).len() == items.len(),
    decreases items.len(),
{
    lemma_map_of_dom(items);
    if items.len() > 0 {
        let p = items.drop_last();
        assert(keys_distinct(p)) by {
            assert forall|i: int, j: int| 0 <= i < j < p.len() implies p[i].0 != p[j].0 by {
                assert(p[i] == items[i] && p[j] == items[j]);
            }
        }
        lemma_map_of_len(p);
        lemma_map_of_dom(p);
        if map_of(p).contains_key(items.last().0) {
            let i = choose|i: int| 0 <= i < p.len() && p[i].0 == items.last().0;
            assert(items[i] == p[i]);
        }
    }
}

/// A container that the visible elements of a vector tree fold into.
pub trait FromVec<T>: Sized {
    /// `c` is what `items` folds into.
    spec fn folds(items: Seq<T>, c: Self) -> bool;

    /// `n` is the number of entries of `c`.
    spec fn has_size(c: Self, n: nat) -> bool;

    fn from_vec(items: Vec<T>) -> (c: Self)
        ensures
            Self::folds(items@, c),
    ;

    fn size(&self) -> (n: usize)
        ensures
            Self::has_size(*self, n as nat),
    ;
}

impl<T> FromVec<T> for VecDeque<T> {
    open spec fn folds(items: Seq<T>, c: VecDeque<T>) -> bool {
        c@ == items
    }

    open spec fn has_size(c: VecDeque<T>, n: nat) -> bool {
        n == c@.len()
    }

    fn from_vec(items: Vec<T>) -> (c: VecDeque<T>) {
        let mut items = items;
        let ghost all = items@;
        let mut c: VecDeque<T> = VecDeque::new();
        while items.len() > 0
            invariant
                all == c@ + items@,
            decreases items.len(),
        {
            let x = items.remove(0);
            c.push_back(x);
        }
        assert(c@ =~= all);
        c
    }

    fn size(&self) -> (n: usize) {
        self.len()
    }
}

impl<T: Hash + Eq> FromVec<T> for HashSet<T> {
    open spec fn folds(items: Seq<T>, c: HashSet<T>) -> bool {
        obeys_key_model::<T>() ==> c@ == set_of(items)
    }

    open spec fn has_size(c: HashSet<T>, n: nat) -> bool {
        obeys_key_model::<T>() ==> n == c@.len()
    }

    fn from_vec(items: Vec<T>) -> (c: HashSet<T>) {
        broadcast use axiom_random_state_builds_valid_hashers;

        let mut items = items;
        let ghost all = items@;
        let ghost mut done: Seq<T> = Seq::empty();
        let mut c: HashSet<T> = HashSet::new();
        while items.len() > 0
            invariant
                all == done + items@,
                obeys_key_model::<T>() ==> c@ == set_of(done),
            decreases items.len(),
        {
            let x = items.remove(0);
            proof {
                assert((done.push(x)).drop_last() =~= done);
                done = done.push(x);
            }
            c.insert(x);
        }
        assert(done =~= all);
        c
    }

    fn size(&self) -> (n: usize) {
        broadcast use axiom_random_state_builds_valid_hashers;

        self.len()
    }
}

impl<K: Hash + Eq, V> FromVec<(K, V)> for HashMap<K, V> {
    open spec fn folds(items: Seq<(K, V)>, c: HashMap<K, V>) -> bool {
        obeys_key_model::<K>() ==> c@ == map_of(items)
    }

    open spec fn has_size(c: HashMap<K, V>, n: nat) -> bool {
        obeys_key_model::<K>() ==> n == c@.len()
    }

    fn from_vec(items: Vec<(K, V)>) -> (c: HashMap<K, V>) {
        broadcast use axiom_random_state_builds_valid_hashers;

        let mut items = items;
        let ghost all = items@;
        let ghost mut done: Seq<(K, V)> = Seq::empty();
        let mut c: HashMap<K, V> = HashMap::new();
        while items.len() > 0
            invariant
                all == done + items@,
                obeys_key_model::<K>() ==> c@ == map_of(done),
            decreases items.len(),
        {
            let x = items.remove(0);
            proof {
                assert((done.push(x)).drop_last() =~= done);
                done = done.push(x);
            }
            let (k, v) = x;
            c.insert(k, v);
        }
        assert(done =~= all);
        c
    }

    fn size(&self) -> (n: usize) {
        broadcast use axiom_random_state_builds_valid_hashers;

        self.len()
    }
}

impl<T: Ord> FromVec<T> for BTreeSet<T> {
    open spec fn folds(items: Seq<T>, c: BTreeSet<T>) -> bool {
        obeys_cmp::<T>() ==> c@ == set_of(items)
    }

    open spec fn has_size(c: BTreeSet<T>, n: nat) -> bool {
        obeys_cmp::<T>() ==> n == c@.len()
    }

    fn from_vec(items: Vec<T>) -> (c: BTreeSet<T>) {
        let mut items = items;
        let ghost all = items@;
        let ghost mut done: Seq<T> = Seq::empty();
        let mut c: BTreeSet<T> = BTreeSet::new();
        while items.len() > 0
            invariant
                all == done + items@,
                obeys_cmp::<T>() ==> c@ == set_of(done),
            decreases items.len(),
        {
            let x = items.remove(0);
            proof {
                assert((done.push(x)).drop_last() =~= done);
                done = done.push(x);
            }
            c.insert(x);
        }
        assert(done =~= all);
        c
    }

    fn size(&self) -> (n: usize) {
        broadcast use axiom_key_obeys_cmp_spec_meaning, axiom_spec_btree_set_len;

        self.len()
    }
}

impl<K: Ord, V> FromVec<(K, V)> for BTreeMap<K, V> {
    open spec fn folds(items: Seq<(K, V)>, c: BTreeMap<K, V>) -> bool {
        obeys_cmp::<K>() ==> c@ == map_of(items)
    }

    open spec fn has_size(c: BTreeMap<K, V>, n: nat) -> bool {
        obeys_cmp::<K>() ==> n == c@.len()
    }

    fn from_vec(items: Vec<(K, V)>) -> (c: BTreeMap<K, V>) {
        let mut items = items;
        let ghost all = items@;
        let ghost mut done: Seq<(K, V)> = Seq::empty();
        let mut c: BTreeMap<K, V> = BTreeMap::new();
        while items.len() > 0
            invariant
                all == done + items@,
                obeys_cmp::<K>() ==> c@ == map_of(done),
            decreases items.len(),
        {
            let x = items.remove(0);
            proof {
                assert((done.push(x)).drop_last() =~= done);
                done = done.push(x);
            }
            let (k, v) = x;
            c.insert(k, v);
        }
        assert(done =~= all);
        c
    }

    fn size(&self) -> (n: usize) {
        broadcast use axiom_key_obeys_cmp_spec_meaning, axiom_spec_btree_map_len;

        self.len()
    }
}

/// A map folded from pairs with pairwise distinct keys has one entry per
/// pair.
pub proof fn lemma_map_fold_size<K: Hash + Eq, V>(
    items: Seq<(K, V)>,
    c: HashMap<K, V>,
    n: nat,
)
    requires
        obeys_key_model::<K>(),
        keys_distinct(items),
        <HashMap<K, V> as FromVec<(K, V)>>::folds(items, c),
        <HashMap<K, V> as FromVec<(K, V)>>::has_size(c, n),
    ensures
        n == items.len(),
{
    lemma_map_of_len(items);
}

/// An ordered map folded from pairs with pairwise distinct keys has one
/// entry per pair.
pub proof fn lemma_ordered_map_fold_size<K: Ord, V>(items: Seq<(K, V)>, c: BTreeMap<K, V>, n: nat)
    requires
        obeys_cmp::<K>(),
        keys_distinct(items),
        <BTreeMap<K, V> as FromVec<(K, V)>>::folds(items, c),
        <BTreeMap<K, V> as FromVec<(K, V)>>::has_size(c, n),
    ensures
        n == items.len(),
{
    lemma_map_of_len(items);
}

/// Strategy for a container folded from a generated vector, redrawn until
/// the container has at least `min_size` entries.
#[derive(Debug)]
pub struct Derived<T: Strategy, C> {
    pub elements: VecStrategy<T>,
    pub min_size: usize,
    pub container: PhantomData<C>,
}

/// The value tree of `Derived`: a vector tree whose visible elements are
/// folded on every read. Steps that would fold below `min_size` are skipped,
/// and only the latest accepted step can be undone.
#[derive(Debug)]
pub struct DerivedValueTree<T: ValueTree, C> {
    inner: VecValueTree<T>,
    min_size: usize,
    undo: bool,
    container: PhantomData<C>,
}

impl<T: ValueTree, C: FromVec<T::Value>> DerivedValueTree<T, C> {
    pub closed spec fn vector(&self) -> VecValueTree<T> {
        self.inner
    }

    pub closed spec fn minimum(&self) -> usize {
        self.min_size
    }

    pub closed spec fn can_undo(&self) -> bool {
        self.undo
    }

    /// Some read of the model folds into a container of at least `min`
    /// entries.
    pub open spec fn accepts(m: (Set<int>, Seq<T::Model>), min: usize) -> bool {
        exists|v: Vec<T::Value>, c: C, n: nat|
            VecValueTree::<T>::reads(m, v) && C::folds(v@, c) && C::has_size(c, n) && n >= min
    }

    /// Reads the current container and tells whether it is large enough.
    /// Whether a fold of some read of `m` has at least `min` entries.
    pub open spec fn size_test(m: (Set<int>, Seq<T::Model>), min: usize, r: bool) -> bool {
        exists|v: Vec<T::Value>, c: C, n: nat|
            VecValueTree::<T>::reads(m, v) && C::folds(v@, c) && C::has_size(c, n) && (r <==> n
                >= min)
    }

    /// Reads the current container and tells whether it has at least
    /// `min_size` entries.
    fn acceptable(&self) -> (r: bool)
        requires
            self.vector().inv(),
        ensures
            Self::size_test(self.model(), self.minimum(), r),
            r ==> Self::accepts(self.model(), self.minimum()),
    {
        let v = self.inner.current();
        let ghost gv = v;
        let c = C::from_vec(v);
        let n = c.size();
        let r = n >= self.min_size;
        proof {
            assert(VecValueTree::<T>::reads(self.model(), gv) && C::folds(gv@, c) && C::has_size(
                c,
                n as nat,
            ) && (r <==> n as nat >= self.min_size));
        }
        r
    }
}

impl<T: ValueTree, C: FromVec<T::Value>> ValueTree for DerivedValueTree<T, C> {
    type Value = C;

    type Model = (Set<int>, Seq<T::Model>);

    open spec fn inv(&self) -> bool {
        &&& self.vector().inv()
        &&& self.minimum() > 0 ==> Self::accepts(self.model(), self.minimum())
        &&& self.minimum() > 0 && self.can_undo() ==> self.vector().undoable() && Self::accepts(
            self.vector().prior(),
            self.minimum(),
        )
    }

    open spec fn model(&self) -> (Set<int>, Seq<T::Model>) {
        self.vector().model()
    }

    open spec fn reads(m: (Set<int>, Seq<T::Model>), c: C) -> bool {
        exists|v: Vec<T::Value>| VecValueTree::<T>::reads(m, v) && C::folds(v@, c)
    }

    open spec fn undoable(&self) -> bool {
        if self.minimum() == 0 {
            self.vector().undoable()
        } else {
            self.can_undo()
        }
    }

    open spec fn prior(&self) -> (Set<int>, Seq<T::Model>) {
        self.vector().prior()
    }

    open spec fn budget(&self) -> nat {
        self.vector().budget()
    }

    open spec fn floor(&self) -> nat {
        self.vector().floor()
    }

    fn current(&self) -> (c: C) {
        let v = self.inner.current();
        let ghost gv = v;
        let c = C::from_vec(v);
        assert(VecValueTree::<T>::reads(self.model(), gv) && C::folds(gv@, c));
        c
    }

    fn simplify(&mut self) -> (r: bool)
        ensures
            old(self).minimum() == 0 ==> VecValueTree::<T>::simplify_step(
                old(self).vector(),
                final(self).vector(),
                r,
            ),
            final(self).minimum() == old(self).minimum(),
    {
        // A step that folds below the minimum size is undone at once and
        // the next step is tried instead. With a minimum size, only a step
        // this call accepts can be undone afterwards; without one every step
        // is accepted and undoing is left to the vector tree.
        loop
            invariant
                self.vector().inv(),
                self.model() == old(self).model(),
                self.minimum() > 0 ==> Self::accepts(self.model(), self.minimum()),
                self.minimum() > 0 && self.can_undo() ==> self.vector().undoable()
                    && Self::accepts(self.vector().prior(), self.minimum()),
                self.budget() <= old(self).budget(),
                self.floor() == old(self).floor(),
                self.min_size == old(self).min_size,
                self.min_size == 0 ==> self.inner == old(self).inner,
            decreases self.budget(),
        {
            let ghost b = self.budget();
            if !self.inner.simplify() {
                self.undo = false;
                return false;
            }
            if self.acceptable() {
                self.undo = true;
                return true;
            }
            self.inner.complicate();
            self.undo = false;
            assert(self.budget() < b);
        }
    }

    fn complicate(&mut self) -> (r: bool)
        ensures
            old(self).minimum() == 0 ==> VecValueTree::<T>::complicate_step(
                old(self).vector(),
                final(self).vector(),
                r,
            ),
            final(self).minimum() == old(self).minimum(),
    {
        if self.min_size == 0 {
            return self.inner.complicate();
        }
        if !self.undo {
            return false;
        }
        self.undo = false;
        self.inner.complicate()
    }
}

/// Where each element model is read as one value only, and a fold's size
/// depends on the folded items alone, every container read from a
/// well-formed derived tree has at least the minimum size.
pub proof fn lemma_derived_min_size<T: ValueTree, C: FromVec<T::Value>>(
    t: DerivedValueTree<T, C>,
    c: C,
    n: nat,
)
    requires
        t.inv(),
        DerivedValueTree::<T, C>::reads(t.model(), c),
        C::has_size(c, n),
        forall|e: T::Model, a: T::Value, b: T::Value|
            T::reads(e, a) && T::reads(e, b) ==> a == b,
        forall|items: Seq<T::Value>, c1: C, c2: C, n1: nat, n2: nat|
            C::folds(items, c1) && C::folds(items, c2) && C::has_size(c1, n1) && C::has_size(
                c2,
                n2,
            ) ==> n1 == n2,
    ensures
        n >= t.minimum(),
{
    let m = t.model();
    let v = choose|v: Vec<T::Value>| VecValueTree::<T>::reads(m, v) && C::folds(v@, c);
    let (v2, c2, n2) = choose|v2: Vec<T::Value>, c2: C, n2: nat|
        VecValueTree::<T>::reads(m, v2) && C::folds(v2@, c2) && C::has_size(c2, n2) && n2
            >= t.minimum();
    crate::collection::lemma_vec_reads_unique::<T>(m, v, v2);
    assert(C::folds(v@, c) && C::folds(v@, c2) && C::has_size(c, n) && C::has_size(c2, n2));
}

impl<T: Strategy, C: FromVec<<T::Tree as ValueTree>::Value>> Strategy for Derived<T, C> {
    type Tree = DerivedValueTree<T::Tree, C>;

    open spec fn inv(&self) -> bool {
        self.elements.inv()
    }

    open spec fn produces(&self, t: DerivedValueTree<T::Tree, C>) -> bool {
        &&& self.elements.produces(t.vector())
        &&& t.minimum() == self.min_size
        &&& !t.can_undo()
    }

    open spec fn never_rejects(&self) -> bool {
        self.min_size == 0 && self.elements.never_rejects()
    }

    fn new_value(&self, runner: &mut TestRunner) -> (r: Result<DerivedValueTree<T::Tree, C>, Reject>)
        ensures
            self.elements.never_rejects() && r is Err ==> r == Err::<
                DerivedValueTree<T::Tree, C>,
                Reject,
            >(Reject::BelowMinimumSize),
    {
        let mut tries: u32 = 0;
        while tries < MAX_LOCAL_REJECTS
            invariant
                self.inv(),
                self.never_rejects() ==> tries == 0,
            decreases MAX_LOCAL_REJECTS - tries,
        {
            match self.elements.new_value(runner) {
                Ok(t) => {
                    let d = DerivedValueTree {
                        inner: t,
                        min_size: self.min_size,
                        undo: false,
                        container: PhantomData,
                    };
                    if d.acceptable() {
                        return Ok(d);
                    }
                },
                Err(e) => {
                    return Err(e);
                },
            }
            tries = tries + 1;
        }
        Err(Reject::BelowMinimumSize)
    }
}

/// Strategy for `VecDeque`s.
pub type VecDequeStrategy<T> = Derived<T, VecDeque<<<T as Strategy>::Tree as ValueTree>::Value>>;

/// Strategy for `HashSet`s.
pub type HashSetStrategy<T> = Derived<T, HashSet<<<T as Strategy>::Tree as ValueTree>::Value>>;

/// Strategy for `HashMap`s.
pub type HashMapStrategy<K, V> = Derived<
    (K, V),
    HashMap<<<K as Strategy>::Tree as ValueTree>::Value, <<V as Strategy>::Tree as ValueTree>::Value>,
>;

/// Creates a strategy for `VecDeque`s with elements drawn from `element`
/// and a length in `size`.
pub fn vec_deque<T: Strategy>(element: T, size: SizeRange) -> (r: VecDequeStrategy<T>)
    ensures
        r.elements.element == element,
        r.elements.size == size,
        r.min_size == 0,
{
    Derived { elements: crate::collection::vec(element, size), min_size: 0, container: PhantomData }
}

/// Creates a strategy for `HashSet`s with elements drawn from `element` and
/// a size in `size`; draws that collapse below `size.start` distinct
/// elements are redrawn.
pub fn hash_set<T: Strategy>(element: T, size: SizeRange) -> (r: HashSetStrategy<T>) where
    <T::Tree as ValueTree>::Value: Hash + Eq,

    ensures
        r.elements.element == element,
        r.elements.size == size,
        r.min_size == size.start,
{
    Derived {
        elements: crate::collection::vec(element, size),
        min_size: size.start,
        container: PhantomData,
    }
}

/// Creates a strategy for `HashMap`s with keys drawn from `key`, values from
/// `value`, and a size in `size`; draws whose keys collapse below
/// `size.start` entries are redrawn.
pub fn hash_map<K: Strategy, V: Strategy>(key: K, value: V, size: SizeRange) -> (r:
    HashMapStrategy<K, V>) where <K::Tree as ValueTree>::Value: Hash + Eq,

    ensures
        r.elements.element == (key, value),
        r.elements.size == size,
        r.min_size == size.start,
{
    Derived {
        elements: crate::collection::vec((key, value), size),
        min_size: size.start,
        container: PhantomData,
    }
}

/// Strategy for `BTreeSet`s.
pub type BTreeSetStrategy<T> = Derived<T, BTreeSet<<<T as Strategy>::Tree as ValueTree>::Value>>;

/// Strategy for `BTreeMap`s.
pub type BTreeMapStrategy<K, V> = Derived<
    (K, V),
    BTreeMap<<<K as Strategy>::Tree as ValueTree>::Value, <<V as Strategy>::Tree as ValueTree>::Value>,
>;

/// Creates a strategy for `BTreeSet`s with elements drawn from `element`
/// and a size in `size`; draws that collapse below `size.start` distinct
/// elements are redrawn.
pub fn btree_set<T: Strategy>(element: T, size: SizeRange) -> (r: BTreeSetStrategy<T>) where
    <T::Tree as ValueTree>::Value: Ord,

    ensures
        r.elements.element == element,
        r.elements.size == size,
        r.min_size == size.start,
{
    Derived {
        elements: crate::collection::vec(element, size),
        min_size: size.start,
        container: PhantomData,
    }
}

/// Creates a strategy for `BTreeMap`s with keys drawn from `key`, values
/// from `value`, and a size in `size`; draws whose keys collapse below
/// `size.start` entries are redrawn.
pub fn btree_map<K: Strategy, V: Strategy>(key: K, value: V, size: SizeRange) -> (r:
    BTreeMapStrategy<K, V>) where <K::Tree as ValueTree>::Value: Ord,

    ensures
        r.elements.element == (key, value),
        r.elements.size == size,
        r.min_size == size.start,
{
    Derived {
        elements: crate::collection::vec((key, value), size),
        min_size: size.start,
        container: PhantomData,
    }
}

} // verus!
