use crate::bits::{bit_contains, bit_insert, bit_len, bit_remove, full_bit_set, members};
use crate::runner::TestRunner;
use crate::size_range::SizeRange;
use crate::strategy::{Reject, Strategy, ValueTree};
use bit_set::BitSet;
use vstd::prelude::*;
use vstd::set_lib::{lemma_int_range, lemma_len_subset, set_int_range};

verus! {

/// The models of the children whose index lies in `inc`, among the first
/// `n`, in index order.
pub open spec fn visible<M>(inc: Set<int>, ms: Seq<M>, n: nat) -> Seq<M>
    decreases n,
{
    if n == 0 {
        seq![]
    } else {
        let p = visible(inc, ms, (n - 1) as nat);
        if inc.contains(n - 1) {
            p.push(ms[n - 1])
        } else {
            p
        }
    }
}

/// Sum over the positions from `i` on of one more than each budget.
pub open spec fn tail_sum(b: Seq<nat>, i: int) -> nat
    decreases b.len() - i,
{
    if i < 0 || i >= b.len() {
        0
    } else {
        b[i] + 1 + tail_sum(b, i + 1)
    }
}

proof fn lemma_tail_sum_mono(b: Seq<nat>, c: Seq<nat>, i: int, k: int)
    requires
        0 <= i,
        b.len() == c.len(),
        forall|j: int| 0 <= j < b.len() && j != k ==> c[j] == b[j],
        i <= k < b.len() ==> c[k] <= b[k],
    ensures
        tail_sum(c, i) <= tail_sum(b, i),
        i <= k < b.len() && c[k] < b[k] ==> tail_sum(c, i) < tail_sum(b, i),
    decreases b.len() - i,
{
    if i < b.len() {
        lemma_tail_sum_mono(b, c, i + 1, k);
    }
}

proof fn lemma_visible_len<M>(inc: Set<int>, ms: Seq<M>, k: nat)
    ensures
        inc.filter(|i: int| 0 <= i < k).finite(),
        visible(inc, ms, k).len() == inc.filter(|i: int| 0 <= i < k).len(),
    decreases k,
{
    let f = inc.filter(|i: int| 0 <= i < k);
    lemma_int_range(0, k as int);
    lemma_len_subset(f, set_int_range(0, k as int));
    if k > 0 {
        let k1 = (k - 1) as nat;
        lemma_visible_len(inc, ms, k1);
        let g = inc.filter(|i: int| 0 <= i < k1);
        if inc.contains(k - 1) {
            assert(f =~= g.insert(k - 1));
        } else {
            assert(f =~= g);
        }
    } else {
        assert(f =~= Set::empty());
    }
}

/// Where to go next in the shrink state machine.
#[derive(Clone, Copy, Debug, PartialEq, Eq, Structural)]
pub enum Shrink {
    /// Try to drop the element at this index.
    DeleteElement(usize),
    /// Try to shrink the element at this index.
    ShrinkElement(usize),
}

/// Strategy to create `Vec`s with a length in a certain range.
#[derive(Clone, Debug)]
pub struct VecStrategy<T: Strategy> {
    pub element: T,
    pub size: SizeRange,
}

/// Creates a strategy for `Vec`s whose elements are drawn from `element`
/// and whose length lies in `size`.
pub fn vec<T: Strategy>(element: T, size: SizeRange) -> (r: VecStrategy<T>)
    ensures
        r.element == element,
        r.size == size,
{
    VecStrategy { element, size }
}

/// The value tree of `VecStrategy`: a fixed sequence of child trees, of
/// which those in `included_elements` are visible.
#[derive(Debug)]
pub struct VecValueTree<T: ValueTree> {
    elements: Vec<T>,
    included_elements: BitSet,
    min_size: usize,
    shrink: Shrink,
    prev_shrink: Option<Shrink>,
}

impl<T: ValueTree> VecValueTree<T> {
    pub closed spec fn included(&self) -> Set<int> {
        members(self.included_elements)
    }

    pub closed spec fn children(&self) -> Seq<T> {
        self.elements@
    }

    pub closed spec fn min_len(&self) -> nat {
        self.min_size as nat
    }

    pub closed spec fn cursor(&self) -> Shrink {
        self.shrink
    }

    pub closed spec fn last_step(&self) -> Option<Shrink> {
        self.prev_shrink
    }

    pub open spec fn child_models(&self) -> Seq<T::Model> {
        self.children().map_values(|e: T| e.model())
    }

    pub open spec fn child_budgets(&self) -> Seq<nat> {
        self.children().map_values(|e: T| e.budget())
    }

    /// The delete phase is at an index it can drop: one inside the vector,
    /// with more elements visible than the minimum length.
    pub open spec fn deletes_next(&self) -> bool {
        match self.cursor() {
            Shrink::DeleteElement(d) => d < self.children().len() && self.included().len()
                > self.min_len(),
            Shrink::ShrinkElement(_) => false,
        }
    }

    /// The index the cursor stands at, in either phase.
    pub open spec fn cursor_index(&self) -> usize {
        match self.cursor() {
            Shrink::DeleteElement(d) => d,
            Shrink::ShrinkElement(i) => i,
        }
    }

    /// The first index the shrink phase may try in the next call.
    pub open spec fn shrink_start(&self) -> int {
        match self.cursor() {
            Shrink::DeleteElement(_) => 0,
            Shrink::ShrinkElement(i) => i as int,
        }
    }

    /// What one `simplify` does, from `pre` to `post`, returning `r`.
    /// Delete phase: drop the index at the cursor and move past it. Shrink
    /// phase: nothing is dropped; only the child at the new cursor, the first
    /// visible one from the old cursor on whose own `simplify` succeeded,
    /// changes its model.
    pub open spec fn simplify_step(pre: Self, post: Self, r: bool) -> bool {
        &&& (post.children().len() == pre.children().len())
        &&& (post.min_len() == pre.min_len())
        &&& (pre.deletes_next() ==> {
            &&& r
            &&& post.included() == pre.included().remove(
                pre.cursor_index() as int,
            )
            &&& post.children() == pre.children()
            &&& post.cursor() == Shrink::DeleteElement(
                (pre.cursor_index() + 1) as usize,
            )
            &&& post.last_step() == Some(
                Shrink::DeleteElement(pre.cursor_index()),
            )
        })
        &&& (!pre.deletes_next() ==> {
            &&& post.included() == pre.included()
            &&& post.cursor() is ShrinkElement
            &&& forall|j: int|
                0 <= j < pre.children().len() ==> (#[trigger] post.children()[j]).model() == pre.children()[j].model()
                    || (r && j == post.cursor_index())
            &&& forall|j: int|
                0 <= j < pre.children().len() && (j < pre.shrink_start() || j
                    > post.cursor_index()) ==> #[trigger] post.children()[j]
                    == pre.children()[j]
        })
        &&& (!pre.deletes_next() && r ==> {
            &&& post.last_step() == Some(Shrink::ShrinkElement(post.cursor_index()))
            &&& pre.shrink_start() <= post.cursor_index() < pre.children().len()
            &&& post.included().contains(post.cursor_index() as int)
        })
        &&& (!r ==> post.cursor() == Shrink::ShrinkElement(
            pre.children().len() as usize,
        ))
        &&& (!r ==> post.last_step() == pre.last_step())
    }

    /// What one `complicate` does, from `pre` to `post`, returning `r`: an
    /// undone deletion cannot be undone again, and after a failed undo none
    /// is left.
    pub open spec fn complicate_step(pre: Self, post: Self, r: bool) -> bool {
        &&& (post.cursor() == pre.cursor())
        &&& (post.min_len() == pre.min_len())
        &&& (post.children().len() == pre.children().len())
        &&& (!r ==> post.last_step() == None::<Shrink>)
        &&& (!r ==> post.included() == pre.included())
        &&& (pre.last_step() == None::<Shrink> ==> !r && post.children() == pre.children())
        &&& (pre.last_step() matches Some(Shrink::DeleteElement(i)) ==> {
            &&& r
            &&& post.included() == pre.included().insert(i as int)
            &&& post.children() == pre.children()
            &&& post.last_step() == None::<Shrink>
        })
        &&& (pre.last_step() matches Some(Shrink::ShrinkElement(i)) ==> {
            &&& post.included() == pre.included()
            &&& forall|j: int|
                0 <= j < pre.children().len() && j != i ==> #[trigger] post.children()[j] == pre.children()[j]
            &&& r ==> post.last_step() == pre.last_step()
        })
    }

    /// The number of visible elements.
    pub open spec fn visible_len(&self) -> nat {
        self.included().len()
    }

    /// Creates a tree over `elements` with all of them visible, at the
    /// start of the shrink state machine.
    pub fn new(elements: Vec<T>, min_size: usize) -> (r: Self)
        requires
            min_size <= elements.len(),
            forall|i: int| 0 <= i < elements.len() ==> #[trigger] elements[i].inv(),
        ensures
            r.inv(),
            r.children() == elements@,
            r.included() == set_int_range(0, elements.len() as int),
            r.visible_len() == elements.len(),
            r.min_len() == min_size,
            r.cursor() == Shrink::DeleteElement(0),
            r.last_step() == None::<Shrink>,
    {
        let n = elements.len();
        let included_elements = full_bit_set(n);
        proof {
            lemma_int_range(0, n as int);
        }
        VecValueTree {
            elements,
            included_elements,
            min_size,
            shrink: Shrink::DeleteElement(0),
            prev_shrink: None,
        }
    }
}

impl<T: ValueTree> ValueTree for VecValueTree<T> {
    type Value = Vec<T::Value>;

    type Model = (Set<int>, Seq<T::Model>);

    open spec fn inv(&self) -> bool {
        let n = self.children().len();
        &&& forall|i: int| 0 <= i < n ==> #[trigger] self.children()[i].inv()
        &&& forall|i: int| #[trigger] self.included().contains(i) ==> 0 <= i < n
        &&& self.included().finite()
        &&& self.included().len() >= self.min_len()
        &&& match self.cursor() {
            Shrink::DeleteElement(ix) => ix <= n && forall|j: int|
                ix <= j < n ==> #[trigger] self.included().contains(j),
            Shrink::ShrinkElement(ix) => ix <= n,
        }
        &&& match self.last_step() {
            Some(Shrink::DeleteElement(i)) => i < n && !self.included().contains(i as int),
            Some(Shrink::ShrinkElement(i)) => i < n,
            None => true,
        }
    }

    open spec fn model(&self) -> (Set<int>, Seq<T::Model>) {
        (self.included(), self.child_models())
    }

    open spec fn reads(m: (Set<int>, Seq<T::Model>), v: Vec<T::Value>) -> bool {
        let vis = visible(m.0, m.1, m.1.len());
        &&& v@.len() == vis.len()
        &&& forall|k: int| 0 <= k < vis.len() ==> T::reads(#[trigger] vis[k], v@[k])
    }

    open spec fn undoable(&self) -> bool {
        match self.last_step() {
            Some(Shrink::DeleteElement(_)) => true,
            Some(Shrink::ShrinkElement(i)) => self.children()[i as int].undoable(),
            None => false,
        }
    }

    open spec fn prior(&self) -> (Set<int>, Seq<T::Model>) {
        match self.last_step() {
            Some(Shrink::DeleteElement(i)) => (self.included().insert(i as int), self.child_models()),
            Some(Shrink::ShrinkElement(i)) => (
                self.included(),
                self.child_models().update(i as int, self.children()[i as int].prior()),
            ),
            None => self.model(),
        }
    }

    open spec fn budget(&self) -> nat {
        let n = self.children().len();
        match self.cursor() {
            Shrink::DeleteElement(ix) => ((n - ix) + 1 + tail_sum(self.child_budgets(), 0)) as nat,
            Shrink::ShrinkElement(ix) => tail_sum(self.child_budgets(), ix as int),
        }
    }

    open spec fn floor(&self) -> nat {
        self.min_len()
    }

    fn current(&self) -> (v: Vec<T::Value>) {
        let ghost inc = self.included();
        let ghost ms = self.child_models();
        let mut out: Vec<T::Value> = Vec::new();
        let mut i: usize = 0;
        while i < self.elements.len()
            invariant
                self.inv(),
                inc == self.included(),
                ms == self.child_models(),
                i <= self.elements.len(),
                out@.len() == visible(inc, ms, i as nat).len(),
                forall|k: int|
                    0 <= k < out@.len() ==> T::reads(
                        #[trigger] visible(inc, ms, i as nat)[k],
                        out@[k],
                    ),
            decreases self.elements.len() - i,
        {
            let ghost before = out@;
            if bit_contains(&self.included_elements, i) {
                let v = self.elements[i].current();
                out.push(v);
            }
            proof {
                let vis = visible(inc, ms, (i + 1) as nat);
                assert(vis == if inc.contains(i as int) {
                    visible(inc, ms, i as nat).push(ms[i as int])
                } else {
                    visible(inc, ms, i as nat)
                });
                assert forall|k: int| 0 <= k < out@.len() implies T::reads(
                    #[trigger] vis[k],
                    out@[k],
                ) by {
                    if k < before.len() {
                        assert(out@[k] == before[k]);
                    }
                }
            }
            i = i + 1;
        }
        out
    }

    fn simplify(&mut self) -> (r: bool)
        ensures
            Self::simplify_step(*old(self), *final(self), r),
    {
        // Deletion comes first: each index is offered for deletion once, in
        // ascending order, while the minimum length allows it. After that
        // each remaining element is shrunk in turn until it cannot be.
        let mut ix: usize = 0;
        match self.shrink {
            Shrink::DeleteElement(d) => {
                let len = bit_len(&self.included_elements);
                if d < self.elements.len() && len > self.min_size {
                    bit_remove(&mut self.included_elements, d);
                    self.prev_shrink = Some(self.shrink);
                    self.shrink = Shrink::DeleteElement(d + 1);
                    proof {
                        assert(self.included() =~= old(self).included().remove(d as int));
                        assert(old(self).included().remove(d as int).insert(d as int)
                            =~= old(self).included());
                    }
                    return true;
                }
                // Nothing more can be deleted: go on to shrinking.
                self.shrink = Shrink::ShrinkElement(0);
            },
            Shrink::ShrinkElement(i) => {
                ix = i;
            },
        }
        let ghost start = ix as int;
        assert(start == old(self).shrink_start());
        while ix < self.elements.len()
            invariant
                !old(self).deletes_next(),
                start == old(self).shrink_start(),
                start <= ix,
                forall|j: int|
                    0 <= j < self.elements@.len() && (j < start || j >= ix) ==> #[trigger] self.elements@[j]
                        == old(self).elements@[j],
                self.shrink == Shrink::ShrinkElement(ix),
                ix <= self.elements.len(),
                self.elements@.len() == old(self).elements@.len(),
                self.child_models() == old(self).child_models(),
                self.included() == old(self).included(),
                self.min_size == old(self).min_size,
                self.prev_shrink == old(self).prev_shrink,
                self.inv(),
                tail_sum(self.child_budgets(), ix as int) <= old(self).budget(),
            decreases self.elements.len() - ix,
        {
            if bit_contains(&self.included_elements, ix) {
                let ghost e0 = self.elements@[ix as int];
                let ghost pre = self.elements@;
                let ghost b0 = self.child_budgets();
                if self.elements[ix].simplify() {
                    self.prev_shrink = Some(self.shrink);
                    proof {
                        let e1 = self.elements@[ix as int];
                        assert(self.elements@ == pre.update(ix as int, e1));
                        assert(self.child_budgets() =~= b0.update(ix as int, e1.budget()));
                        lemma_tail_sum_mono(b0, self.child_budgets(), ix as int, ix as int);
                        assert(self.child_models().update(ix as int, e1.prior())
                            =~= old(self).child_models());
                        assert forall|i: int| 0 <= i < self.children().len() implies
                            #[trigger] self.children()[i].inv() by {
                            if i != ix {
                                assert(self.children()[i] == pre[i]);
                            }
                        }
                        assert forall|j: int| 0 <= j < old(self).children().len() implies (
                        #[trigger] self.children()[j]).model() == old(self).children()[j].model()
                            || (j == ix) by {
                            if j != ix {
                                assert(self.children()[j] == pre[j]);
                                assert(old(self).child_models()[j] == old(self).children()[j].model());
                                assert(pre.map_values(|e: T| e.model())[j] == pre[j].model());
                            }
                        }
                    }
                    return true;
                } else {
                    proof {
                        let e1 = self.elements@[ix as int];
                        assert(self.elements@ =~= pre.update(ix as int, e1));
                        assert(self.child_models() =~= old(self).child_models());
                        assert(self.child_budgets() =~= b0.update(ix as int, 0));
                        lemma_tail_sum_mono(b0, self.child_budgets(), ix as int + 1, ix as int);
                        assert forall|i: int| 0 <= i < self.children().len() implies
                            #[trigger] self.children()[i].inv() by {
                            if i != ix {
                                assert(self.children()[i] == pre[i]);
                            }
                        }
                    }
                    ix = ix + 1;
                    self.shrink = Shrink::ShrinkElement(ix);
                }
            } else {
                ix = ix + 1;
                self.shrink = Shrink::ShrinkElement(ix);
            }
        }
        proof {
            assert(self.child_models() =~= old(self).child_models());
            assert forall|j: int| 0 <= j < old(self).children().len() implies (
            #[trigger] self.children()[j]).model() == old(self).children()[j].model() by {
                assert(self.child_models()[j] == self.children()[j].model());
                assert(old(self).child_models()[j] == old(self).children()[j].model());
            }
        }
        false
    }

    fn complicate(&mut self) -> (r: bool)
        ensures
            Self::complicate_step(*old(self), *final(self), r),
    {
        // Only the most recent step is undone. An undone deletion cannot be
        // undone further; a shrunk element may be complicated again.
        match self.prev_shrink {
            None => false,
            Some(Shrink::DeleteElement(ix)) => {
                bit_insert(&mut self.included_elements, ix);
                self.prev_shrink = None;
                true
            },
            Some(Shrink::ShrinkElement(ix)) => {
                let ghost b0 = self.child_budgets();
                let r = self.elements[ix].complicate();
                proof {
                    let e1 = self.elements@[ix as int];
                    assert(self.elements@ == old(self).elements@.update(ix as int, e1));
                    assert(self.child_budgets() =~= b0.update(ix as int, e1.budget()));
                    lemma_tail_sum_mono(b0, self.child_budgets(), 0, ix as int);
                    match self.shrink {
                        Shrink::ShrinkElement(c) => {
                            lemma_tail_sum_mono(b0, self.child_budgets(), c as int, ix as int);
                        },
                        Shrink::DeleteElement(_) => {},
                    }
                    assert forall|i: int| 0 <= i < self.children().len() implies
                        #[trigger] self.children()[i].inv() by {
                        if i != ix {
                            assert(self.children()[i] == old(self).children()[i]);
                        }
                    }
                    if r {
                        assert(self.child_models() =~= old(self).child_models().update(
                            ix as int,
                            old(self).children()[ix as int].prior(),
                        ));
                    } else {
                        assert(self.child_models() =~= old(self).child_models());
                    }
                }
                if !r {
                    self.prev_shrink = None;
                }
                r
            },
        }
    }
}

impl<T: Strategy> Strategy for VecStrategy<T> {
    type Tree = VecValueTree<T::Tree>;

    open spec fn inv(&self) -> bool {
        self.element.inv() && self.size.start < self.size.end
    }

    open spec fn produces(&self, t: VecValueTree<T::Tree>) -> bool {
        let n = t.children().len();
        &&& self.size.start <= n < self.size.end
        &&& forall|i: int| 0 <= i < n ==> self.element.produces(#[trigger] t.children()[i])
        &&& t.included() == set_int_range(0, n as int)
        &&& t.visible_len() == n
        &&& t.min_len() == self.size.start
        &&& t.cursor() == Shrink::DeleteElement(0)
        &&& t.last_step() == None::<Shrink>
    }

    open spec fn never_rejects(&self) -> bool {
        self.element.never_rejects()
    }

    fn new_value(&self, runner: &mut TestRunner) -> (r: Result<VecValueTree<T::Tree>, Reject>) {
        let max_size = runner.sample_size(self.size.start, self.size.end);
        let mut elements: Vec<T::Tree> = Vec::with_capacity(max_size);
        while elements.len() < max_size
            invariant
                self.inv(),
                self.size.start <= max_size < self.size.end,
                elements.len() <= max_size,
                forall|i: int|
                    0 <= i < elements.len() ==> (#[trigger] elements@[i]).inv()
                        && self.element.produces(elements@[i]),
            decreases max_size - elements.len(),
        {
            match self.element.new_value(runner) {
                Ok(t) => elements.push(t),
                Err(e) => {
                    return Err(e);
                },
            }
        }
        let t = VecValueTree::new(elements, self.size.start);
        assert(forall|i: int|
            0 <= i < t.children().len() ==> self.element.produces(#[trigger] t.children()[i]));
        Ok(t)
    }
}

/// Every value read from a freshly generated vector tree has a length in
/// the strategy's size interval.
pub proof fn lemma_generated_len<T: Strategy>(
    s: VecStrategy<T>,
    t: VecValueTree<T::Tree>,
    v: Vec<<T::Tree as ValueTree>::Value>,
)
    requires
        s.inv(),
        t.inv(),
        s.produces(t),
        VecValueTree::<T::Tree>::reads(t.model(), v),
    ensures
        s.size.start <= v.len() < s.size.end,
{
    lemma_read_len(t, v);
}

/// Every value read from a well-formed vector tree has exactly as many
/// elements as are visible, and never fewer than the tree's minimum length,
/// which `simplify` and `complicate` keep.
pub proof fn lemma_read_len<T: ValueTree>(t: VecValueTree<T>, v: Vec<T::Value>)
    requires
        t.inv(),
        VecValueTree::<T>::reads(t.model(), v),
    ensures
        v.len() == t.visible_len(),
        v.len() >= t.floor(),
{
    let n = t.children().len();
    lemma_visible_len(t.included(), t.child_models(), n);
    assert(t.included().filter(|i: int| 0 <= i < n) =~= t.included());
}

/// Where each element model is read as one value only, a vector model is
/// too: two reads of the same model, as before a successful `simplify` and
/// after the `complicate` that undoes it, hold the same elements.
pub proof fn lemma_vec_reads_unique<T: ValueTree>(
    m: (Set<int>, Seq<T::Model>),
    v1: Vec<T::Value>,
    v2: Vec<T::Value>,
)
    requires
        forall|e: T::Model, a: T::Value, b: T::Value|
            T::reads(e, a) && T::reads(e, b) ==> a == b,
        VecValueTree::<T>::reads(m, v1),
        VecValueTree::<T>::reads(m, v2),
    ensures
        v1@ == v2@,
{
    let vis = visible(m.0, m.1, m.1.len());
    assert forall|k: int| 0 <= k < v1@.len() implies v1@[k] == v2@[k] by {
        assert(T::reads(vis[k], v1@[k]) && T::reads(vis[k], v2@[k]));
    }
    assert(v1@ =~= v2@);
}

} // verus!
