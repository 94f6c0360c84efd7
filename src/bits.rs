use bit_set::BitSet;
use vstd::prelude::*;
use vstd::set_lib::*;

verus! {

#[verifier::external_type_specification]
#[verifier::external_body]
#[verifier::reject_recursive_types(B)]
pub struct ExBitSet<B>(bit_set::BitSet<B>);

/// The indices that a bit set holds.
pub uninterp spec fn members(s: BitSet) -> Set<int>;

/// Relies on `BitSet`'s `FromIterator<usize>`, which inserts each index of
/// `0..n`.
#[verifier::external_body]
pub(crate) fn full_bit_set(n: usize) -> (r: BitSet)
    ensures
        members(r) == set_int_range(0, n as int),
{
    (0..n).collect()
}

/// Relies on `BitSet::contains`.
#[verifier::external_body]
pub(crate) fn bit_contains(s: &BitSet, i: usize) -> (r: bool)
    ensures
        r == members(*s).contains(i as int),
{
    s.contains(i)
}

/// Relies on `BitSet::remove`, which clears the bit of `i`.
#[verifier::external_body]
pub(crate) fn bit_remove(s: &mut BitSet, i: usize)
    ensures
        members(*final(s)) == members(*old(s)).remove(i as int),
{
    s.remove(i);
}

/// Relies on `BitSet::insert`, which sets the bit of `i`, growing the set
/// where needed.
#[verifier::external_body]
pub(crate) fn bit_insert(s: &mut BitSet, i: usize)
    ensures
        members(*final(s)) == members(*old(s)).insert(i as int),
{
    s.insert(i);
}

/// Relies on `BitSet::len`, the number of set bits.
#[verifier::external_body]
pub(crate) fn bit_len(s: &BitSet) -> (r: usize)
    ensures
        r == members(*s).len(),
{
    s.len()
}

} // verus!
