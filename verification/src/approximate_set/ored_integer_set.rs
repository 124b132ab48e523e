//! An approximate set of small integers that accumulates members by bitwise
//! or into a single machine word. The fewer the elements, the more accurate
//! it is.

use vstd::prelude::*;

use super::approximate_set_trait::ApproximateSet;

verus! {

/// The single-word accumulator. A member contributes its own value as its
/// fingerprint, so the set is exact for one-bit values and approximate
/// beyond that.
#[derive(Copy, Clone, PartialEq, Eq, Structural, Hash, Debug)]
pub struct OredIntegerSet {
    pub index: usize,
}

impl ApproximateSet<usize> for OredIntegerSet {
    open spec fn bits_spec(&self) -> usize {
        self.index
    }

    open spec fn member_bits_spec(value: &usize) -> usize {
        *value
    }

    fn new() -> (r: Self)
        ensures
            r.bits_spec() == 0,
    {
        OredIntegerSet { index: 0 }
    }

    fn with_value(value: &usize) -> (r: Self)
        ensures
            r.bits_spec() == Self::member_bits_spec(value),
    {
        OredIntegerSet { index: *value }
    }

    fn insert(&mut self, value: &usize)
        ensures
            final(self).bits_spec() == old(self).bits_spec() | Self::member_bits_spec(value),
    {
        self.index = self.index | *value;
    }

    fn may_contain(&self, value: &usize) -> (r: bool)
        ensures
            r == ((self.bits_spec() & Self::member_bits_spec(value)) != 0),
    {
        (self.index & *value) != 0
    }

    fn make_union(a: &Self, b: &Self) -> (r: Self)
        ensures
            r.bits_spec() == a.bits_spec() | b.bits_spec(),
    {
        OredIntegerSet { index: a.index | b.index }
    }

    fn make_intersection(a: &Self, b: &Self) -> (r: Self)
        ensures
            r.bits_spec() == a.bits_spec() & b.bits_spec(),
    {
        OredIntegerSet { index: a.index & b.index }
    }

    fn empty(&self) -> (r: bool)
        ensures
            r == (self.bits_spec() == 0),
    {
        self.index == 0
    }

    fn may_equal(&self, other: &Self) -> (r: bool)
        ensures
            r == (self.bits_spec() == other.bits_spec()),
    {
        self.index == other.index
    }

    fn equivalent(&self, other: &Self) -> (r: bool)
        ensures
            r == (self.bits_spec() == other.bits_spec()),
    {
        self.index == other.index
    }

    fn reset(&mut self)
        ensures
            final(self).bits_spec() == 0,
    {
        self.index = 0;
    }
}

/// With one-bit fingerprints the set is exact: a value stays visible after
/// any sequence of inserts that contained it.
pub proof fn lemma_insert_preserves_membership(before: usize, value: usize)
    requires
        value != 0,
    ensures
        ((before | value) & value) != 0,
{
    assert(value != 0 ==> ((before | value) & value) != 0) by (bit_vector);
}

} // verus!
