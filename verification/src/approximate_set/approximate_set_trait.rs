//! The interface of an approximate set: membership may be over-reported,
//! never under-reported, and queries are cheap.

use vstd::prelude::*;

verus! {

/// An approximate set over values of type `T`. Each implementation chooses
/// a fingerprint for the whole set (`bits_spec`) and for a single value
/// (`member_bits_spec`); members are accumulated by taking the fingerprints
/// together, so a value whose fingerprint is disjoint from the set's is
/// certainly not a member.
pub trait ApproximateSet<T>: Sized {
    /// The fingerprint of the whole set.
    spec fn bits_spec(&self) -> usize;

    /// The fingerprint a single value contributes.
    spec fn member_bits_spec(value: &T) -> usize;

    /// The empty set: nothing may be contained.
    fn new() -> (r: Self)
        ensures
            r.bits_spec() == 0,
    ;

    /// The set holding one value.
    fn with_value(value: &T) -> (r: Self)
        ensures
            r.bits_spec() == Self::member_bits_spec(value),
    ;

    /// Adds a value: its fingerprint joins the set's.
    fn insert(&mut self, value: &T)
        ensures
            final(self).bits_spec() == old(self).bits_spec() | Self::member_bits_spec(value),
    ;

    /// Whether the value may be a member: its fingerprint meets the set's.
    fn may_contain(&self, value: &T) -> (r: bool)
        ensures
            r == ((self.bits_spec() & Self::member_bits_spec(value)) != 0),
    ;

    /// The union of two sets.
    fn make_union(a: &Self, b: &Self) -> (r: Self)
        ensures
            r.bits_spec() == a.bits_spec() | b.bits_spec(),
    ;

    /// The intersection of two sets.
    fn make_intersection(a: &Self, b: &Self) -> (r: Self)
        ensures
            r.bits_spec() == a.bits_spec() & b.bits_spec(),
    ;

    /// Whether nothing may be contained.
    fn empty(&self) -> (r: bool)
        ensures
            r == (self.bits_spec() == 0),
    ;

    /// Whether the two sets may be equal.
    fn may_equal(&self, other: &Self) -> (r: bool)
        ensures
            r == (self.bits_spec() == other.bits_spec()),
    ;

    /// Whether the two approximate sets are the same set.
    fn equivalent(&self, other: &Self) -> (r: bool)
        ensures
            r == (self.bits_spec() == other.bits_spec()),
    ;

    /// Empties the set in place.
    fn reset(&mut self)
        ensures
            final(self).bits_spec() == 0,
    ;

    /// Whether the value is certainly not a member.
    fn must_not_contain(&self, value: &T) -> (r: bool)
        ensures
            r == ((self.bits_spec() & Self::member_bits_spec(value)) == 0),
    {
        !self.may_contain(value)
    }

    /// Whether every member of `self` may also be in `other`.
    fn may_subset(&self, other: &Self) -> (r: bool)
        ensures
            r == ((self.bits_spec() | other.bits_spec()) == other.bits_spec()),
    {
        let union = Self::make_union(self, other);
        other.equivalent(&union)
    }

    /// Whether some member of `self` is certainly missing from `other`.
    fn must_not_subset(&self, other: &Self) -> (r: bool)
        ensures
            r == ((self.bits_spec() | other.bits_spec()) != other.bits_spec()),
    {
        !self.may_subset(other)
    }

    /// Whether the two sets are certainly different.
    fn must_not_equal(&self, other: &Self) -> (r: bool)
        ensures
            r == (self.bits_spec() != other.bits_spec()),
    {
        !self.may_equal(other)
    }

    /// Whether the two sets certainly share no member.
    fn empty_intersection(&self, other: &Self) -> (r: bool)
        ensures
            r == ((self.bits_spec() & other.bits_spec()) == 0),
    {
        let inter = Self::make_intersection(self, other);
        inter.empty()
    }
}

} // verus!
