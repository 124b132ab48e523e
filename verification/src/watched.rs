//! A watched element of a SAT solver watch list: a binary clause partner, a
//! ternary clause pair, a (blocked literal, clause offset) pair, or an
//! external constraint index.

use vstd::prelude::*;

use crate::literal::Literal;
use crate::ExtensionConstraintIndex;

verus! {

pub type ClauseOffset = usize;

#[derive(Copy, Clone, PartialEq, Eq, Structural, Hash, Debug)]
pub enum Watched {
    Binary { literal: Literal, is_learned: bool },
    Ternary(Literal, Literal),
    Clause { blocked_literal: Literal, clause_offset: ClauseOffset },
    ExtensionConstraint(ExtensionConstraintIndex),
}

impl Watched {
    /// Equivalence of two watched elements: clause entries compare by
    /// offset, ignoring the blocked literal; binary entries compare by
    /// literal, ignoring whether they were learned; the rest compare
    /// exactly.
    pub open spec fn matches_spec(self, watched: Watched) -> bool {
        match self {
            Watched::Clause { blocked_literal: _, clause_offset } => match watched {
                Watched::Clause { blocked_literal: _, clause_offset: w_offset } => w_offset
                    == clause_offset,
                _ => false,
            },
            Watched::Binary { literal, is_learned: _ } => match watched {
                Watched::Binary { literal: w_literal, is_learned: _ } => w_literal == literal,
                _ => false,
            },
            Watched::Ternary(a, b) => watched == Watched::Ternary(a, b),
            Watched::ExtensionConstraint(idx) => watched == Watched::ExtensionConstraint(idx),
        }
    }

    /// Whether `self` and `watched` are equivalent in the sense of
    /// `matches_spec`.
    pub fn matches(&self, watched: &Watched) -> (r: bool)
        ensures
            r == self.matches_spec(*watched),
    {
        match self {
            Watched::Clause { blocked_literal: _, clause_offset } => {
                match watched {
                    Watched::Clause { blocked_literal: _, clause_offset: w_offset } => *w_offset
                        == *clause_offset,
                    _ => false,
                }
            },
            Watched::Binary { literal, is_learned: _ } => {
                match watched {
                    Watched::Binary { literal: w_literal, is_learned: _ } => *w_literal == *literal,
                    _ => false,
                }
            },
            Watched::Ternary(a, b) => {
                match watched {
                    Watched::Ternary(wa, wb) => *wa == *a && *wb == *b,
                    _ => false,
                }
            },
            Watched::ExtensionConstraint(idx) => {
                match watched {
                    Watched::ExtensionConstraint(w_idx) => *w_idx == *idx,
                    _ => false,
                }
            },
        }
    }
}

/// A watch list with find and erase that compare by `matches_spec`, so a
/// clause entry is found whatever its blocked literal and a binary entry
/// whatever its learned flag.
pub struct WatchList {
    pub list: Vec<Watched>,
}

impl WatchList {
    pub fn new() -> (r: WatchList)
        ensures
            r.list@ == Seq::<Watched>::empty(),
    {
        WatchList { list: Vec::new() }
    }

    /// Removes every element equivalent to `watched`, keeping the order of
    /// the rest.
    pub fn erase_watch(&mut self, watched: Watched)
        ensures
            final(self).list@ == old(self).list@.filter(|w: Watched| !watched.matches_spec(w)),
    {
        let n = self.list.len();
        let mut kept: Vec<Watched> = Vec::new();
        let mut i: usize = 0;
        proof {
            assert(old(self).list@.take(0int).filter(|w: Watched| !watched.matches_spec(w))
                =~= Seq::<Watched>::empty());
        }
        while i < n
            invariant
                n == old(self).list@.len(),
                self.list@ == old(self).list@,
                i <= n,
                kept@ == old(self).list@.take(i as int).filter(
                    |w: Watched| !watched.matches_spec(w),
                ),
            decreases n - i,
        {
            let w = self.list[i];
            proof {
                assert(old(self).list@.take(i + 1).drop_last() =~= old(self).list@.take(i as int));
                reveal_with_fuel(Seq::filter, 2);
                assert(old(self).list@.take(i + 1).last() == w);
            }
            if !watched.matches(&w) {
                kept.push(w);
            }
            i = i + 1;
        }
        proof {
            assert(old(self).list@.take(n as int) =~= old(self).list@);
        }
        self.list = kept;
    }

    /// The first element equivalent to `watched`, if any.
    pub fn find(&self, watched: Watched) -> (r: Option<&Watched>)
        ensures
            match r {
                Some(w) => {
                    &&& exists|i: int|
                        0 <= i < self.list@.len() && self.list@[i] == *w && watched.matches_spec(
                            self.list@[i],
                        ) && (forall|j: int| 0 <= j < i ==> !watched.matches_spec(self.list@[j]))
                },
                None => forall|i: int|
                    0 <= i < self.list@.len() ==> !watched.matches_spec(self.list@[i]),
            },
    {
        let n = self.list.len();
        let mut i: usize = 0;
        while i < n
            invariant
                n == self.list@.len(),
                i <= n,
                forall|j: int| 0 <= j < i ==> !watched.matches_spec(self.list@[j]),
            decreases n - i,
        {
            if watched.matches(&self.list[i]) {
                return Some(&self.list[i]);
            }
            i = i + 1;
        }
        None
    }
}

} // verus!
