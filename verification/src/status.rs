//! The status of a clause: where it came from and whether a theory still has
//! to justify it.

use vstd::prelude::*;

use crate::Theory;

verus! {

#[derive(Copy, Clone, PartialEq, Eq, Structural, Hash, Debug)]
pub enum Status {
    Input(Theory),
    Asserted(Theory),
    Redundant(Theory),
    Deleted(Theory),
}

impl Status {
    /// An input clause with no owning theory.
    pub fn input() -> (r: Status)
        ensures
            r == Status::Input(-1int as Theory),
    {
        Status::Input(-1)
    }

    /// An asserted clause with no owning theory.
    pub fn asserted() -> (r: Status)
        ensures
            r == Status::Asserted(-1int as Theory),
    {
        Status::Asserted(-1)
    }

    /// A redundant (learned) clause with no owning theory.
    pub fn redundent() -> (r: Status)
        ensures
            r == Status::Redundant(-1int as Theory),
    {
        Status::Redundant(-1)
    }

    /// A deleted clause with no owning theory.
    pub fn repeated() -> (r: Status)
        ensures
            r == Status::Deleted(-1int as Theory),
    {
        Status::Deleted(-1)
    }

    /// Wraps a theory's clause as redundant or asserted.
    pub fn from_theory(redundent: bool, theory: Theory) -> (r: Status)
        ensures
            redundent ==> r == Status::Redundant(theory),
            !redundent ==> r == Status::Asserted(theory),
    {
        if redundent {
            Status::Redundant(theory)
        } else {
            Status::Asserted(theory)
        }
    }

    pub open spec fn theory_spec(self) -> Theory {
        match self {
            Status::Input(t) => t,
            Status::Asserted(t) => t,
            Status::Redundant(t) => t,
            Status::Deleted(t) => t,
        }
    }

    /// A status with no owning theory needs no further justification.
    pub fn is_satisfied(&self) -> (r: bool)
        ensures
            r == (self.theory_spec() == -1),
    {
        let t = match self {
            Status::Input(t) => *t,
            Status::Asserted(t) => *t,
            Status::Redundant(t) => *t,
            Status::Deleted(t) => *t,
        };
        t == -1
    }
}

} // verus!
