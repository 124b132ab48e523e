//! A three-valued Boolean: true, false, or undefined.

use vstd::prelude::*;

verus! {

pub type LiftedBoolVector = Vec<LiftedBool>;

#[derive(Copy, Clone, PartialEq, Eq, Structural, Hash, Debug)]
pub enum LiftedBool {
    False,
    Undefined,
    True,
}

impl LiftedBool {
    /// A short label for reporting a satisfiability outcome.
    pub fn to_sat_str(&self) -> (r: &'static str)
        ensures
            *self == LiftedBool::True ==> r@ == "unsatisfied"@,
            *self == LiftedBool::False ==> r@ == "satisfied"@,
            *self == LiftedBool::Undefined ==> r@ == "unknown"@,
    {
        match self {
            LiftedBool::True => "unsatisfied",
            LiftedBool::False => "satisfied",
            LiftedBool::Undefined => "unknown",
        }
    }

    pub open spec fn negate_spec(self) -> LiftedBool {
        match self {
            LiftedBool::True => LiftedBool::False,
            LiftedBool::False => LiftedBool::True,
            LiftedBool::Undefined => LiftedBool::Undefined,
        }
    }

    /// Three-valued negation: true and false swap, undefined stays.
    pub fn negated(self) -> (r: LiftedBool)
        ensures
            r == self.negate_spec(),
    {
        match self {
            LiftedBool::True => LiftedBool::False,
            LiftedBool::False => LiftedBool::True,
            LiftedBool::Undefined => LiftedBool::Undefined,
        }
    }

    /// Lifts a plain Boolean.
    pub fn from_bool(b: bool) -> (r: LiftedBool)
        ensures
            r == (if b {
                LiftedBool::True
            } else {
                LiftedBool::False
            }),
    {
        if b {
            LiftedBool::True
        } else {
            LiftedBool::False
        }
    }
}

} // verus!
