//! The error values this library can report.

use vstd::prelude::*;

verus! {

#[derive(Copy, Clone, PartialEq, Eq, Structural, Hash, Debug)]
pub enum Error {
    /// A solver-level failure.
    Solver,
    /// A malformed or unknown solver parameter.
    SATParameter,
    /// Local search is incomplete with extensions beyond pseudo-Boolean
    /// constraints: import refuses to run rather than silently mis-answer.
    IncompleteExtension,
    /// A module's parameter description could not be loaded.
    DeserializeParameters,
    /// A failure with no more precise classification.
    Default,
}

impl Error {
    /// A human-readable description of the error.
    pub fn message(&self) -> (r: &'static str)
        ensures
            *self == Error::IncompleteExtension ==> r@ == (
            "Local search is incomplete with extensions beyond PB.")@,
    {
        match self {
            Error::Solver => "A Solver Error occurred.",
            Error::SATParameter => "A SAT Parameter Error occurred.",
            Error::IncompleteExtension => "Local search is incomplete with extensions beyond PB.",
            Error::DeserializeParameters => "Module has no parameters file or file not found.",
            Error::Default => "A Default Error occurred.",
        }
    }
}

} // verus!
