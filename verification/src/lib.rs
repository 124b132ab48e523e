//! A stochastic local-search engine for Boolean and pseudo-Boolean
//! satisfiability: cardinality and weighted "sum of literals at most k"
//! constraints are searched with a WalkSAT-style flip loop, incremental
//! slack bookkeeping, unit propagation of forced literals and a
//! noise-adaptive restart policy.

use vstd::prelude::*;

pub mod approximate_set;
pub mod config;
pub mod data_structures;
pub mod errors;
pub mod lifted_bool;
pub mod literal;
pub mod local_search;
pub mod log;
pub mod model;
pub mod parallel;
pub mod resource_limit;
pub mod solver;
pub mod status;
pub mod symbol_table;
pub mod watched;

pub use errors::Error;
pub use lifted_bool::LiftedBool;
pub use literal::{Literal, LiteralVector};
pub use model::Model;
pub use resource_limit::{ResourceLimit, ScopedResourceLimit, ScopedSuspendedResourceLimit};

verus! {

/// A Boolean variable is a dense integer index. Index 0 is reserved for the
/// virtual sentinel variable; real variables are numbered from 1.
pub type BoolVariable = usize;

pub type BoolVariableVector = Vec<BoolVariable>;

/// The largest variable index a `Literal` can carry: the variable is shifted
/// left by one bit to make room for the sign.
pub const NULL_BOOL_VAR: BoolVariable = usize::MAX / 2;

/// The identifier of a theory; `-1` stands for "no theory".
pub type Theory = i32;

/// The index of a constraint owned by a theory extension.
pub type ExtensionConstraintIndex = usize;

} // verus!
