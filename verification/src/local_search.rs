//! Stochastic local search over cardinality and pseudo-Boolean constraints:
//! a WalkSAT-style flip loop with incrementally maintained slacks and
//! scores, unit propagation of forced literals, and a noise-adaptive
//! restart policy.

use vstd::prelude::*;

pub mod config;
pub mod constraint;
pub mod local_search;
pub mod variable_info;

pub use config::LocalSearchConfig;
pub use constraint::Constraint;
pub use local_search::{ClauseDatabase, LocalSearch};
pub use variable_info::VariableInfo;

verus! {

/// One occurrence of a variable in a pseudo-Boolean constraint, as stored
/// on the variable's watch lists.
#[derive(Copy, Clone, PartialEq, Eq, Structural, Hash, Debug)]
pub struct PbCoefficient {
    pub constraint_id: usize,
    pub coefficient: u32,
}

pub type CoefficientVector = Vec<PbCoefficient>;

/// Counters the engine keeps about one `check` call.
#[derive(Copy, Clone, PartialEq, Eq, Structural, Hash, Debug)]
pub struct LocalSearchStatistics {
    pub count_of_flips: u64,
    pub count_of_restarts: u64,
}

impl LocalSearchStatistics {
    pub fn new() -> (r: LocalSearchStatistics)
        ensures
            r.count_of_flips == 0,
            r.count_of_restarts == 0,
    {
        LocalSearchStatistics { count_of_flips: 0, count_of_restarts: 0 }
    }

    pub fn reset(&mut self)
        ensures
            final(self).count_of_flips == 0,
            final(self).count_of_restarts == 0,
    {
        self.count_of_flips = 0;
        self.count_of_restarts = 0;
    }
}

/// Which flip-selection heuristic the engine runs.
#[derive(Copy, Clone, PartialEq, Eq, Structural, Hash, Debug)]
pub enum LocalSearchMode {
    GSAT,
    WSAT,
}

} // verus!
