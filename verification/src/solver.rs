//! The interface a complete solving engine offers its owner, and the
//! statistics such an engine collects. The complete engine itself is an
//! external collaborator of the local-search core.

use vstd::prelude::*;

use crate::lifted_bool::LiftedBool;
use crate::literal::LiteralVector;
use crate::model::Model;
use crate::resource_limit::ResourceLimit;
use crate::status::Status;

verus! {

/// What a complete solving engine offers: clause intake, a check entry
/// point, and access to its results. Implementations live outside this
/// library.
pub trait SolverCore {
    fn add_clause(&mut self, literals: LiteralVector, status: Status);

    fn check(&mut self, assumptions: LiteralVector) -> LiftedBool;

    fn at_base_level(&self) -> bool;

    fn get_core(&self) -> &LiteralVector;

    fn get_model(&self) -> &Model;

    fn is_inconsistent(&self) -> bool;

    fn number_of_clauses(&self) -> usize;

    fn number_of_variables(&self) -> usize;

    fn pop_to_base_level(&mut self);

    fn resource_limit(&self) -> &ResourceLimit;
}

/// Statistics collected about a complete solving engine.
#[derive(Copy, Clone, PartialEq, Eq, Structural, Hash, Debug)]
pub struct SolverStatistics {
    pub mk_var: u32,
    pub mk_bin_clause: u32,
    pub mk_ter_clause: u32,
    pub mk_clause: u32,
    pub conflict: u32,
    pub propagate: u32,
    pub bin_propagate: u32,
    pub ter_propagate: u32,
    pub decision: u32,
    pub restart: u32,
    pub gc_clause: u32,
    pub del_clause: u32,
    pub minimized_lits: u32,
    pub dyn_sub_res: u32,
    pub non_learned_generation: u32,
    pub blocked_corr_sets: u32,
    pub elim_var_res: u32,
    pub elim_var_bdd: u32,
    pub units: u32,
    pub backtracks: u32,
    pub backjumps: u32,
}

impl SolverStatistics {
    /// All counters at zero.
    pub fn new() -> (r: SolverStatistics)
        ensures
            r == SolverStatistics::zero_spec(),
    {
        SolverStatistics {
            mk_var: 0,
            mk_bin_clause: 0,
            mk_ter_clause: 0,
            mk_clause: 0,
            conflict: 0,
            propagate: 0,
            bin_propagate: 0,
            ter_propagate: 0,
            decision: 0,
            restart: 0,
            gc_clause: 0,
            del_clause: 0,
            minimized_lits: 0,
            dyn_sub_res: 0,
            non_learned_generation: 0,
            blocked_corr_sets: 0,
            elim_var_res: 0,
            elim_var_bdd: 0,
            units: 0,
            backtracks: 0,
            backjumps: 0,
        }
    }

    pub open spec fn zero_spec() -> SolverStatistics {
        SolverStatistics {
            mk_var: 0,
            mk_bin_clause: 0,
            mk_ter_clause: 0,
            mk_clause: 0,
            conflict: 0,
            propagate: 0,
            bin_propagate: 0,
            ter_propagate: 0,
            decision: 0,
            restart: 0,
            gc_clause: 0,
            del_clause: 0,
            minimized_lits: 0,
            dyn_sub_res: 0,
            non_learned_generation: 0,
            blocked_corr_sets: 0,
            elim_var_res: 0,
            elim_var_bdd: 0,
            units: 0,
            backtracks: 0,
            backjumps: 0,
        }
    }
}

} // verus!
