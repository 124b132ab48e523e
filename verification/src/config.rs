//! Strategy choices a solver configuration can name.

use vstd::prelude::*;

verus! {

#[derive(Copy, Clone, PartialEq, Eq, Structural, Hash, Debug)]
pub enum PhaseSelection {
    AlwaysTrue,
    AlwaysFalse,
    BasicCaching,
    SATCaching,
    Frozen,
    Random,
}

#[derive(Copy, Clone, PartialEq, Eq, Structural, Hash, Debug)]
pub enum RestartStrategy {
    Geometric,
    Luby,
    Ema,
    Static,
}

#[derive(Copy, Clone, PartialEq, Eq, Structural, Hash, Debug)]
pub enum GcStrategy {
    DynPsm,
    Psm,
    Glue,
    GluePsm,
    PsmGlue,
}

#[derive(Copy, Clone, PartialEq, Eq, Structural, Hash, Debug)]
pub enum BranchingHeuristic {
    Vsids,
    Chb,
}

#[derive(Copy, Clone, PartialEq, Eq, Structural, Hash, Debug)]
pub enum PbResolve {
    Cardinality,
    Rounding,
}

#[derive(Copy, Clone, PartialEq, Eq, Structural, Hash, Debug)]
pub enum PbLemmaFormat {
    Cardinality,
    Pb,
}

#[derive(Copy, Clone, PartialEq, Eq, Structural, Hash, Debug)]
pub enum RewardType {
    Ternary,
    UnitLiteral,
    HeuleSchur,
    HeuleUnit,
    MarchCu,
}

#[derive(Copy, Clone, PartialEq, Eq, Structural, Hash, Debug)]
pub enum CutoffType {
    Depth,
    Freevars,
    PSAT,
    AdaptiveFreevars,
    AdaptivePSAT,
}

} // verus!
