//! Per-variable mutable search state.

use vstd::prelude::*;

use super::{CoefficientVector, PbCoefficient};
use crate::data_structures::TFVectors;
use crate::literal::{Literal, LiteralVector};
use crate::BoolVariableVector;

verus! {

pub struct VariableInfo {
    /// The current assignment.
    pub value: bool,
    /// Sticky-phase probability, in percent, used at reinitialization.
    /// Zero makes the variable always false, one hundred always true.
    pub bias: u32,
    /// Binary implications: `bin.get(s)` holds the literals forced when the
    /// literal of this variable with sign `s` becomes true.
    pub bin: TFVectors<LiteralVector>,
    /// Whether this variable's neighborhood changed since its last flip.
    pub conf_change: bool,
    /// The explanation for a unit assignment.
    pub explain: Literal,
    /// How many times this variable was flipped.
    pub flips: u64,
    pub in_goodvar_stack: bool,
    /// Variables sharing a constraint with this one.
    pub neighbors: BoolVariableVector,
    /// Net decrease in the number of violated constraints if flipped now.
    pub score: i128,
    /// Finer-grained companion of `score` for tie-breaking.
    pub slack_score: i128,
    /// The flip sequence number, for recency tie-breaking.
    pub time_stamp: u32,
    /// A forced variable that search must never flip.
    pub unit: bool,
    /// Watch lists: `watch.get(b)` holds the occurrences whose literal is
    /// true when this variable's value is `b`, each as a
    /// (constraint, coefficient) pair.
    pub watch: TFVectors<CoefficientVector>,
}

impl VariableInfo {
    /// The occurrence list whose literals are true under value `b`.
    pub open spec fn watch_spec(self, b: bool) -> Seq<PbCoefficient> {
        if b {
            self.watch.trues@
        } else {
            self.watch.falses@
        }
    }

    /// The implication list consulted when this variable's literal of sign
    /// `s` becomes true.
    pub open spec fn bin_spec(self, s: bool) -> Seq<Literal> {
        if s {
            self.bin.trues@
        } else {
            self.bin.falses@
        }
    }
}

impl Default for VariableInfo {
    /// A fresh variable: true, unbiased, free, with empty lists.
    fn default() -> (r: Self)
        ensures
            r.value == true,
            r.bias == 50,
            r.unit == false,
            r.explain == Literal::null_spec(),
            r.conf_change == true,
            r.in_goodvar_stack == false,
            r.score == 0,
            r.slack_score == 0,
            r.time_stamp == 0,
            r.flips == 0,
            r.neighbors@.len() == 0,
            r.watch.trues@.len() == 0,
            r.watch.falses@.len() == 0,
            r.bin.trues@.len() == 0,
            r.bin.falses@.len() == 0,
    {
        VariableInfo {
            value: true,
            bias: 50,
            bin: TFVectors::new(Vec::new(), Vec::new()),
            conf_change: true,
            explain: Literal::null(),
            flips: 0,
            in_goodvar_stack: false,
            neighbors: Vec::new(),
            score: 0,
            slack_score: 0,
            time_stamp: 0,
            unit: false,
            watch: TFVectors::new(Vec::new(), Vec::new()),
        }
    }
}

} // verus!
