//! The local-search engine: constraint import, initialization and
//! reinitialization, the pick/flip/propagate cycle, noise adaptation,
//! unsat-stack and goodvar-stack bookkeeping, termination, and model
//! extraction.
//!
//! The engine maintains three invariants at every observable point:
//! every constraint's slack equals its bound minus the weighted count of
//! its true literals; the unsat stack holds exactly the constraints with
//! negative slack; and the goodvar stack holds exactly the variables whose
//! configuration changed and whose score is positive.

use vstd::prelude::*;

use super::config::LocalSearchConfig;
use super::constraint::{
    lit_is_true, lemma_flip_delta, lemma_occ_bounds, lemma_occ_push, lemma_value_bounds,
    lemma_value_congruent, lemma_value_push, lemma_wsum_bounds, lemma_wsum_push, total_upto,
    value_upto, wsum_upto, Constraint,
};
use super::variable_info::VariableInfo;
use super::{LocalSearchStatistics, PbCoefficient};
use crate::data_structures::RandomGenerator;
use crate::errors::Error;
use crate::lifted_bool::LiftedBool;
use crate::literal::{Literal, LiteralVector};
use crate::log::Logger;
use crate::model::Model;
use crate::resource_limit::ResourceLimit;
use crate::{BoolVariable, BoolVariableVector};

verus! {

pub struct LocalSearch {
    pub stats: LocalSearchStatistics,
    pub config: LocalSearchConfig,
    /// One entry per variable; index 0 is the virtual sentinel.
    pub vars: Vec<VariableInfo>,
    /// The assignment of the best round seen so far.
    pub best_phase: Vec<bool>,
    /// The variables whose value is forced.
    pub units: BoolVariableVector,
    /// All constraints, indexed by their id.
    pub constraints: Vec<Constraint>,
    /// Temporary assumptions for the current `check` call.
    pub assumptions: LiteralVector,
    /// The propagation queue.
    pub prop_queue: LiteralVector,
    pub num_non_binary_clauses: usize,
    pub is_pb: bool,
    pub is_unsat: bool,
    /// The currently violated constraints, as a dense sequence.
    pub unsat_stack: Vec<usize>,
    /// The position of each constraint inside `unsat_stack`.
    pub index_in_unsat_stack: Vec<usize>,
    /// The variables with a changed configuration and positive score.
    pub goodvar_stack: BoolVariableVector,
    pub initializing: bool,
    /// The smallest unsat-stack size seen in this round.
    pub best_unsat: usize,
    /// The best violated-over-total rate of this try, scaled by 1 000 000.
    pub best_unsat_rate: u64,
    /// The best rate of the previous try, same scale.
    pub last_best_unsat_rate: u64,
    pub best_known_value: i32,
    /// The per-try step budget.
    pub max_steps: u32,
    /// The probability of a random rather than greedy pick, on a 0..10000
    /// scale.
    pub noise: u32,
    /// The noise adaptation step, in thousandths.
    pub noise_delta_permille: u32,
    pub limit: ResourceLimit,
    pub rand: RandomGenerator,
    pub model: Model,
    pub log: Logger,
}

impl LocalSearch {
    /// The current assignment, one value per variable, sentinel included.
    pub open spec fn sol(self) -> Seq<bool> {
        self.vars@.map(|i: int, vi: VariableInfo| vi.value)
    }

    /// The number of real variables; they are indexed `1..=num_vars`.
    pub open spec fn num_vars_spec(self) -> int {
        self.vars@.len() - 1
    }

    pub open spec fn ncons_spec(self) -> int {
        self.constraints@.len() as int
    }

    /// Constraint `cid` carries its own id and mentions only real
    /// variables.
    pub open spec fn con_ok(self, cid: int) -> bool {
        &&& self.constraints@[cid].id == cid
        &&& self.constraints@[cid].shape_ok(self.num_vars_spec())
        &&& 0 <= self.constraints@[cid].total_spec() <= 0x1_0000_0000_0000_0000_0000_0000
    }

    /// Every watch and implication entry of variable `v` points inside the
    /// engine.
    pub open spec fn entries_ok(self, v: int) -> bool {
        &&& forall|j: int|
            0 <= j < self.vars@[v].watch.trues@.len() ==> (#[trigger] self.vars@[v].watch.trues@[j]).constraint_id
                < self.ncons_spec()
        &&& forall|j: int|
            0 <= j < self.vars@[v].watch.falses@.len() ==> (
            #[trigger] self.vars@[v].watch.falses@[j]).constraint_id < self.ncons_spec()
        &&& forall|j: int|
            0 <= j < self.vars@[v].bin.trues@.len() ==> 1 <= (
            #[trigger] self.vars@[v].bin.trues@[j]).var_spec() <= self.num_vars_spec()
        &&& forall|j: int|
            0 <= j < self.vars@[v].bin.falses@.len() ==> 1 <= (
            #[trigger] self.vars@[v].bin.falses@[j]).var_spec() <= self.num_vars_spec()
    }

    /// The watch lists of `v` account exactly for `v`'s occurrences in
    /// constraint `cid`: the "true when value is b" list sums the
    /// occurrences of sign `!b`.
    pub open spec fn watch_ok(self, v: int, cid: int) -> bool {
        &&& wsum_upto(
            self.vars@[v].watch.trues@,
            cid,
            self.vars@[v].watch.trues@.len() as int,
        ) == self.constraints@[cid].occ_spec(v, false)
        &&& wsum_upto(
            self.vars@[v].watch.falses@,
            cid,
            self.vars@[v].watch.falses@.len() as int,
        ) == self.constraints@[cid].occ_spec(v, true)
    }

    /// The unit list holds exactly the flagged variables, each once.
    pub open spec fn units_ok(self) -> bool {
        &&& forall|j: int|
            0 <= j < self.units@.len() ==> 1 <= #[trigger] self.units@[j]
                <= self.num_vars_spec() && self.vars@[self.units@[j] as int].unit
        &&& forall|j1: int, j2: int|
            #![trigger self.units@[j1], self.units@[j2]]
            0 <= j1 < j2 < self.units@.len() ==> self.units@[j1] != self.units@[j2]
        &&& forall|v: int|
            1 <= v <= self.num_vars_spec() && (#[trigger] self.vars@[v]).unit ==> exists|j: int|
                0 <= j < self.units@.len() && self.units@[j] == v
    }

    /// The structural part of the engine invariant.
    pub open spec fn wf_core(self) -> bool {
        &&& self.vars@.len() >= 1
        &&& self.vars@.len() <= crate::NULL_BOOL_VAR + 1
        &&& !self.vars@[0].unit
        &&& self.index_in_unsat_stack@.len() == self.ncons_spec()
        &&& forall|cid: int| 0 <= cid < self.ncons_spec() ==> #[trigger] self.con_ok(cid)
        &&& forall|v: int| 0 <= v < self.vars@.len() ==> #[trigger] self.entries_ok(v)
        &&& forall|v: int, cid: int|
            0 <= v < self.vars@.len() && 0 <= cid < self.ncons_spec() ==> #[trigger] self.watch_ok(
                v,
                cid,
            )
        &&& self.units_ok()
        &&& self.noise <= 10000
        &&& self.noise_delta_permille <= 500
    }

    /// The slack of constraint `cid` is its bound minus the weighted count
    /// of its true literals.
    pub open spec fn slack_ok_at(self, cid: int) -> bool {
        self.constraints@[cid].slack == self.constraints@[cid].k - self.constraints@[cid].value_spec(
            self.sol(),
        )
    }

    /// Constraint `cid` sits in the unsat stack at its recorded position.
    pub open spec fn in_unsat_stack(self, cid: int) -> bool {
        &&& 0 <= cid < self.index_in_unsat_stack@.len()
        &&& self.index_in_unsat_stack@[cid] < self.unsat_stack@.len()
        &&& self.unsat_stack@[self.index_in_unsat_stack@[cid] as int] == cid
    }

    /// Stack entries are valid constraint ids and the position index is
    /// their inverse.
    pub open spec fn stack_entries_ok(self) -> bool {
        forall|j: int|
            0 <= j < self.unsat_stack@.len() ==> #[trigger] self.unsat_stack@[j]
                < self.ncons_spec() && self.index_in_unsat_stack@[self.unsat_stack@[j] as int] == j
    }

    /// The unsat stack holds exactly the constraints with negative slack.
    pub open spec fn stack_ok(self) -> bool {
        &&& self.stack_entries_ok()
        &&& forall|j: int|
            0 <= j < self.unsat_stack@.len() ==> (#[trigger] self.constraints@[self.unsat_stack@[j] as int]).slack
                < 0
        &&& forall|cid: int|
            0 <= cid < self.ncons_spec() && (#[trigger] self.constraints@[cid]).slack < 0
                ==> self.in_unsat_stack(cid)
    }

    /// The goodvar stack holds exactly the variables whose configuration
    /// changed and whose score is positive.
    pub open spec fn good_ok(self) -> bool {
        &&& forall|j: int|
            0 <= j < self.goodvar_stack@.len() ==> 1 <= #[trigger] self.goodvar_stack@[j]
                <= self.num_vars_spec() && self.vars@[self.goodvar_stack@[j] as int].in_goodvar_stack
                && self.vars@[self.goodvar_stack@[j] as int].conf_change
                && self.vars@[self.goodvar_stack@[j] as int].score > 0
        &&& forall|v: int|
            1 <= v <= self.num_vars_spec() && (#[trigger] self.vars@[v]).conf_change
                && self.vars@[v].score > 0 ==> self.vars@[v].in_goodvar_stack
        &&& forall|v: int|
            0 <= v < self.vars@.len() && (#[trigger] self.vars@[v]).in_goodvar_stack ==> exists|
                j: int,
            |
                0 <= j < self.goodvar_stack@.len() && self.goodvar_stack@[j] == v
    }

    /// The full engine invariant: structure, slack, unsat stack, goodvar
    /// stack.
    pub open spec fn wf(self) -> bool {
        &&& self.wf_core()
        &&& forall|cid: int| 0 <= cid < self.ncons_spec() ==> #[trigger] self.slack_ok_at(cid)
        &&& self.stack_ok()
        &&& self.good_ok()
    }

    /// A fresh engine: one sentinel variable, no constraints, the default
    /// noise schedule.
    pub fn new() -> (r: LocalSearch)
        ensures
            r.wf(),
            r.num_vars_spec() == 0,
            r.ncons_spec() == 0,
            r.units@.len() == 0,
            r.is_unsat == false,
            r.noise == 9800,
            r.noise_delta_permille == 50,
            r.best_known_value == i32::MAX,
            r.initializing == false,
            r.stats.count_of_flips == 0,
    {
        let mut vars: Vec<VariableInfo> = Vec::new();
        vars.push(VariableInfo::default());
        let r = LocalSearch {
            stats: LocalSearchStatistics::new(),
            config: LocalSearchConfig::new(),
            vars,
            best_phase: Vec::new(),
            units: Vec::new(),
            constraints: Vec::new(),
            assumptions: Vec::new(),
            prop_queue: Vec::new(),
            num_non_binary_clauses: 0,
            is_pb: false,
            is_unsat: false,
            unsat_stack: Vec::new(),
            index_in_unsat_stack: Vec::new(),
            goodvar_stack: Vec::new(),
            initializing: false,
            best_unsat: 0,
            best_unsat_rate: 1_000_000,
            last_best_unsat_rate: 1_000_000,
            best_known_value: i32::MAX,
            max_steps: 1u32 << 30u32,
            noise: 9800,
            noise_delta_permille: 50,
            limit: ResourceLimit::new(),
            rand: RandomGenerator::new(),
            model: Model::new(),
            log: Logger::new(),
        };
        r
    }

    /// The number of real variables.
    pub fn num_vars(&self) -> (r: usize)
        requires
            self.vars@.len() >= 1,
        ensures
            r == self.num_vars_spec(),
    {
        self.vars.len() - 1
    }

    /// The number of constraints.
    pub fn num_constraints(&self) -> (r: usize)
        ensures
            r == self.ncons_spec(),
    {
        self.constraints.len()
    }

    /// The current value of a variable.
    pub fn cur_solution(&self, v: BoolVariable) -> (r: bool)
        requires
            v < self.vars@.len(),
        ensures
            r == self.sol()[v as int],
    {
        self.vars[v].value
    }

    /// The incrementally maintained slack of a constraint.
    pub fn constraint_slack(&self, ci: usize) -> (r: i128)
        requires
            ci < self.ncons_spec(),
        ensures
            r == self.constraints@[ci as int].slack,
    {
        self.constraints[ci].slack
    }

    fn score(&self, v: BoolVariable) -> (r: i128)
        requires
            v < self.vars@.len(),
        ensures
            r == self.vars@[v as int].score,
    {
        self.vars[v].score
    }

    fn slack_score(&self, v: BoolVariable) -> (r: i128)
        requires
            v < self.vars@.len(),
        ensures
            r == self.vars@[v as int].slack_score,
    {
        self.vars[v].slack_score
    }

    fn already_in_goodvar_stack(&self, v: BoolVariable) -> (r: bool)
        requires
            v < self.vars@.len(),
        ensures
            r == self.vars@[v as int].in_goodvar_stack,
    {
        self.vars[v].in_goodvar_stack
    }

    fn conf_change(&self, v: BoolVariable) -> (r: bool)
        requires
            v < self.vars@.len(),
        ensures
            r == self.vars@[v as int].conf_change,
    {
        self.vars[v].conf_change
    }

    fn time_stamp(&self, v: BoolVariable) -> (r: u32)
        requires
            v < self.vars@.len(),
        ensures
            r == self.vars@[v as int].time_stamp,
    {
        self.vars[v].time_stamp
    }

    /// Whether a literal is a positive occurrence.
    fn is_pos(&self, t: Literal) -> (r: bool)
        ensures
            r == !t.sign_spec(),
    {
        !t.sign()
    }

    /// Whether a variable is currently assigned true.
    fn is_true(&self, v: BoolVariable) -> (r: bool)
        requires
            v < self.vars@.len(),
        ensures
            r == self.sol()[v as int],
    {
        self.cur_solution(v)
    }

    /// Whether a literal is true under the current assignment.
    fn is_true_literal(&self, l: Literal) -> (r: bool)
        requires
            0 <= l.var_spec() < self.vars@.len(),
        ensures
            r == lit_is_true(self.sol(), l),
    {
        self.cur_solution(l.var()) != l.sign()
    }

    /// Whether a literal is false under the current assignment.
    fn is_false(&self, l: Literal) -> (r: bool)
        requires
            0 <= l.var_spec() < self.vars@.len(),
        ensures
            r == !lit_is_true(self.sol(), l),
    {
        self.cur_solution(l.var()) == l.sign()
    }

    /// Whether a variable is a protected unit.
    pub fn is_unit(&self, v: BoolVariable) -> (r: bool)
        requires
            v < self.vars@.len(),
        ensures
            r == self.vars@[v as int].unit,
    {
        self.vars[v].unit
    }

    /// Whether a literal's variable is a protected unit.
    fn is_unit_literal(&self, l: Literal) -> (r: bool)
        requires
            0 <= l.var_spec() < self.vars@.len(),
        ensures
            r == self.vars@[l.var_spec()].unit,
    {
        self.vars[l.var()].unit
    }

    /// Pushes a newly violated constraint onto the unsat stack and records
    /// its position.
    fn unsat(&mut self, constraint: usize)
        requires
            constraint < old(self).ncons_spec(),
            old(self).index_in_unsat_stack@.len() == old(self).ncons_spec(),
            old(self).stack_entries_ok(),
            !old(self).in_unsat_stack(constraint as int),
        ensures
            final(self).unsat_stack@ == old(self).unsat_stack@.push(constraint),
            final(self).index_in_unsat_stack@ == old(self).index_in_unsat_stack@.update(
                constraint as int,
                old(self).unsat_stack@.len() as usize,
            ),
            final(self).stack_entries_ok(),
            final(self).in_unsat_stack(constraint as int),
            forall|d: int|
                0 <= d < old(self).ncons_spec() && d != constraint ==> (
                final(self).in_unsat_stack(d) <==> old(self).in_unsat_stack(d)),
            *final(self) == (LocalSearch {
                unsat_stack: final(self).unsat_stack,
                index_in_unsat_stack: final(self).index_in_unsat_stack,
                ..*old(self)
            }),
    {
        let pos = self.unsat_stack.len();
        self.index_in_unsat_stack[constraint] = pos;
        self.unsat_stack.push(constraint);
    }

    /// Removes a no-longer violated constraint from the unsat stack by
    /// swapping the last entry into its place.
    fn sat(&mut self, constraint: usize)
        requires
            constraint < old(self).ncons_spec(),
            old(self).index_in_unsat_stack@.len() == old(self).ncons_spec(),
            old(self).stack_entries_ok(),
            old(self).in_unsat_stack(constraint as int),
        ensures
            final(self).unsat_stack@.len() == old(self).unsat_stack@.len() - 1,
            final(self).index_in_unsat_stack@.len() == old(self).index_in_unsat_stack@.len(),
            final(self).stack_entries_ok(),
            !final(self).in_unsat_stack(constraint as int),
            forall|d: int|
                0 <= d < old(self).ncons_spec() && d != constraint ==> (
                final(self).in_unsat_stack(d) <==> old(self).in_unsat_stack(d)),
            forall|j: int|
                0 <= j < final(self).unsat_stack@.len() ==> exists|j2: int|
                    0 <= j2 < old(self).unsat_stack@.len() && old(self).unsat_stack@[j2] == (
                    #[trigger] final(self).unsat_stack@[j]),
            *final(self) == (LocalSearch {
                unsat_stack: final(self).unsat_stack,
                index_in_unsat_stack: final(self).index_in_unsat_stack,
                ..*old(self)
            }),
    {
        let n = self.unsat_stack.len();
        let last_unsat_constraint = self.unsat_stack[n - 1];
        let index = self.index_in_unsat_stack[constraint];
        self.unsat_stack[index] = last_unsat_constraint;
        self.index_in_unsat_stack[last_unsat_constraint] = index;
        self.unsat_stack.pop();
        proof {
            assert forall|d: int|
                0 <= d < old(self).ncons_spec() && d != constraint && old(self).in_unsat_stack(
                    d,
                ) implies final(self).in_unsat_stack(d) by {
                let p = old(self).index_in_unsat_stack@[d] as int;
                assert(old(self).unsat_stack@[p] == d);
                if d == last_unsat_constraint {
                    assert(p == old(self).unsat_stack@.len() - 1);
                }
            }
            assert forall|d: int|
                0 <= d < old(self).ncons_spec() && d != constraint && final(self).in_unsat_stack(
                    d,
                ) implies old(self).in_unsat_stack(d) by {
                let p = final(self).index_in_unsat_stack@[d] as int;
                if d == last_unsat_constraint {
                } else {
                    assert(final(self).unsat_stack@[p] == d);
                    assert(old(self).unsat_stack@[p] == d);
                }
            }
        }
    }

    /// Constraint `b` is `a` with at most its slack changed.
    pub open spec fn same_constraint_shape(a: Constraint, b: Constraint) -> bool {
        &&& b.id == a.id
        &&& b.k == a.k
        &&& b.literals@ == a.literals@
        &&& b.coefficients@ == a.coefficients@
    }

    /// Variable state `b` is `a` after the round's flips touched only the
    /// assignment and the flip counter, and only when `flipped` holds.
    pub open spec fn var_preserved(a: VariableInfo, b: VariableInfo, flipped: bool) -> bool {
        &&& b.value == (if flipped {
            !a.value
        } else {
            a.value
        })
        &&& b.bias == a.bias
        &&& b.unit == a.unit
        &&& b.explain == a.explain
        &&& b.conf_change == a.conf_change
        &&& b.in_goodvar_stack == a.in_goodvar_stack
        &&& b.score == a.score
        &&& b.slack_score == a.slack_score
        &&& b.time_stamp == a.time_stamp
        &&& b.watch == a.watch
        &&& b.bin == a.bin
        &&& b.neighbors == a.neighbors
    }

    /// `b` differs from `a` only in the fields a flip is allowed to touch.
    pub open spec fn same_frame(a: LocalSearch, b: LocalSearch) -> bool {
        b == (LocalSearch {
            stats: b.stats,
            vars: b.vars,
            constraints: b.constraints,
            unsat_stack: b.unsat_stack,
            index_in_unsat_stack: b.index_in_unsat_stack,
            ..a
        })
    }

    /// What one flip does to the engine: variable `v` toggles, slacks and
    /// the unsat stack follow the invariant, scores and everything else
    /// stay.
    pub open spec fn flip_rel(pre: LocalSearch, post: LocalSearch, v: int) -> bool {
        &&& post.vars@.len() == pre.vars@.len()
        &&& post.sol() == pre.sol().update(v, !pre.sol()[v])
        &&& post.constraints@.len() == pre.constraints@.len()
        &&& forall|cid: int|
            0 <= cid < pre.constraints@.len() ==> LocalSearch::same_constraint_shape(
                pre.constraints@[cid],
                #[trigger] post.constraints@[cid],
            )
        &&& forall|i: int|
            0 <= i < pre.vars@.len() ==> LocalSearch::var_preserved(
                pre.vars@[i],
                #[trigger] post.vars@[i],
                i == v,
            )
        &&& post.units@ == pre.units@
        &&& post.goodvar_stack@ == pre.goodvar_stack@
        &&& LocalSearch::same_frame(pre, post)
        &&& post.wf()
    }

    /// Toggles a non-unit variable and updates, through its watch lists,
    /// exactly the slacks of the constraints that mention it, pushing
    /// constraints that became violated onto the unsat stack and removing
    /// those that became satisfied.
    #[verifier::rlimit(100)]
    #[verifier::spinoff_prover]
    pub fn flip_walksat(&mut self, flipvar: BoolVariable)
        requires
            old(self).wf(),
            1 <= flipvar <= old(self).num_vars_spec(),
            !old(self).vars@[flipvar as int].unit,
        ensures
            final(self).wf(),
            LocalSearch::flip_rel(*old(self), *final(self), flipvar as int),
            LocalSearch::scores_untouched(*old(self), *final(self)),
            final(self).stats.count_of_flips == (if old(self).stats.count_of_flips < u64::MAX {
                old(self).stats.count_of_flips + 1
            } else {
                old(self).stats.count_of_flips as int
            }),
            final(self).stats.count_of_restarts == old(self).stats.count_of_restarts,
            final(self).vars@[flipvar as int].flips == (if old(self).vars@[flipvar as int].flips < u64::MAX {
                old(self).vars@[flipvar as int].flips + 1
            } else {
                old(self).vars@[flipvar as int].flips as int
            }),
    {
        let ghost pre = *old(self);
        if self.stats.count_of_flips < u64::MAX {
            self.stats.count_of_flips = self.stats.count_of_flips + 1;
        }
        let new_value = !self.vars[flipvar].value;
        self.vars[flipvar].value = new_value;
        let fl = self.vars[flipvar].flips;
        if fl < u64::MAX {
            self.vars[flipvar].flips = fl + 1;
        }
        let ghost mid = *self;
        proof {
            assert(mid.sol() =~= pre.sol().update(flipvar as int, !pre.sol()[flipvar as int]));
            assert forall|i: int| 0 <= i < pre.vars@.len() implies LocalSearch::var_preserved(
                pre.vars@[i],
                mid.vars@[i],
                i == flipvar,
            ) by {}
            assert forall|v: int| 0 <= v < mid.vars@.len() implies #[trigger] mid.entries_ok(
                v,
            ) by {
                assert(pre.entries_ok(v));
                assert(mid.vars@[v].watch == pre.vars@[v].watch);
                assert(mid.vars@[v].bin == pre.vars@[v].bin);
            }
            assert forall|v: int, cid: int|
                0 <= v < mid.vars@.len() && 0 <= cid < mid.ncons_spec() implies #[trigger] mid.watch_ok(
                v,
                cid,
            ) by {
                assert(pre.watch_ok(v, cid));
                assert(mid.vars@[v].watch == pre.vars@[v].watch);
            }
            assert forall|cid: int| 0 <= cid < mid.ncons_spec() implies #[trigger] mid.con_ok(
                cid,
            ) by {
                assert(pre.con_ok(cid));
            }
            assert forall|v: int|
                1 <= v <= mid.num_vars_spec() && (#[trigger] mid.vars@[v]).unit implies exists|
                    j: int,
                |
                    0 <= j < mid.units@.len() && mid.units@[j] == v by {
                assert(pre.vars@[v].unit);
                let j = choose|j: int| 0 <= j < pre.units@.len() && pre.units@[j] == v;
                assert(mid.units@[j] == v);
            }
            assert forall|j: int|
                0 <= j < mid.units@.len() implies 1 <= #[trigger] mid.units@[j]
                    <= mid.num_vars_spec() && mid.vars@[mid.units@[j] as int].unit by {
                assert(1 <= pre.units@[j] <= pre.num_vars_spec());
                assert(pre.vars@[pre.units@[j] as int].unit);
            }
            assert(mid.units_ok());
            assert(mid.wf_core());
            assert(mid.stack_ok());
        }
        // The occurrences that just became true: subtract their weight.
        let n1 = self.vars[flipvar].watch.get(new_value).len();
        let ghost entries1 = if new_value {
            mid.vars@[flipvar as int].watch.trues@
        } else {
            mid.vars@[flipvar as int].watch.falses@
        };
        let mut j: usize = 0;
        while j < n1
            invariant
                old(self).wf(),
                1 <= flipvar <= pre.num_vars_spec(),
                pre == *old(self),
                j <= n1,
                self.vars@ == mid.vars@,
                mid.vars@.len() == pre.vars@.len(),
                forall|i: int|
                    0 <= i < pre.vars@.len() ==> LocalSearch::var_preserved(
                        pre.vars@[i],
                        #[trigger] mid.vars@[i],
                        i == flipvar as int,
                    ),
                mid.sol() == pre.sol().update(flipvar as int, !pre.sol()[flipvar as int]),
                self.stats == mid.stats,
                LocalSearch::same_frame(pre, *self),
                mid == (LocalSearch { stats: mid.stats, vars: mid.vars, ..pre }),
                entries1 == (if new_value {
                    self.vars@[flipvar as int].watch.trues@
                } else {
                    self.vars@[flipvar as int].watch.falses@
                }),
                n1 == entries1.len(),
                self.wf_core(),
                self.constraints@.len() == pre.constraints@.len(),
                forall|cid: int|
                    0 <= cid < self.ncons_spec() ==> LocalSearch::same_constraint_shape(
                        pre.constraints@[cid],
                        #[trigger] self.constraints@[cid],
                    ),
                forall|cid: int|
                    0 <= cid < self.ncons_spec() ==> (#[trigger] self.constraints@[cid]).slack
                        == pre.constraints@[cid].slack - wsum_upto(entries1, cid, j as int),
                self.stack_ok(),
            decreases n1 - j,
        {
            let ghost head = *self;
            let e = self.vars[flipvar].watch.get(new_value)[j];
            let ci = e.constraint_id;
            proof {
                assert(self.entries_ok(flipvar as int));
                assert(entries1[j as int] == e);
                assert(ci < self.ncons_spec());
                let c = pre.constraints@[ci as int];
                assert(pre.slack_ok_at(ci as int));
                assert(pre.con_ok(ci as int));
                lemma_value_bounds(c.literals@, c.coefficients@, pre.sol(), c.literals@.len() as int);
                lemma_wsum_bounds(entries1, ci as int, j as int, n1 as int);
                assert(pre.watch_ok(flipvar as int, ci as int));
                lemma_occ_bounds(
                    c.literals@,
                    c.coefficients@,
                    flipvar as int,
                    !new_value,
                    c.literals@.len() as int,
                );
                lemma_occ_bounds(
                    c.literals@,
                    c.coefficients@,
                    flipvar as int,
                    new_value,
                    c.literals@.len() as int,
                );
            }
            let old_slack = self.constraints[ci].slack;
            let ns = old_slack - e.coefficient as i128;
            self.constraints[ci].slack = ns;
            if ns < 0 && old_slack >= 0 {
                proof {
                    assert(!self.in_unsat_stack(ci as int));
                }
                self.unsat(ci);
            }
            proof {
                assert forall|cid: int| 0 <= cid < self.ncons_spec() implies (
                #[trigger] self.constraints@[cid]).slack == pre.constraints@[cid].slack
                    - wsum_upto(entries1, cid, j + 1) by {
                    assert(wsum_upto(entries1, cid, j + 1) == wsum_upto(entries1, cid, j as int)
                        + if entries1[j as int].constraint_id == cid {
                        entries1[j as int].coefficient as int
                    } else {
                        0
                    });
                }
                LocalSearch::lemma_wf_core_transfer(head, *self);
            }
            j = j + 1;
        }
        let ghost mid2 = *self;
        // The occurrences that just became false: add their weight back.
        let n2 = self.vars[flipvar].watch.get(!new_value).len();
        let ghost entries2 = if new_value {
            mid.vars@[flipvar as int].watch.falses@
        } else {
            mid.vars@[flipvar as int].watch.trues@
        };
        let mut j2: usize = 0;
        while j2 < n2
            invariant
                old(self).wf(),
                1 <= flipvar <= pre.num_vars_spec(),
                pre == *old(self),
                j2 <= n2,
                self.vars@ == mid.vars@,
                mid.vars@.len() == pre.vars@.len(),
                forall|i: int|
                    0 <= i < pre.vars@.len() ==> LocalSearch::var_preserved(
                        pre.vars@[i],
                        #[trigger] mid.vars@[i],
                        i == flipvar as int,
                    ),
                mid.sol() == pre.sol().update(flipvar as int, !pre.sol()[flipvar as int]),
                self.stats == mid.stats,
                LocalSearch::same_frame(pre, *self),
                mid == (LocalSearch { stats: mid.stats, vars: mid.vars, ..pre }),
                entries1 == (if new_value {
                    self.vars@[flipvar as int].watch.trues@
                } else {
                    self.vars@[flipvar as int].watch.falses@
                }),
                entries2 == (if new_value {
                    self.vars@[flipvar as int].watch.falses@
                } else {
                    self.vars@[flipvar as int].watch.trues@
                }),
                n2 == entries2.len(),
                self.wf_core(),
                self.constraints@.len() == pre.constraints@.len(),
                forall|cid: int|
                    0 <= cid < self.ncons_spec() ==> LocalSearch::same_constraint_shape(
                        pre.constraints@[cid],
                        #[trigger] self.constraints@[cid],
                    ),
                forall|cid: int|
                    0 <= cid < self.ncons_spec() ==> (#[trigger] self.constraints@[cid]).slack
                        == pre.constraints@[cid].slack - wsum_upto(
                        entries1,
                        cid,
                        entries1.len() as int,
                    ) + wsum_upto(entries2, cid, j2 as int),
                self.stack_ok(),
            decreases n2 - j2,
        {
            let ghost head = *self;
            let e = self.vars[flipvar].watch.get(!new_value)[j2];
            let ci = e.constraint_id;
            proof {
                assert(self.entries_ok(flipvar as int));
                assert(entries2[j2 as int] == e);
                assert(ci < self.ncons_spec());
                let c = pre.constraints@[ci as int];
                assert(pre.slack_ok_at(ci as int));
                assert(pre.con_ok(ci as int));
                lemma_value_bounds(c.literals@, c.coefficients@, pre.sol(), c.literals@.len() as int);
                lemma_wsum_bounds(entries1, ci as int, entries1.len() as int, entries1.len() as int);
                lemma_wsum_bounds(entries2, ci as int, j2 as int, n2 as int);
                assert(pre.watch_ok(flipvar as int, ci as int));
                lemma_occ_bounds(
                    c.literals@,
                    c.coefficients@,
                    flipvar as int,
                    !new_value,
                    c.literals@.len() as int,
                );
                lemma_occ_bounds(
                    c.literals@,
                    c.coefficients@,
                    flipvar as int,
                    new_value,
                    c.literals@.len() as int,
                );
            }
            let old_slack = self.constraints[ci].slack;
            let ns = old_slack + e.coefficient as i128;
            self.constraints[ci].slack = ns;
            if ns >= 0 && old_slack < 0 {
                proof {
                    assert(self.in_unsat_stack(ci as int));
                }
                self.sat(ci);
            }
            proof {
                assert forall|cid: int| 0 <= cid < self.ncons_spec() implies (
                #[trigger] self.constraints@[cid]).slack == pre.constraints@[cid].slack
                    - wsum_upto(entries1, cid, entries1.len() as int) + wsum_upto(
                    entries2,
                    cid,
                    j2 + 1,
                ) by {
                    assert(wsum_upto(entries2, cid, j2 + 1) == wsum_upto(entries2, cid, j2 as int)
                        + if entries2[j2 as int].constraint_id == cid {
                        entries2[j2 as int].coefficient as int
                    } else {
                        0
                    });
                }
                LocalSearch::lemma_wf_core_transfer(head, *self);
            }
            j2 = j2 + 1;
        }
        proof {
            let ghost a = pre.sol()[flipvar as int];
            assert(pre.sol()[flipvar as int] == pre.vars@[flipvar as int].value);
            assert(new_value == !a);
            assert(LocalSearch::var_preserved(
                pre.vars@[flipvar as int],
                mid.vars@[flipvar as int],
                true,
            ));
            assert(mid.vars@[flipvar as int].watch == pre.vars@[flipvar as int].watch);
            assert(self.sol() == mid.sol());
            assert(self.sol() == pre.sol().update(flipvar as int, !pre.sol()[flipvar as int]));
            assert forall|cid: int| 0 <= cid < self.ncons_spec() implies #[trigger] self.slack_ok_at(
                cid,
            ) by {
                let c = pre.constraints@[cid];
                assert(pre.slack_ok_at(cid));
                assert(pre.watch_ok(flipvar as int, cid));
                assert(pre.con_ok(cid));
                assert forall|i: int| 0 <= i < c.literals@.len() implies 0 <= (
                #[trigger] c.literals@[i]).var_spec() < pre.sol().len() by {
                    assert(c.shape_ok(pre.num_vars_spec()));
                }
                lemma_flip_delta(
                    c.literals@,
                    c.coefficients@,
                    pre.sol(),
                    flipvar as int,
                    c.literals@.len() as int,
                );
                // the list that became true holds the occurrences of the
                // old sign, the other list those of the new sign
                assert(wsum_upto(entries1, cid, entries1.len() as int) == c.occ_spec(
                    flipvar as int,
                    a,
                ));
                assert(wsum_upto(entries2, cid, entries2.len() as int) == c.occ_spec(
                    flipvar as int,
                    !a,
                ));
                assert(self.constraints@[cid].value_spec(self.sol()) == value_upto(
                    c.literals@,
                    c.coefficients@,
                    pre.sol().update(flipvar as int, !a),
                    c.literals@.len() as int,
                ));
            }
            LocalSearch::lemma_good_ok_transfer(pre, *self);
            assert(self.good_ok());
            assert(self.wf_core());
            assert(self.stack_ok());
            assert(forall|cid: int|
                0 <= cid < self.ncons_spec() ==> #[trigger] self.slack_ok_at(cid));
            LocalSearch::lemma_wf_assemble(*self);
            assert(LocalSearch::flip_rel(pre, *self, flipvar as int));
        }
    }

    /// Grows the variable table until variable `v` exists. New variables
    /// start fresh: free, unwatched, mentioned by no constraint.
    #[verifier::spinoff_prover]
    fn ensure_var(&mut self, v: BoolVariable)
        requires
            old(self).wf(),
            v <= crate::NULL_BOOL_VAR,
        ensures
            final(self).wf(),
            final(self).num_vars_spec() >= v,
            final(self).vars@.len() >= old(self).vars@.len(),
            forall|i: int|
                0 <= i < old(self).vars@.len() ==> final(self).vars@[i] == old(self).vars@[i],
            final(self).constraints@ == old(self).constraints@,
            final(self).units@ == old(self).units@,
            final(self).goodvar_stack@ == old(self).goodvar_stack@,
            *final(self) == (LocalSearch { vars: final(self).vars, ..*old(self) }),
    {
        while self.vars.len() < v + 1
            invariant
                self.wf(),
                v <= crate::NULL_BOOL_VAR,
                self.vars@.len() >= old(self).vars@.len(),
                forall|i: int|
                    0 <= i < old(self).vars@.len() ==> self.vars@[i] == old(self).vars@[i],
                self.constraints@ == old(self).constraints@,
                *self == (LocalSearch { vars: self.vars, ..*old(self) }),
            decreases v + 1 - self.vars@.len(),
        {
            let ghost prev = *self;
            self.vars.push(VariableInfo::default());
            proof {
                let w = prev.vars@.len() as int;
                assert(self.sol() =~= prev.sol().push(true));
                assert forall|vv: int| 0 <= vv < self.vars@.len() implies #[trigger] self.entries_ok(
                    vv,
                ) by {
                    if vv < w {
                        assert(prev.entries_ok(vv));
                    }
                }
                assert forall|vv: int, cid: int|
                    0 <= vv < self.vars@.len() && 0 <= cid < self.ncons_spec() implies #[trigger] self.watch_ok(
                    vv,
                    cid,
                ) by {
                    let c = self.constraints@[cid];
                    if vv < w {
                        assert(prev.watch_ok(vv, cid));
                    } else {
                        assert(prev.con_ok(cid));
                        assert forall|i: int| 0 <= i < c.literals@.len() implies (
                        #[trigger] c.literals@[i]).var_spec() != vv by {
                            assert(c.shape_ok(prev.num_vars_spec()));
                        }
                        super::constraint::lemma_occ_absent(
                            c.literals@,
                            c.coefficients@,
                            vv,
                            false,
                            c.literals@.len() as int,
                        );
                        super::constraint::lemma_occ_absent(
                            c.literals@,
                            c.coefficients@,
                            vv,
                            true,
                            c.literals@.len() as int,
                        );
                    }
                }
                assert forall|cid: int| 0 <= cid < self.ncons_spec() implies #[trigger] self.con_ok(
                    cid,
                ) by {
                    assert(prev.con_ok(cid));
                }
                assert forall|cid: int| 0 <= cid < self.ncons_spec() implies #[trigger] self.slack_ok_at(
                    cid,
                ) by {
                    assert(prev.slack_ok_at(cid));
                    assert(prev.con_ok(cid));
                    let c = self.constraints@[cid];
                    assert forall|i: int| 0 <= i < c.literals@.len() implies prev.sol()[(
                    #[trigger] c.literals@[i]).var_spec()] == self.sol()[c.literals@[i].var_spec()]
                        by {
                        assert(c.shape_ok(prev.num_vars_spec()));
                    }
                    super::constraint::lemma_value_congruent(
                        c.literals@,
                        c.coefficients@,
                        prev.sol(),
                        self.sol(),
                        c.literals@.len() as int,
                    );
                }
                assert forall|vv: int|
                    0 <= vv < self.vars@.len() && (#[trigger] self.vars@[vv]).in_goodvar_stack
                    implies exists|gj: int|
                        0 <= gj < self.goodvar_stack@.len() && self.goodvar_stack@[gj] == vv by {
                    if vv < w {
                        assert(prev.vars@[vv].in_goodvar_stack);
                        let gj = choose|gj: int|
                            0 <= gj < prev.goodvar_stack@.len() && prev.goodvar_stack@[gj] == vv;
                        assert(self.goodvar_stack@[gj] == vv);
                    } else {
                        assert(!self.vars@[vv].in_goodvar_stack);
                    }
                }
                assert forall|vv: int|
                    1 <= vv <= self.num_vars_spec() && (#[trigger] self.vars@[vv]).unit implies
                    exists|j: int| 0 <= j < self.units@.len() && self.units@[j] == vv by {
                    if vv < w {
                        assert(prev.vars@[vv].unit);
                        let j = choose|j: int|
                            0 <= j < prev.units@.len() && prev.units@[j] == vv;
                        assert(self.units@[j] == vv);
                    } else {
                        assert(!self.vars@[vv].unit);
                    }
                }
                assert(self.wf());
            }
        }
    }

    /// Computes every constraint's slack from the current assignment in one
    /// pass and pushes each violated constraint onto the cleared unsat
    /// stack.
    #[verifier::spinoff_prover]
    fn init_slack(&mut self)
        requires
            old(self).wf_core(),
            old(self).unsat_stack@.len() == 0,
        ensures
            final(self).wf_core(),
            forall|cid: int|
                0 <= cid < final(self).ncons_spec() ==> #[trigger] final(self).slack_ok_at(cid),
            final(self).stack_ok(),
            final(self).vars@ == old(self).vars@,
            final(self).constraints@.len() == old(self).constraints@.len(),
            forall|cid: int|
                0 <= cid < old(self).ncons_spec() ==> LocalSearch::same_constraint_shape(
                    old(self).constraints@[cid],
                    #[trigger] final(self).constraints@[cid],
                ),
            *final(self) == (LocalSearch {
                constraints: final(self).constraints,
                unsat_stack: final(self).unsat_stack,
                index_in_unsat_stack: final(self).index_in_unsat_stack,
                ..*old(self)
            }),
    {
        let ncons = self.constraints.len();
        let mut ci: usize = 0;
        while ci < ncons
            invariant
                old(self).wf_core(),
                old(self).unsat_stack@.len() == 0,
                ci <= ncons,
                ncons == self.constraints@.len(),
                self.vars@ == old(self).vars@,
                self.wf_core(),
                self.constraints@.len() == old(self).constraints@.len(),
                forall|cid: int|
                    0 <= cid < ncons ==> LocalSearch::same_constraint_shape(
                        old(self).constraints@[cid],
                        #[trigger] self.constraints@[cid],
                    ),
                forall|cid: int| ci <= cid < ncons ==> self.constraints@[cid] == old(self).constraints@[cid],
                forall|cid: int| 0 <= cid < ci ==> #[trigger] self.slack_ok_at(cid),
                self.stack_entries_ok(),
                forall|j: int|
                    0 <= j < self.unsat_stack@.len() ==> #[trigger] self.unsat_stack@[j] < ci && (
                    self.constraints@[self.unsat_stack@[j] as int]).slack < 0,
                forall|cid: int|
                    0 <= cid < ci && (#[trigger] self.constraints@[cid]).slack < 0
                        ==> self.in_unsat_stack(cid),
                *self == (LocalSearch {
                    constraints: self.constraints,
                    unsat_stack: self.unsat_stack,
                    index_in_unsat_stack: self.index_in_unsat_stack,
                    ..*old(self)
                }),
            decreases ncons - ci,
        {
            let ghost head = *self;
            proof {
                assert(self.con_ok(ci as int));
                assert(self.constraints@[ci as int].shape_ok(self.num_vars_spec()));
            }
            let m = self.constraints[ci].literals.len();
            let ghost lits = self.constraints@[ci as int].literals@;
            let ghost coeffs = self.constraints@[ci as int].coefficients@;
            let mut value: i128 = 0;
            let mut i: usize = 0;
            while i < m
                invariant
                    i <= m,
                    ci < ncons,
                    ncons == self.constraints@.len(),
                    m == lits.len(),
                    lits == self.constraints@[ci as int].literals@,
                    coeffs == self.constraints@[ci as int].coefficients@,
                    lits.len() == coeffs.len(),
                    self.wf_core(),
                    value == value_upto(lits, coeffs, self.sol(), i as int),
                    0 <= value <= total_upto(coeffs, i as int),
                    total_upto(coeffs, m as int) <= 0x1_0000_0000_0000_0000_0000_0000,
                    forall|ii: int|
                        0 <= ii < lits.len() ==> 1 <= (#[trigger] lits[ii]).var_spec()
                            <= self.num_vars_spec(),
                decreases m - i,
            {
                let l = self.constraints[ci].literals[i];
                let coeff = self.constraints[ci].coefficients[i];
                proof {
                    lemma_value_bounds(lits, coeffs, self.sol(), i as int);
                    super::constraint::lemma_total_mono(coeffs, i + 1, m as int);
                }
                if self.is_true_literal(l) {
                    value = value + coeff as i128;
                }
                i = i + 1;
            }
            let k = self.constraints[ci].k;
            let ns = k as i128 - value;
            self.constraints[ci].slack = ns;
            let ghost mid2 = *self;
            proof {
                assert forall|cid: int|
                    0 <= cid < ncons implies LocalSearch::same_constraint_shape(
                    old(self).constraints@[cid],
                    #[trigger] self.constraints@[cid],
                ) by {}
                LocalSearch::lemma_wf_core_transfer(head, *self);
                assert forall|cid: int| 0 <= cid < ci + 1 implies #[trigger] mid2.slack_ok_at(
                    cid,
                ) by {
                    if cid < ci as int {
                        assert(head.slack_ok_at(cid));
                    }
                }
            }
            if ns < 0 {
                proof {
                    if self.in_unsat_stack(ci as int) {
                        let idx = self.index_in_unsat_stack@[ci as int] as int;
                        assert(self.unsat_stack@[idx] < ci as int);
                    }
                }
                self.unsat(ci);
            }
            proof {
                LocalSearch::lemma_wf_core_transfer(mid2, *self);
                assert forall|cid: int| 0 <= cid < ci + 1 implies #[trigger] self.slack_ok_at(
                    cid,
                ) by {
                    assert(mid2.slack_ok_at(cid));
                    assert(self.constraints@[cid] == mid2.constraints@[cid]);
                }
            }
            ci = ci + 1;
        }
    }

    /// Records the current unsat-stack size and assignment as the round's
    /// best.
    fn set_best_unsat(&mut self)
        ensures
            final(self).best_unsat == old(self).unsat_stack@.len(),
            final(self).best_phase@.len() == old(self).vars@.len(),
            forall|i: int|
                0 <= i < old(self).vars@.len() ==> final(self).best_phase@[i] == old(self).sol()[i],
            *final(self) == (LocalSearch {
                best_unsat: final(self).best_unsat,
                best_phase: final(self).best_phase,
                ..*old(self)
            }),
    {
        let n = self.vars.len();
        let mut fresh: Vec<bool> = Vec::new();
        let mut i: usize = 0;
        while i < n
            invariant
                i <= n,
                n == self.vars@.len(),
                *self == *old(self),
                fresh@.len() == i,
                forall|j: int| 0 <= j < i ==> fresh@[j] == self.sol()[j],
            decreases n - i,
        {
            fresh.push(self.vars[i].value);
            i = i + 1;
        }
        self.best_phase = fresh;
        self.best_unsat = self.unsat_stack.len();
    }

    /// The score contribution of the occurrence lists under the current
    /// slacks: a tight satisfied constraint that a flip would break counts
    /// against, a just-violated one that a flip would mend counts for.
    pub open spec fn fresh_score(self, v: int) -> int {
        let truep = self.vars@[v].watch_spec(self.sol()[v]);
        let falsep = self.vars@[v].watch_spec(!self.sol()[v]);
        super::constraint::count_slack_eq(truep, self.constraints@, -1, truep.len() as int)
            - super::constraint::count_slack_eq(falsep, self.constraints@, 0, falsep.len() as int)
    }

    /// The finer-grained companion: every tight-or-violated constraint
    /// counts, not only the exactly tight ones.
    pub open spec fn fresh_slack_score(self, v: int) -> int {
        let truep = self.vars@[v].watch_spec(self.sol()[v]);
        let falsep = self.vars@[v].watch_spec(!self.sol()[v]);
        super::constraint::count_slack_le(truep, self.constraints@, -1, truep.len() as int)
            - super::constraint::count_slack_le(falsep, self.constraints@, 0, falsep.len() as int)
    }

    /// Recomputes every real variable's score and slack score in bulk from
    /// the freshly rebuilt slacks.
    #[verifier::spinoff_prover]
    fn init_scores(&mut self)
        requires
            old(self).wf_core(),
            forall|v: int|
                1 <= v <= old(self).num_vars_spec() ==> (#[trigger] old(self).vars@[v]).score == 0
                    && old(self).vars@[v].slack_score == 0,
        ensures
            final(self).wf_core(),
            final(self).vars@.len() == old(self).vars@.len(),
            forall|v: int|
                1 <= v <= old(self).num_vars_spec() ==> (#[trigger] final(self).vars@[v]).score
                    == old(self).fresh_score(v) && final(self).vars@[v].slack_score == old(self).fresh_slack_score(v),
            forall|v: int|
                0 <= v < old(self).vars@.len() ==> (#[trigger] final(self).vars@[v])
                    == (VariableInfo {
                    score: final(self).vars@[v].score,
                    slack_score: final(self).vars@[v].slack_score,
                    ..old(self).vars@[v]
                }),
            final(self).vars@[0] == old(self).vars@[0],
            final(self).sol() == old(self).sol(),
            *final(self) == (LocalSearch { vars: final(self).vars, ..*old(self) }),
    {
        let ghost pre = *old(self);
        let nv = self.vars.len();
        let mut v: usize = 1;
        while v < nv
            invariant
                pre == *old(self),
                pre.wf_core(),
                1 <= v <= nv,
                nv == self.vars@.len(),
                nv == pre.vars@.len(),
                self.constraints@ == pre.constraints@,
                forall|i: int|
                    0 <= i < nv ==> (#[trigger] self.vars@[i]) == (VariableInfo {
                        score: self.vars@[i].score,
                        slack_score: self.vars@[i].slack_score,
                        ..pre.vars@[i]
                    }),
                forall|i: int| v <= i < nv ==> self.vars@[i] == pre.vars@[i],
                self.vars@[0] == pre.vars@[0],
                forall|i: int|
                    1 <= i < v ==> (#[trigger] self.vars@[i]).score == pre.fresh_score(i)
                        && self.vars@[i].slack_score == pre.fresh_slack_score(i),
                self.wf_core(),
                *self == (LocalSearch { vars: self.vars, ..pre }),
            decreases nv - v,
        {
            proof {
                assert(self.sol() =~= pre.sol());
            }
            let is_true = self.cur_solution(v);
            let ghost truep = pre.vars@[v as int].watch_spec(pre.sol()[v as int]);
            let ghost falsep = pre.vars@[v as int].watch_spec(!pre.sol()[v as int]);
            let mut score_delta: i128 = 0;
            let mut sscore_delta: i128 = 0;
            let nt = self.vars[v].watch.get(is_true).len();
            let mut j: usize = 0;
            while j < nt
                invariant
                    pre == *old(self),
                    pre.wf_core(),
                    1 <= v < nv,
                    nv == self.vars@.len(),
                    self.constraints@ == pre.constraints@,
                    self.wf_core(),
                    is_true == self.sol()[v as int],
                    is_true == pre.sol()[v as int],
                    truep == self.vars@[v as int].watch_spec(is_true),
                    nt == truep.len(),
                    j <= nt,
                    score_delta == super::constraint::count_slack_eq(
                        truep,
                        self.constraints@,
                        -1,
                        j as int,
                    ),
                    sscore_delta == super::constraint::count_slack_le(
                        truep,
                        self.constraints@,
                        -1,
                        j as int,
                    ),
                    -(j as int) <= score_delta <= j,
                    -(j as int) <= sscore_delta <= j,
                decreases nt - j,
            {
                let e = self.vars[v].watch.get(is_true)[j];
                proof {
                    assert(self.entries_ok(v as int));
                    assert(truep[j as int] == e);
                    super::constraint::lemma_count_bounds(truep, self.constraints@, -1, j as int);
                }
                let slack = self.constraints[e.constraint_id].slack;
                if slack <= -1 {
                    sscore_delta = sscore_delta + 1;
                    if slack == -1 {
                        score_delta = score_delta + 1;
                    }
                }
                j = j + 1;
            }
            let nf = self.vars[v].watch.get(!is_true).len();
            let mut j2: usize = 0;
            while j2 < nf
                invariant
                    pre == *old(self),
                    pre.wf_core(),
                    1 <= v < nv,
                    nv == self.vars@.len(),
                    self.constraints@ == pre.constraints@,
                    self.wf_core(),
                    is_true == self.sol()[v as int],
                    is_true == pre.sol()[v as int],
                    truep == self.vars@[v as int].watch_spec(is_true),
                    falsep == self.vars@[v as int].watch_spec(!is_true),
                    nt == truep.len(),
                    nf == falsep.len(),
                    j2 <= nf,
                    score_delta == super::constraint::count_slack_eq(
                        truep,
                        self.constraints@,
                        -1,
                        nt as int,
                    ) - super::constraint::count_slack_eq(
                        falsep,
                        self.constraints@,
                        0,
                        j2 as int,
                    ),
                    sscore_delta == super::constraint::count_slack_le(
                        truep,
                        self.constraints@,
                        -1,
                        nt as int,
                    ) - super::constraint::count_slack_le(
                        falsep,
                        self.constraints@,
                        0,
                        j2 as int,
                    ),
                    -(nt + j2 as int) <= score_delta <= nt + j2,
                    -(nt + j2 as int) <= sscore_delta <= nt + j2,
                decreases nf - j2,
            {
                let e = self.vars[v].watch.get(!is_true)[j2];
                proof {
                    assert(self.entries_ok(v as int));
                    assert(falsep[j2 as int] == e);
                    super::constraint::lemma_count_bounds(truep, self.constraints@, -1, nt as int);
                    super::constraint::lemma_count_bounds(falsep, self.constraints@, 0, j2 as int);
                }
                let slack = self.constraints[e.constraint_id].slack;
                if slack <= 0 {
                    sscore_delta = sscore_delta - 1;
                    if slack == 0 {
                        score_delta = score_delta - 1;
                    }
                }
                j2 = j2 + 1;
            }
            let ghost at_entry = *self;
            self.vars[v].score = score_delta;
            self.vars[v].slack_score = sscore_delta;
            proof {
                assert(self.sol() =~= at_entry.sol());
                assert(pre.vars@[v as int].watch_spec(pre.sol()[v as int]) == truep);
                assert(self.vars@[v as int].score == pre.fresh_score(v as int));
                assert(self.vars@[v as int].slack_score == pre.fresh_slack_score(v as int));
                LocalSearch::lemma_wf_core_transfer(at_entry, *self);
            }
            v = v + 1;
        }
        proof {
            assert(self.sol() =~= pre.sol());
        }
    }

    /// Rebuilds the goodvar stack: the variables whose flip is free of
    /// configuration cost and strictly improves the violated-constraint
    /// count.
    fn init_goodvars(&mut self)
        requires
            old(self).vars@.len() >= 1,
            !old(self).vars@[0].in_goodvar_stack,
            forall|v: int|
                1 <= v <= old(self).num_vars_spec() ==> (#[trigger] old(self).vars@[v]).conf_change,
        ensures
            final(self).good_ok(),
            final(self).vars@.len() == old(self).vars@.len(),
            forall|v: int|
                0 <= v < old(self).vars@.len() ==> (#[trigger] final(self).vars@[v])
                    == (VariableInfo {
                    in_goodvar_stack: final(self).vars@[v].in_goodvar_stack,
                    ..old(self).vars@[v]
                }),
            final(self).sol() == old(self).sol(),
            *final(self) == (LocalSearch {
                vars: final(self).vars,
                goodvar_stack: final(self).goodvar_stack,
                ..*old(self)
            }),
    {
        let ghost pre = *old(self);
        self.goodvar_stack.clear();
        let nv = self.vars.len();
        let mut v: usize = 1;
        while v < nv
            invariant
                pre == *old(self),
                pre.vars@.len() >= 1,
                !pre.vars@[0].in_goodvar_stack,
                forall|i: int| 1 <= i < nv ==> (#[trigger] pre.vars@[i]).conf_change,
                1 <= v <= nv,
                nv == self.vars@.len(),
                nv == pre.vars@.len(),
                forall|i: int|
                    0 <= i < nv ==> (#[trigger] self.vars@[i]) == (VariableInfo {
                        in_goodvar_stack: self.vars@[i].in_goodvar_stack,
                        ..pre.vars@[i]
                    }),
                self.vars@[0] == pre.vars@[0],
                forall|i: int| v <= i < nv ==> self.vars@[i] == pre.vars@[i],
                forall|i: int|
                    1 <= i < v ==> (#[trigger] self.vars@[i]).in_goodvar_stack == (
                    self.vars@[i].score > 0),
                forall|j: int|
                    0 <= j < self.goodvar_stack@.len() ==> 1 <= #[trigger] self.goodvar_stack@[j]
                        < v && self.vars@[self.goodvar_stack@[j] as int].in_goodvar_stack
                        && self.vars@[self.goodvar_stack@[j] as int].conf_change
                        && self.vars@[self.goodvar_stack@[j] as int].score > 0,
                forall|i: int|
                    1 <= i < v && (#[trigger] self.vars@[i]).in_goodvar_stack ==> exists|j: int|
                        0 <= j < self.goodvar_stack@.len() && self.goodvar_stack@[j] == i,
                *self == (LocalSearch {
                    vars: self.vars,
                    goodvar_stack: self.goodvar_stack,
                    ..pre
                }),
            decreases nv - v,
        {
            let ghost head = *self;
            let good = self.score(v) > 0;
            self.vars[v].in_goodvar_stack = good;
            if good {
                self.goodvar_stack.push(v);
            }
            proof {
                assert forall|i: int|
                    1 <= i < v + 1 && (#[trigger] self.vars@[i]).in_goodvar_stack implies exists|
                        j: int,
                    |
                        0 <= j < self.goodvar_stack@.len() && self.goodvar_stack@[j] == i by {
                    if i < v as int {
                        assert(head.vars@[i].in_goodvar_stack);
                        let j = choose|j: int|
                            0 <= j < head.goodvar_stack@.len() && head.goodvar_stack@[j] == i;
                        assert(self.goodvar_stack@[j] == i);
                    } else {
                        assert(good);
                        let j = self.goodvar_stack@.len() - 1;
                        assert(self.goodvar_stack@[j] == i);
                    }
                }
            }
            v = v + 1;
        }
        proof {
            assert(self.sol() =~= pre.sol());
        }
    }

    /// Re-randomizes the assignment of every free variable, honouring the
    /// bias when phase stickiness is configured; forced variables keep
    /// their value.
    fn init_cur_solution(&mut self)
        requires
            old(self).vars@.len() >= 1,
        ensures
            final(self).vars@.len() == old(self).vars@.len(),
            forall|v: int|
                0 <= v < old(self).vars@.len() ==> (#[trigger] final(self).vars@[v])
                    == (VariableInfo { value: final(self).vars@[v].value, ..old(self).vars@[v] }),
            forall|v: int|
                0 <= v < old(self).vars@.len() && old(self).vars@[v].unit ==> (
                #[trigger] final(self).vars@[v]).value == old(self).vars@[v].value,
            *final(self) == (LocalSearch {
                vars: final(self).vars,
                rand: final(self).rand,
                ..*old(self)
            }),
    {
        let ghost pre = *old(self);
        let nv = self.vars.len();
        let sticky = self.config.phase_sticky();
        let mut v: usize = 0;
        while v < nv
            invariant
                pre == *old(self),
                v <= nv,
                nv == self.vars@.len(),
                nv == pre.vars@.len(),
                forall|i: int|
                    0 <= i < nv ==> (#[trigger] self.vars@[i]) == (VariableInfo {
                        value: self.vars@[i].value,
                        ..pre.vars@[i]
                    }),
                forall|i: int|
                    0 <= i < nv && pre.vars@[i].unit ==> (#[trigger] self.vars@[i]).value
                        == pre.vars@[i].value,
                forall|i: int| v <= i < nv ==> self.vars@[i] == pre.vars@[i],
                *self == (LocalSearch { vars: self.vars, rand: self.rand, ..pre }),
            decreases nv - v,
        {
            if !self.vars[v].unit {
                if sticky {
                    let draw = self.rand.at_most(100);
                    let b = self.vars[v].bias;
                    self.vars[v].value = draw < b;
                } else {
                    let draw = self.rand.at_most(2);
                    self.vars[v].value = draw == 0;
                }
            }
            v = v + 1;
        }
    }

    /// Seeds the generator, adopts the configured best-known value, and
    /// sets the per-try step budget to `min(20 * num_vars, 131072)`.
    fn set_parameters(&mut self)
        requires
            old(self).vars@.len() >= 1,
        ensures
            final(self).rand.data == old(self).config.random_seed,
            final(self).best_known_value == old(self).config.best_known_value,
            final(self).max_steps == (if 20 * old(self).num_vars_spec() < 131072 {
                20 * old(self).num_vars_spec()
            } else {
                131072
            }),
            *final(self) == (LocalSearch {
                rand: final(self).rand,
                best_known_value: final(self).best_known_value,
                max_steps: final(self).max_steps,
                ..*old(self)
            }),
    {
        let seed = self.config.random_seed();
        self.rand.set_seed(seed);
        self.best_known_value = self.config.best_known_value();
        let nv = self.num_vars();
        self.max_steps = if nv < 6554 {
            20 * (nv as u32)
        } else {
            1u32 << 17u32
        };
        proof {
            assert(1u32 << 17u32 == 131072) by (bit_vector);
            assert(nv >= 6554 ==> 20 * (nv as int) >= 131080) by (nonlinear_arith);
        }
    }

    /// Every literal waiting in the propagation queue names a real
    /// variable.
    pub open spec fn queue_ok(self) -> bool {
        forall|j: int|
            0 <= j < self.prop_queue@.len() ==> 1 <= (#[trigger] self.prop_queue@[j]).var_spec()
                <= self.num_vars_spec()
    }

    /// Incorporates a newly forced literal: a conflicting unit declares
    /// unsatisfiability; otherwise the variable is made to agree with the
    /// literal (flipping it if needed), biased fully toward that value, and
    /// marked protected with its explanation.
    #[verifier::spinoff_prover]
    pub fn add_unit(&mut self, literal: Literal, explain: Literal)
        requires
            old(self).wf(),
            1 <= literal.var_spec() <= old(self).num_vars_spec(),
        ensures
            final(self).wf(),
            final(self).vars@.len() == old(self).vars@.len(),
            final(self).constraints@.len() == old(self).constraints@.len(),
            forall|cid: int|
                0 <= cid < old(self).ncons_spec() ==> LocalSearch::same_constraint_shape(
                    old(self).constraints@[cid],
                    #[trigger] final(self).constraints@[cid],
                ),
            forall|v: int|
                0 <= v < old(self).vars@.len() && old(self).vars@[v].unit ==> (
                #[trigger] final(self).vars@[v]).unit && final(self).sol()[v] == old(self).sol()[v],
            !old(self).vars@[literal.var_spec()].unit ==> final(self).vars@[literal.var_spec()].unit && final(self).sol()[literal.var_spec()]
                == !literal.sign_spec(),
            old(self).vars@[literal.var_spec()].unit && old(self).sol()[literal.var_spec()]
                == literal.sign_spec() ==> final(self).is_unsat && *final(self) == (LocalSearch {
                is_unsat: final(self).is_unsat,
                ..*old(self)
            }),
            old(self).vars@[literal.var_spec()].unit && old(self).sol()[literal.var_spec()]
                != literal.sign_spec() ==> *final(self) == *old(self),
            !old(self).vars@[literal.var_spec()].unit ==> final(self).vars@[literal.var_spec()].bias == (if literal.sign_spec() {
                0int
            } else {
                100int
            }) && final(self).vars@[literal.var_spec()].explain == explain && final(self).units@
                == old(self).units@.push(literal.var_spec() as usize),
            old(self).is_unsat ==> final(self).is_unsat,
            final(self).units@.len() >= old(self).units@.len(),
            forall|j: int|
                0 <= j < old(self).units@.len() ==> final(self).units@[j] == old(self).units@[j],
            LocalSearch::scores_untouched(*old(self), *final(self)),
            final(self).stats.count_of_flips >= old(self).stats.count_of_flips,
            final(self).stats.count_of_restarts == old(self).stats.count_of_restarts,
            final(self).log == old(self).log,
            final(self).limit == old(self).limit,
            forall|v: int|
                0 <= v < old(self).vars@.len() && v != literal.var_spec() ==> (
                #[trigger] final(self).vars@[v]).unit == old(self).vars@[v].unit,
            forall|v: int|
                0 <= v < old(self).vars@.len() ==> (#[trigger] final(self).vars@[v]).watch == old(self).vars@[v].watch && final(self).vars@[v].bin == old(self).vars@[v].bin,
            final(self).prop_queue@ == old(self).prop_queue@,
            final(self).rand == old(self).rand,
            final(self).model == old(self).model,
            final(self).max_steps == old(self).max_steps,
            final(self).noise == old(self).noise,
            final(self).assumptions@ == old(self).assumptions@,
            final(self).num_non_binary_clauses == old(self).num_non_binary_clauses,
            final(self).config == old(self).config,
    {
        let variable = literal.var();
        if self.is_unit(variable) {
            if self.cur_solution(variable) == literal.sign() {
                self.is_unsat = true;
            }
            proof {
                LocalSearch::lemma_wf_frame(*old(self), *self);
            }
            return ;
        }
        if self.cur_solution(variable) == literal.sign() {
            self.flip_walksat(variable);
        }
        let ghost before = *self;
        self.vars[variable].bias = if literal.sign() {
            0
        } else {
            100
        };
        self.vars[variable].unit = true;
        self.vars[variable].explain = explain;
        self.units.push(variable);
        proof {
            assert(self.sol() =~= before.sol());
            assert forall|v: int| 0 <= v < self.vars@.len() implies #[trigger] self.entries_ok(
                v,
            ) by {
                assert(before.entries_ok(v));
                assert(self.vars@[v].watch == before.vars@[v].watch);
                assert(self.vars@[v].bin == before.vars@[v].bin);
            }
            assert forall|v: int, cid: int|
                0 <= v < self.vars@.len() && 0 <= cid < self.ncons_spec() implies #[trigger] self.watch_ok(
                v,
                cid,
            ) by {
                assert(before.watch_ok(v, cid));
                assert(self.vars@[v].watch == before.vars@[v].watch);
            }
            assert forall|cid: int| 0 <= cid < self.ncons_spec() implies #[trigger] self.con_ok(
                cid,
            ) by {
                assert(before.con_ok(cid));
            }
            assert forall|cid: int| 0 <= cid < self.ncons_spec() implies #[trigger] self.slack_ok_at(
                cid,
            ) by {
                assert(before.slack_ok_at(cid));
                assert(self.sol() =~= before.sol());
            }
            LocalSearch::lemma_stack_ok_transfer(before, *self);
            assert forall|v: int|
                1 <= v <= self.num_vars_spec() && (#[trigger] self.vars@[v]).unit implies exists|
                    j: int,
                |
                    0 <= j < self.units@.len() && self.units@[j] == v by {
                if v == variable as int {
                    assert(self.units@[self.units@.len() - 1] == v);
                } else {
                    assert(before.vars@[v].unit);
                    let j = choose|j: int|
                        0 <= j < before.units@.len() && before.units@[j] == v;
                    assert(self.units@[j] == v);
                }
            }
            assert forall|j1: int, j2: int|
                #![trigger self.units@[j1], self.units@[j2]]
                0 <= j1 < j2 < self.units@.len() implies self.units@[j1] != self.units@[j2] by {
                if j2 == self.units@.len() - 1 {
                    if self.units@[j1] == variable {
                        assert(before.vars@[variable as int].unit);
                    }
                }
            }
            LocalSearch::lemma_good_ok_transfer(before, *self);
            assert(self.wf());
        }
    }

    /// Queues the binary implications of a true literal that are not yet
    /// true themselves.
    fn add_propagation(&mut self, literal: Literal)
        requires
            old(self).wf(),
            old(self).queue_ok(),
            1 <= literal.var_spec() <= old(self).num_vars_spec(),
        ensures
            final(self).wf(),
            final(self).queue_ok(),
            final(self).prop_queue@.len() >= old(self).prop_queue@.len(),
            *final(self) == (LocalSearch { prop_queue: final(self).prop_queue, ..*old(self) }),
    {
        let sign = literal.sign();
        let v = literal.var();
        let n = self.vars[v].bin.get(sign).len();
        let mut j: usize = 0;
        while j < n
            invariant
                old(self).wf(),
                1 <= v as int <= old(self).num_vars_spec(),
                j <= n,
                n == old(self).vars@[v as int].bin_spec(sign).len(),
                self.queue_ok(),
                self.prop_queue@.len() >= old(self).prop_queue@.len(),
                *self == (LocalSearch { prop_queue: self.prop_queue, ..*old(self) }),
            decreases n - j,
        {
            let implied = self.vars[v].bin.get(sign)[j];
            proof {
                assert(old(self).entries_ok(v as int));
                assert(self.vars@[v as int].bin == old(self).vars@[v as int].bin);
            }
            if !self.is_true_literal(implied) {
                self.prop_queue.push(implied);
            }
            j = j + 1;
        }
        proof {
            LocalSearch::lemma_wf_frame(*old(self), *self);
        }
    }

    /// Breadth-first forces every binary-implied literal that is not yet
    /// true. Returns false when a protected unit would have to be flipped
    /// or the queue grows to the variable count (a propagation loop); the
    /// caller then treats the state as contradictory. When the seed literal
    /// was itself a unit, every forced literal becomes a unit with the seed
    /// as its explanation.
    #[verifier::spinoff_prover]
    pub fn propagate(&mut self, literal: Literal) -> (r: bool)
        requires
            old(self).wf(),
            1 <= literal.var_spec() <= old(self).num_vars_spec(),
        ensures
            final(self).wf(),
            final(self).vars@.len() == old(self).vars@.len(),
            final(self).constraints@.len() == old(self).constraints@.len(),
            forall|cid: int|
                0 <= cid < old(self).ncons_spec() ==> LocalSearch::same_constraint_shape(
                    old(self).constraints@[cid],
                    #[trigger] final(self).constraints@[cid],
                ),
            forall|v: int|
                0 <= v < old(self).vars@.len() && old(self).vars@[v].unit ==> (
                #[trigger] final(self).vars@[v]).unit && final(self).sol()[v] == old(self).sol()[v],
            old(self).is_unsat ==> final(self).is_unsat,
            final(self).units@.len() >= old(self).units@.len(),
            forall|j: int|
                0 <= j < old(self).units@.len() ==> final(self).units@[j] == old(self).units@[j],
            !old(self).vars@[literal.var_spec()].unit ==> forall|v: int|
                0 <= v < old(self).vars@.len() ==> (#[trigger] final(self).vars@[v]).unit == old(self).vars@[v].unit,
            LocalSearch::scores_untouched(*old(self), *final(self)),
            final(self).stats.count_of_flips >= old(self).stats.count_of_flips,
            final(self).stats.count_of_restarts == old(self).stats.count_of_restarts,
            final(self).log.messages@.len() >= old(self).log.messages@.len(),
            final(self).limit == old(self).limit,
            !r ==> final(self).prop_queue@.len() >= final(self).vars@.len() || exists|j: int|
                0 <= j < final(self).prop_queue@.len() && final(self).vars@[(
                #[trigger] final(self).prop_queue@[j]).var_spec()].unit && !lit_is_true(
                    final(self).sol(),
                    final(self).prop_queue@[j],
                ),
            r ==> final(self).prop_queue@.len() < final(self).vars@.len(),
            r && old(self).vars@[literal.var_spec()].unit ==> forall|j: int|
                0 <= j < final(self).prop_queue@.len() ==> final(self).vars@[(
                #[trigger] final(self).prop_queue@[j]).var_spec()].unit,
            final(self).rand == old(self).rand,
            final(self).model == old(self).model,
            final(self).max_steps == old(self).max_steps,
            final(self).noise == old(self).noise,
            final(self).assumptions@ == old(self).assumptions@,
    {
        let unit = self.is_unit_literal(literal);
        self.prop_queue.clear();
        proof {
            LocalSearch::lemma_wf_frame(*old(self), *self);
        }
        self.add_propagation(literal);
        let nv = self.vars.len();
        let mut i: usize = 0;
        let mut ok: bool = true;
        while ok && i < self.prop_queue.len() && i < nv
            invariant
                old(self).wf(),
                nv == old(self).vars@.len(),
                i <= nv,
                self.wf(),
                self.queue_ok(),
                self.vars@.len() == nv,
                self.constraints@.len() == old(self).constraints@.len(),
                forall|cid: int|
                    0 <= cid < old(self).ncons_spec() ==> LocalSearch::same_constraint_shape(
                        old(self).constraints@[cid],
                        #[trigger] self.constraints@[cid],
                    ),
                forall|v: int|
                    0 <= v < nv && old(self).vars@[v].unit ==> (#[trigger] self.vars@[v]).unit
                        && self.sol()[v] == old(self).sol()[v],
                forall|v: int|
                    0 <= v < nv ==> (#[trigger] self.vars@[v]).unit == old(self).vars@[v].unit,
                self.units@ == old(self).units@,
                LocalSearch::scores_untouched(*old(self), *self),
                self.stats.count_of_flips >= old(self).stats.count_of_flips,
                self.stats.count_of_restarts == old(self).stats.count_of_restarts,
                self.log == old(self).log,
                self.limit == old(self).limit,
                self.is_unsat == old(self).is_unsat,
                self.rand == old(self).rand,
                self.model == old(self).model,
                self.max_steps == old(self).max_steps,
                self.noise == old(self).noise,
                self.assumptions@ == old(self).assumptions@,
                self.num_non_binary_clauses == old(self).num_non_binary_clauses,
                self.config == old(self).config,
                !ok ==> exists|j: int|
                    0 <= j < self.prop_queue@.len() && self.vars@[(
                    #[trigger] self.prop_queue@[j]).var_spec()].unit && !lit_is_true(
                        self.sol(),
                        self.prop_queue@[j],
                    ),
            decreases nv - i,
        {
            let ghost head = *self;
            let l = self.prop_queue[i];
            if !self.is_true_literal(l) {
                if self.is_unit_literal(l) {
                    ok = false;
                    proof {
                        assert(self.prop_queue@[i as int] == l);
                    }
                } else {
                    self.flip_walksat(l.var());
                    self.add_propagation(l);
                }
            }
            i = i + 1;
        }
        if !ok {
            return false;
        }
        if self.prop_queue.len() >= nv {
            self.log_note(0, "propagation loop\n");
            return false;
        }
        let ghost mid = *self;
        if unit {
            let n = self.prop_queue.len();
            let mut k: usize = 0;
            while k < n
                invariant
                    old(self).wf(),
                    mid.wf(),
                    unit == old(self).vars@[literal.var_spec()].unit,
                    k <= n,
                    self.wf(),
                    self.queue_ok(),
                    self.prop_queue@ == mid.prop_queue@,
                    n == mid.prop_queue@.len(),
                    self.vars@.len() == old(self).vars@.len(),
                    self.constraints@.len() == old(self).constraints@.len(),
                    forall|cid: int|
                        0 <= cid < old(self).ncons_spec() ==> LocalSearch::same_constraint_shape(
                            old(self).constraints@[cid],
                            #[trigger] self.constraints@[cid],
                        ),
                    forall|v: int|
                        0 <= v < old(self).vars@.len() && old(self).vars@[v].unit ==> (
                        #[trigger] self.vars@[v]).unit && self.sol()[v] == old(self).sol()[v],
                    self.units@.len() >= old(self).units@.len(),
                    forall|j: int|
                        0 <= j < old(self).units@.len() ==> self.units@[j] == old(self).units@[j],
                    LocalSearch::scores_untouched(*old(self), *self),
                    self.stats.count_of_flips >= old(self).stats.count_of_flips,
                    self.stats.count_of_restarts == old(self).stats.count_of_restarts,
                    self.log == old(self).log,
                    self.limit == old(self).limit,
                    forall|kk: int|
                        0 <= kk < k ==> self.vars@[(
                        #[trigger] self.prop_queue@[kk]).var_spec()].unit,
                    old(self).is_unsat ==> self.is_unsat,
                    self.rand == old(self).rand,
                    self.model == old(self).model,
                    self.max_steps == old(self).max_steps,
                    self.noise == old(self).noise,
                    self.assumptions@ == old(self).assumptions@,
                    self.num_non_binary_clauses == old(self).num_non_binary_clauses,
                    self.config == old(self).config,
                decreases n - k,
            {
                let l = self.prop_queue[k];
                proof {
                    assert(self.queue_ok());
                }
                self.add_unit(l, literal);
                k = k + 1;
            }
        }
        true
    }

    /// One step of the noise schedule: after a try whose best unsat rate
    /// got worse, search gets greedier; after an improvement, more
    /// exploratory. The level stays within 0..=10000.
    pub fn adapt_noise(noise: u32, delta_permille: u32, worse: bool) -> (r: u32)
        requires
            noise <= 10000,
            delta_permille <= 500,
        ensures
            worse ==> r == noise - noise * 2 * delta_permille / 1000,
            !worse ==> r == noise + (10000 - noise) * delta_permille / 1000,
            r <= 10000,
            worse ==> r <= noise,
            !worse ==> r >= noise,
            worse && noise * 2 * delta_permille >= 1000 ==> r < noise,
    {
        if worse {
            proof {
                assert((noise as int) * 2 * (delta_permille as int) <= 10_000_000)
                    by (nonlinear_arith)
                    requires
                        noise <= 10000,
                        delta_permille <= 500,
                ;
            }
            let dec = (noise as u64) * 2 * (delta_permille as u64) / 1000;
            proof {
                assert((noise as int) * 2 * (delta_permille as int) / 1000 <= noise as int)
                    by (nonlinear_arith)
                    requires
                        noise <= 10000,
                        delta_permille <= 500,
                ;
            }
            noise - dec as u32
        } else {
            proof {
                assert(((10000 - noise) as int) * (delta_permille as int) <= 5_000_000)
                    by (nonlinear_arith)
                    requires
                        noise <= 10000,
                        delta_permille <= 500,
                ;
            }
            let inc = ((10000 - noise) as u64) * (delta_permille as u64) / 1000;
            proof {
                assert(((10000 - noise) as int) * (delta_permille as int) / 1000 <= (10000
                    - noise as int)) by (nonlinear_arith)
                    requires
                        noise <= 10000,
                        delta_permille <= 500,
                ;
            }
            noise + inc as u32
        }
    }

    /// Appends one constraint over the given weighted literals (negated
    /// first when `negate` holds), wires up the watch lists, computes the
    /// new constraint's slack from the current assignment, and pushes it
    /// onto the unsat stack if it starts out violated.
    #[verifier::spinoff_prover]
    fn install_constraint(
        &mut self,
        lits: &LiteralVector,
        coefficients: &Vec<u32>,
        k: usize,
        negate: bool,
    )
        requires
            old(self).wf(),
            coefficients@.len() == lits@.len(),
            forall|i: int|
                0 <= i < lits@.len() ==> 1 <= (#[trigger] lits@[i]).var_spec() <= old(self).num_vars_spec(),
        ensures
            final(self).wf(),
            final(self).ncons_spec() == old(self).ncons_spec() + 1,
            final(self).vars@.len() == old(self).vars@.len(),
            final(self).constraints@[old(self).ncons_spec()].k == k,
            final(self).constraints@[old(self).ncons_spec()].literals@.len() == lits@.len(),
            forall|i: int|
                0 <= i < lits@.len() ==> final(self).constraints@[old(self).ncons_spec()].literals@[i] == (if negate {
                    lits@[i].negated_spec()
                } else {
                    lits@[i]
                }),
            final(self).constraints@[old(self).ncons_spec()].coefficients@ == coefficients@,
            forall|cid: int|
                0 <= cid < old(self).ncons_spec() ==> LocalSearch::same_constraint_shape(
                    old(self).constraints@[cid],
                    #[trigger] final(self).constraints@[cid],
                ),
            final(self).sol() == old(self).sol(),
            final(self).units@ == old(self).units@,
            forall|v: int|
                0 <= v < old(self).vars@.len() ==> (#[trigger] final(self).vars@[v])
                    == (VariableInfo { watch: final(self).vars@[v].watch, ..old(self).vars@[v] }),
            final(self).is_unsat == old(self).is_unsat,
            *final(self) == (LocalSearch {
                vars: final(self).vars,
                constraints: final(self).constraints,
                unsat_stack: final(self).unsat_stack,
                index_in_unsat_stack: final(self).index_in_unsat_stack,
                ..*old(self)
            }),
    {
        let ghost pre = *old(self);
        let id = self.constraints.len();
        let fresh = Constraint::new(k, id);
        self.constraints.push(fresh);
        self.index_in_unsat_stack.push(0);
        proof {
            assert forall|v: int, cid: int|
                0 <= v < self.vars@.len() && 0 <= cid < self.ncons_spec() implies #[trigger] self.watch_ok(
                v,
                cid,
            ) by {
                if cid < id {
                    assert(pre.watch_ok(v, cid));
                } else {
                    assert(pre.entries_ok(v));
                    super::constraint::lemma_wsum_absent(
                        self.vars@[v].watch.trues@,
                        cid,
                        self.vars@[v].watch.trues@.len() as int,
                    );
                    super::constraint::lemma_wsum_absent(
                        self.vars@[v].watch.falses@,
                        cid,
                        self.vars@[v].watch.falses@.len() as int,
                    );
                }
            }
            assert forall|cid: int| 0 <= cid < self.ncons_spec() implies #[trigger] self.con_ok(
                cid,
            ) by {
                if cid < id {
                    assert(pre.con_ok(cid));
                }
            }
            assert forall|cid: int| 0 <= cid < self.ncons_spec() implies #[trigger] self.slack_ok_at(
                cid,
            ) by {
                if cid < id {
                    assert(pre.slack_ok_at(cid));
                    assert(self.constraints@[cid] == pre.constraints@[cid]);
                    assert(self.sol() =~= pre.sol());
                } else {
                    assert(self.sol() =~= pre.sol());
                }
            }
            assert forall|v: int| 0 <= v < self.vars@.len() implies #[trigger] self.entries_ok(
                v,
            ) by {
                assert(pre.entries_ok(v));
            }
            assert forall|j: int|
                0 <= j < self.unsat_stack@.len() implies #[trigger] self.unsat_stack@[j]
                    < self.ncons_spec() && self.index_in_unsat_stack@[self.unsat_stack@[j] as int]
                    == j by {
                assert(pre.unsat_stack@[j] < pre.ncons_spec());
                assert(pre.index_in_unsat_stack@[pre.unsat_stack@[j] as int] == j);
            }
            assert forall|j: int|
                0 <= j < self.unsat_stack@.len() implies (
            #[trigger] self.constraints@[self.unsat_stack@[j] as int]).slack < 0 by {
                assert(pre.constraints@[pre.unsat_stack@[j] as int].slack < 0);
            }
            assert forall|cid: int|
                0 <= cid < self.ncons_spec() && (#[trigger] self.constraints@[cid]).slack < 0
                implies self.in_unsat_stack(cid) by {
                if cid < id {
                    assert(pre.constraints@[cid].slack < 0);
                    assert(pre.in_unsat_stack(cid));
                }
            }
            LocalSearch::lemma_good_ok_transfer(pre, *self);
            LocalSearch::lemma_units_ok_transfer(pre, *self);
            assert(self.wf());
        }
        let n = lits.len();
        let mut i: usize = 0;
        while i < n
            invariant
                pre == *old(self),
                pre.wf(),
                forall|ii: int|
                    0 <= ii < n ==> 1 <= (#[trigger] lits@[ii]).var_spec() <= pre.num_vars_spec(),
                coefficients@.len() == n,
                lits@.len() == n,
                i <= n,
                id == pre.ncons_spec(),
                self.constraints@.len() == id + 1,
                self.vars@.len() == pre.vars@.len(),
                self.index_in_unsat_stack@.len() == id + 1,
                forall|cid: int|
                    0 <= cid < id ==> #[trigger] self.constraints@[cid] == pre.constraints@[cid],
                self.constraints@[id as int].id == id,
                self.constraints@[id as int].k == k,
                self.constraints@[id as int].slack == k,
                self.constraints@[id as int].literals@.len() == i,
                self.constraints@[id as int].coefficients@.len() == i,
                forall|ii: int|
                    0 <= ii < i ==> #[trigger] self.constraints@[id as int].literals@[ii] == (
                    if negate {
                        lits@[ii].negated_spec()
                    } else {
                        lits@[ii]
                    }) && self.constraints@[id as int].coefficients@[ii] == coefficients@[ii],
                total_upto(self.constraints@[id as int].coefficients@, i as int) <= (i as int)
                    * 0xFFFF_FFFF,
                self.wf_core(),
                forall|cid: int| 0 <= cid < id ==> #[trigger] self.slack_ok_at(cid),
                self.stack_ok(),
                self.good_ok(),
                forall|v: int|
                    0 <= v < self.vars@.len() ==> (#[trigger] self.vars@[v]) == (VariableInfo {
                        watch: self.vars@[v].watch,
                        ..pre.vars@[v]
                    }),
                self.sol() == pre.sol(),
                self.units@ == pre.units@,
                *self == (LocalSearch {
                    vars: self.vars,
                    constraints: self.constraints,
                    index_in_unsat_stack: self.index_in_unsat_stack,
                    ..pre
                }),
            decreases n - i,
        {
            let lraw = lits[i];
            let t = if negate {
                lraw.negated()
            } else {
                lraw
            };
            let coeff = coefficients[i];
            let tv = t.var();
            let pos = !t.sign();
            let ghost at = *self;
            let entry = PbCoefficient { constraint_id: id, coefficient: coeff };
            if pos {
                self.vars[tv].watch.trues.push(entry);
            } else {
                self.vars[tv].watch.falses.push(entry);
            }
            let ghost mid = *self;
            self.constraints[id].push(t, coeff);
            proof {
                assert(self.sol() =~= at.sol());
                assert(self.sol() =~= pre.sol());
                let newlits = self.constraints@[id as int].literals@;
                let newcoeffs = self.constraints@[id as int].coefficients@;
                let oldlits = at.constraints@[id as int].literals@;
                let oldcoeffs = at.constraints@[id as int].coefficients@;
                assert(newlits == oldlits.push(t));
                assert(newcoeffs == oldcoeffs.push(coeff));
                assert forall|v: int| 0 <= v < self.vars@.len() implies #[trigger] self.entries_ok(
                    v,
                ) by {
                    assert(at.entries_ok(v));
                }
                assert forall|v: int, cid: int|
                    0 <= v < self.vars@.len() && 0 <= cid < self.ncons_spec() implies #[trigger] self.watch_ok(
                    v,
                    cid,
                ) by {
                    assert(at.watch_ok(v, cid));
                    super::constraint::lemma_occ_push(
                        oldlits,
                        oldcoeffs,
                        v,
                        false,
                        t,
                        coeff,
                        i as int,
                    );
                    super::constraint::lemma_occ_push(
                        oldlits,
                        oldcoeffs,
                        v,
                        true,
                        t,
                        coeff,
                        i as int,
                    );
                    if v == tv as int {
                        let blist = if pos {
                            at.vars@[v].watch.trues@
                        } else {
                            at.vars@[v].watch.falses@
                        };
                        super::constraint::lemma_wsum_push(blist, entry, cid, blist.len() as int);
                    }
                }
                assert(total_upto(newcoeffs, i as int) == total_upto(oldcoeffs, i as int)) by {
                    lemma_value_push(oldlits, oldcoeffs, at.sol(), t, coeff, i as int);
                }
                assert(total_upto(newcoeffs, i + 1) <= (i + 1) * 0xFFFF_FFFF) by {
                    assert((i as int) * 0xFFFF_FFFF + 0xFFFF_FFFF == (i + 1) * 0xFFFF_FFFF)
                        by (nonlinear_arith);
                }
                assert forall|cid: int| 0 <= cid < self.ncons_spec() implies #[trigger] self.con_ok(
                    cid,
                ) by {
                    if cid < id {
                        assert(at.con_ok(cid));
                    } else {
                        assert(at.con_ok(cid));
                        assert(self.constraints@[cid].shape_ok(self.num_vars_spec()));
                        assert((i + 1) * 0xFFFF_FFFF <= 0x1_0000_0000_0000_0000 * 0xFFFF_FFFF)
                            by (nonlinear_arith)
                            requires
                                0 <= i + 1 <= 0x1_0000_0000_0000_0000,
                        ;
                    }
                }
                assert forall|cid: int| 0 <= cid < id implies #[trigger] self.slack_ok_at(
                    cid,
                ) by {
                    assert(at.slack_ok_at(cid));
                    assert(self.constraints@[cid] == at.constraints@[cid]);
                    assert(self.sol() =~= at.sol());
                }
                LocalSearch::lemma_stack_ok_transfer(at, *self);
                LocalSearch::lemma_good_ok_transfer(at, *self);
                LocalSearch::lemma_units_ok_transfer(at, *self);
                assert(self.wf_core());
            }
            i = i + 1;
        }
        // the fresh constraint's slack under the current assignment
        let ghost built = *self;
        let m = self.constraints[id].literals.len();
        let ghost blits = self.constraints@[id as int].literals@;
        let ghost bcoeffs = self.constraints@[id as int].coefficients@;
        proof {
            assert forall|ii: int|
                0 <= ii < n implies self.constraints@[id as int].coefficients@[ii]
                == coefficients@[ii] by {
                assert(self.constraints@[id as int].literals@[ii] == (if negate {
                    lits@[ii].negated_spec()
                } else {
                    lits@[ii]
                }));
            }
            assert(bcoeffs =~= coefficients@);
        }
        let mut value: i128 = 0;
        let mut vi: usize = 0;
        while vi < m
            invariant
                vi <= m,
                id < self.constraints@.len(),
                m == blits.len(),
                blits == self.constraints@[id as int].literals@,
                bcoeffs == self.constraints@[id as int].coefficients@,
                blits.len() == bcoeffs.len(),
                self.wf_core(),
                *self == built,
                value == value_upto(blits, bcoeffs, self.sol(), vi as int),
                0 <= value <= total_upto(bcoeffs, vi as int),
                forall|ii: int|
                    0 <= ii < blits.len() ==> 1 <= (#[trigger] blits[ii]).var_spec()
                        <= self.num_vars_spec(),
            decreases m - vi,
        {
            let l = self.constraints[id].literals[vi];
            let coeff = self.constraints[id].coefficients[vi];
            proof {
                assert(self.con_ok(id as int));
                lemma_value_bounds(blits, bcoeffs, self.sol(), vi as int);
                super::constraint::lemma_total_mono(bcoeffs, vi + 1, m as int);
            }
            if self.is_true_literal(l) {
                value = value + coeff as i128;
            }
            vi = vi + 1;
        }
        let ns = k as i128 - value;
        self.constraints[id].slack = ns;
        let ghost mid3 = *self;
        proof {
            LocalSearch::lemma_wf_core_transfer(built, *self);
            assert forall|cid: int| 0 <= cid < self.ncons_spec() implies #[trigger] self.slack_ok_at(
                cid,
            ) by {
                if cid < id {
                    assert(built.slack_ok_at(cid));
                    assert(self.constraints@[cid] == built.constraints@[cid]);
                    assert(self.sol() =~= built.sol());
                } else {
                    assert(self.sol() =~= built.sol());
                    assert(self.constraints@[cid].literals@ == blits);
                    assert(self.constraints@[cid].coefficients@ == bcoeffs);
                }
            }
            // the unsat stack is untouched; the fresh constraint is not in it
            assert(!built.in_unsat_stack(id as int)) by {
                if built.in_unsat_stack(id as int) {
                    let idx = built.index_in_unsat_stack@[id as int] as int;
                    assert(built.unsat_stack@[idx] == id);
                    assert(built.constraints@[built.unsat_stack@[idx] as int].slack < 0);
                }
            }
            assert forall|j: int|
                0 <= j < self.unsat_stack@.len() implies (
            #[trigger] self.constraints@[self.unsat_stack@[j] as int]).slack < 0 by {
                assert(built.constraints@[built.unsat_stack@[j] as int].slack < 0);
                assert(built.unsat_stack@[j] != id) by {
                    if built.unsat_stack@[j] == id {
                        assert(built.constraints@[id as int].slack == k as int);
                    }
                }
            }
        }
        if ns < 0 {
            proof {
                assert(!self.in_unsat_stack(id as int));
            }
            self.unsat(id);
            proof {
                LocalSearch::lemma_wf_core_transfer(mid3, *self);
                assert forall|cid: int| 0 <= cid < self.ncons_spec() implies #[trigger] self.slack_ok_at(
                    cid,
                ) by {
                    assert(mid3.slack_ok_at(cid));
                    assert(self.constraints@[cid] == mid3.constraints@[cid]);
                    assert(self.sol() =~= mid3.sol());
                }
                assert forall|j: int|
                    0 <= j < self.unsat_stack@.len() implies (
                #[trigger] self.constraints@[self.unsat_stack@[j] as int]).slack < 0 by {
                    if j < self.unsat_stack@.len() - 1 {
                        assert(self.unsat_stack@[j] == mid3.unsat_stack@[j]);
                        assert(mid3.constraints@[mid3.unsat_stack@[j] as int].slack < 0);
                    } else {
                        assert(self.unsat_stack@[j] == id);
                    }
                }
                assert forall|cid: int|
                    0 <= cid < self.ncons_spec() && (#[trigger] self.constraints@[cid]).slack < 0
                    implies self.in_unsat_stack(cid) by {
                    if cid != id {
                        assert(mid3.constraints@[cid].slack < 0);
                        assert(mid3.in_unsat_stack(cid));
                    }
                }
                LocalSearch::lemma_good_ok_transfer(mid3, *self);
                assert(self.wf());
            }
        } else {
            proof {
                assert forall|cid: int|
                    0 <= cid < self.ncons_spec() && (#[trigger] self.constraints@[cid]).slack < 0
                    implies self.in_unsat_stack(cid) by {
                    assert(cid != id);
                    assert(built.constraints@[cid].slack < 0);
                    assert(built.in_unsat_stack(cid));
                }
                assert forall|j: int|
                    0 <= j < self.unsat_stack@.len() implies #[trigger] self.unsat_stack@[j]
                        < self.ncons_spec()
                        && self.index_in_unsat_stack@[self.unsat_stack@[j] as int] == j by {
                    assert(built.unsat_stack@[j] < built.ncons_spec());
                    assert(built.index_in_unsat_stack@[built.unsat_stack@[j] as int] == j);
                }
                LocalSearch::lemma_good_ok_transfer(built, *self);
                assert(self.wf());
            }
        }
        proof {
            assert(self.sol() =~= pre.sol());
            assert(self.constraints@[id as int].coefficients@ == bcoeffs);
        }
    }

    /// Records a two-literal clause's implications: when one side is
    /// falsified, the other is forced.
    fn push_bin(&mut self, t: Literal, s: Literal)
        requires
            old(self).wf(),
            1 <= t.var_spec() <= old(self).num_vars_spec(),
            1 <= s.var_spec() <= old(self).num_vars_spec(),
        ensures
            final(self).wf(),
            final(self).vars@.len() == old(self).vars@.len(),
            final(self).sol() == old(self).sol(),
            final(self).units@ == old(self).units@,
            final(self).constraints@ == old(self).constraints@,
            forall|v: int|
                0 <= v < old(self).vars@.len() ==> (#[trigger] final(self).vars@[v])
                    == (VariableInfo { bin: final(self).vars@[v].bin, ..old(self).vars@[v] }),
            *final(self) == (LocalSearch { vars: final(self).vars, ..*old(self) }),
    {
        let ghost pre = *old(self);
        let tv = t.var();
        let pos = !t.sign();
        if pos {
            self.vars[tv].bin.trues.push(s);
        } else {
            self.vars[tv].bin.falses.push(s);
        }
        proof {
            assert(self.sol() =~= pre.sol());
            assert forall|v: int| 0 <= v < self.vars@.len() implies #[trigger] self.entries_ok(
                v,
            ) by {
                assert(pre.entries_ok(v));
            }
            assert forall|v: int, cid: int|
                0 <= v < self.vars@.len() && 0 <= cid < self.ncons_spec() implies #[trigger] self.watch_ok(
                v,
                cid,
            ) by {
                assert(pre.watch_ok(v, cid));
            }
            assert forall|cid: int| 0 <= cid < self.ncons_spec() implies #[trigger] self.con_ok(
                cid,
            ) by {
                assert(pre.con_ok(cid));
            }
            assert forall|cid: int| 0 <= cid < self.ncons_spec() implies #[trigger] self.slack_ok_at(
                cid,
            ) by {
                assert(pre.slack_ok_at(cid));
                assert(self.sol() =~= pre.sol());
            }
            LocalSearch::lemma_stack_ok_transfer(pre, *self);
            LocalSearch::lemma_good_ok_transfer(pre, *self);
            LocalSearch::lemma_units_ok_transfer(pre, *self);
            assert(self.wf_core());
            LocalSearch::lemma_wf_assemble(*self);
        }
    }

    /// Adds a cardinality constraint: at most `k` of the negations of the
    /// given clause literals may be true, which is "at least
    /// `size - k` of the clause literals are true". A single literal with
    /// `k == 0` is a forced unit. A two-literal clause additionally feeds
    /// the binary implication lists used by propagation.
    pub fn add_cardinality(&mut self, c: &LiteralVector, k: usize)
        requires
            old(self).wf(),
            forall|i: int| 1 <= (#[trigger] c@[i]).var_spec() || !(0 <= i < c@.len()),
        ensures
            final(self).wf(),
            k == 0 && c@.len() == 1 ==> final(self).vars@[c@[0].var_spec()].unit && c@[0].var_spec()
                <= final(self).num_vars_spec(),
            !(k == 0 && c@.len() == 1) ==> final(self).ncons_spec() == old(self).ncons_spec() + 1
                && final(self).constraints@[old(self).ncons_spec()].k == k && final(self).constraints@[old(self).ncons_spec()].literals@.len() == c@.len() && (forall|i: int|
                0 <= i < c@.len() ==> final(self).constraints@[old(self).ncons_spec()].literals@[i]
                    == c@[i].negated_spec() && final(self).constraints@[old(self).ncons_spec()].coefficients@[i] == 1),
            forall|cid: int|
                0 <= cid < old(self).ncons_spec() ==> LocalSearch::same_constraint_shape(
                    old(self).constraints@[cid],
                    #[trigger] final(self).constraints@[cid],
                ),
            forall|v: int|
                0 <= v < old(self).vars@.len() && old(self).vars@[v].unit ==> (
                #[trigger] final(self).vars@[v]).unit && final(self).sol()[v] == old(self).sol()[v],
            old(self).is_unsat ==> final(self).is_unsat,
            final(self).assumptions@ == old(self).assumptions@,
            final(self).units@.len() >= old(self).units@.len(),
            forall|j: int|
                0 <= j < old(self).units@.len() ==> final(self).units@[j] == old(self).units@[j],
            final(self).vars@.len() >= old(self).vars@.len(),
            final(self).limit == old(self).limit,
            k == 0 && c@.len() == 1 ==> final(self).ncons_spec() == old(self).ncons_spec(),
            !(k == 0 && c@.len() == 1) ==> final(self).stats == old(self).stats && final(self).units@ == old(self).units@,
            final(self).rand == old(self).rand,
            final(self).max_steps == old(self).max_steps,
            final(self).num_non_binary_clauses == old(self).num_non_binary_clauses,
            final(self).config == old(self).config,
    {
        if k == 0 && c.len() == 1 {
            let l = c[0];
            self.ensure_var(l.var());
            self.add_unit(l, Literal::null());
            return ;
        }
        let n = c.len();
        let mut i: usize = 0;
        while i < n
            invariant
                n == c@.len(),
                i <= n,
                self.wf(),
                forall|ii: int| 0 <= ii < n ==> 1 <= (#[trigger] c@[ii]).var_spec(),
                forall|ii: int|
                    0 <= ii < i ==> (#[trigger] c@[ii]).var_spec() <= self.num_vars_spec(),
                self.vars@.len() >= old(self).vars@.len(),
                forall|v: int|
                    0 <= v < old(self).vars@.len() ==> #[trigger] self.vars@[v] == old(self).vars@[v],
                self.constraints@ == old(self).constraints@,
                self.units@ == old(self).units@,
                *self == (LocalSearch { vars: self.vars, ..*old(self) }),
            decreases n - i,
        {
            self.ensure_var(c[i].var());
            i = i + 1;
        }
        let ghost grown = *self;
        if k == 1 && n == 2 {
            self.log_note(0, "bin: at-most-one over two literals\n");
            self.push_bin(c[0], c[1]);
            self.push_bin(c[1], c[0]);
        }
        let mut ones: Vec<u32> = Vec::new();
        let mut j: usize = 0;
        while j < n
            invariant
                j <= n,
                ones@.len() == j,
                forall|ii: int| 0 <= ii < j ==> ones@[ii] == 1,
            decreases n - j,
        {
            ones.push(1);
            j = j + 1;
        }
        self.install_constraint(c, &ones, k, true);
    }

    /// Adds a weighted pseudo-Boolean constraint `Σ coeff_i · c_i <= k`. A
    /// single literal bounded by zero forces its negation.
    pub fn add_pb(&mut self, c: &LiteralVector, coeffs: &Vec<u32>, k: usize)
        requires
            old(self).wf(),
            coeffs@.len() == c@.len(),
            forall|i: int| 1 <= (#[trigger] c@[i]).var_spec() || !(0 <= i < c@.len()),
        ensures
            final(self).wf(),
            c@.len() == 1 && k == 0 ==> final(self).vars@[c@[0].var_spec()].unit && final(self).ncons_spec() == old(self).ncons_spec(),
            !(c@.len() == 1 && k == 0) ==> final(self).is_pb,
            !(c@.len() == 1 && k == 0) ==> final(self).ncons_spec() == old(self).ncons_spec() + 1
                && final(self).constraints@[old(self).ncons_spec()].k == k && final(self).constraints@[old(self).ncons_spec()].literals@.len() == c@.len() && (forall|i: int|
                0 <= i < c@.len() ==> final(self).constraints@[old(self).ncons_spec()].literals@[i]
                    == c@[i]) && final(self).constraints@[old(self).ncons_spec()].coefficients@
                == coeffs@,
            forall|cid: int|
                0 <= cid < old(self).ncons_spec() ==> LocalSearch::same_constraint_shape(
                    old(self).constraints@[cid],
                    #[trigger] final(self).constraints@[cid],
                ),
            forall|v: int|
                0 <= v < old(self).vars@.len() && old(self).vars@[v].unit ==> (
                #[trigger] final(self).vars@[v]).unit && final(self).sol()[v] == old(self).sol()[v],
            old(self).is_unsat ==> final(self).is_unsat,
            final(self).assumptions@ == old(self).assumptions@,
            final(self).units@.len() >= old(self).units@.len(),
            forall|j: int|
                0 <= j < old(self).units@.len() ==> final(self).units@[j] == old(self).units@[j],
            final(self).vars@.len() >= old(self).vars@.len(),
            final(self).limit == old(self).limit,
            !(c@.len() == 1 && k == 0) ==> final(self).stats == old(self).stats && final(self).units@ == old(self).units@,
            final(self).num_non_binary_clauses == old(self).num_non_binary_clauses,
            final(self).config == old(self).config,
    {
        if c.len() == 1 && k == 0 {
            let l = c[0];
            self.ensure_var(l.var());
            self.add_unit(l.negated(), Literal::null());
            return ;
        }
        let n = c.len();
        let mut i: usize = 0;
        while i < n
            invariant
                n == c@.len(),
                i <= n,
                self.wf(),
                forall|ii: int| 0 <= ii < n ==> 1 <= (#[trigger] c@[ii]).var_spec(),
                forall|ii: int|
                    0 <= ii < i ==> (#[trigger] c@[ii]).var_spec() <= self.num_vars_spec(),
                self.vars@.len() >= old(self).vars@.len(),
                forall|v: int|
                    0 <= v < old(self).vars@.len() ==> #[trigger] self.vars@[v] == old(self).vars@[v],
                self.constraints@ == old(self).constraints@,
                self.units@ == old(self).units@,
                *self == (LocalSearch { vars: self.vars, ..*old(self) }),
            decreases n - i,
        {
            self.ensure_var(c[i].var());
            i = i + 1;
        }
        let ghost before_flag = *self;
        self.is_pb = true;
        proof {
            LocalSearch::lemma_wf_frame(before_flag, *self);
        }
        self.install_constraint(c, coeffs, k, false);
    }

    /// Adds a plain clause: at least one of its literals must be true,
    /// represented as a cardinality constraint over the negated literals
    /// with bound `size - 1`.
    pub fn add_clause(&mut self, constraint: &LiteralVector)
        requires
            old(self).wf(),
            constraint@.len() >= 1,
            forall|i: int| 1 <= (#[trigger] constraint@[i]).var_spec() || !(0 <= i < constraint@.len()),
        ensures
            final(self).wf(),
            forall|v: int|
                0 <= v < old(self).vars@.len() && old(self).vars@[v].unit ==> (
                #[trigger] final(self).vars@[v]).unit && final(self).sol()[v] == old(self).sol()[v],
            old(self).is_unsat ==> final(self).is_unsat,
            final(self).assumptions@ == old(self).assumptions@,
            final(self).units@.len() >= old(self).units@.len(),
            forall|j: int|
                0 <= j < old(self).units@.len() ==> final(self).units@[j] == old(self).units@[j],
            final(self).vars@.len() >= old(self).vars@.len(),
            constraint@.len() == 1 ==> final(self).vars@[constraint@[0].var_spec()].unit
                && constraint@[0].var_spec() <= final(self).num_vars_spec(),
            constraint@.len() >= 2 ==> final(self).ncons_spec() == old(self).ncons_spec() + 1
                && final(self).constraints@[old(self).ncons_spec()].k == constraint@.len() - 1
                && final(self).constraints@[old(self).ncons_spec()].literals@.len()
                == constraint@.len() && (forall|i: int|
                0 <= i < constraint@.len() ==> final(self).constraints@[old(self).ncons_spec()].literals@[i] == constraint@[i].negated_spec() && final(self).constraints@[old(self).ncons_spec()].coefficients@[i] == 1),
            constraint@.len() == 1 ==> final(self).ncons_spec() == old(self).ncons_spec(),
            forall|cid: int|
                0 <= cid < old(self).ncons_spec() ==> LocalSearch::same_constraint_shape(
                    old(self).constraints@[cid],
                    #[trigger] final(self).constraints@[cid],
                ),
            final(self).limit == old(self).limit,
            final(self).stats == old(self).stats || constraint@.len() == 1,
            final(self).num_non_binary_clauses == old(self).num_non_binary_clauses,
            final(self).config == old(self).config,
    {
        let k = constraint.len() - 1;
        self.add_cardinality(constraint, k);
    }

    /// The search bookkeeping a flip or unit injection never touches:
    /// configuration bits, time stamps, scores, goodvar flags, and the
    /// watch and implication lists of every variable.
    pub open spec fn scores_untouched(pre: LocalSearch, post: LocalSearch) -> bool {
        &&& post.vars@.len() == pre.vars@.len()
        &&& forall|v: int|
            0 <= v < pre.vars@.len() ==> (#[trigger] post.vars@[v]).conf_change
                == pre.vars@[v].conf_change && post.vars@[v].time_stamp == pre.vars@[v].time_stamp
                && post.vars@[v].score == pre.vars@[v].score && post.vars@[v].slack_score
                == pre.vars@[v].slack_score && post.vars@[v].in_goodvar_stack
                == pre.vars@[v].in_goodvar_stack && post.vars@[v].watch == pre.vars@[v].watch
                && post.vars@[v].bin == pre.vars@[v].bin
    }

    /// Old protected units survive with their forced values: what `reinit`
    /// and the search loop promise about them.
    pub open spec fn units_preserved(pre: LocalSearch, post: LocalSearch) -> bool {
        &&& post.vars@.len() >= pre.vars@.len()
        &&& forall|v: int|
            0 <= v < pre.vars@.len() && pre.vars@[v].unit ==> (#[trigger] post.vars@[v]).unit
                && post.sol()[v] == pre.sol()[v]
    }

    /// Starts a fresh try: adapts the noise level by how the best unsat
    /// rate moved, re-randomizes the assignment, rebuilds slacks, scores
    /// and both stacks from scratch, and re-propagates every forced unit.
    /// A unit propagation that contradicts another unit declares the
    /// instance unsatisfiable.
    #[verifier::spinoff_prover]
    pub fn reinit(&mut self)
        requires
            old(self).wf(),
        ensures
            final(self).wf(),
            LocalSearch::units_preserved(*old(self), *final(self)),
            old(self).best_unsat_rate > old(self).last_best_unsat_rate ==> final(self).noise == old(self).noise - old(self).noise * 2 * old(self).noise_delta_permille / 1000,
            old(self).best_unsat_rate <= old(self).last_best_unsat_rate ==> final(self).noise
                == old(self).noise + (10000 - old(self).noise) * old(self).noise_delta_permille
                / 1000,
            final(self).constraints@.len() == old(self).constraints@.len(),
            final(self).units@.len() >= old(self).units@.len(),
            forall|j: int|
                0 <= j < old(self).units@.len() ==> final(self).units@[j] == old(self).units@[j],
            final(self).limit == old(self).limit,
            final(self).max_steps == old(self).max_steps,
            final(self).stats.count_of_restarts == old(self).stats.count_of_restarts,
            final(self).log.messages@.len() >= old(self).log.messages@.len(),
            forall|v: int|
                1 <= v <= old(self).num_vars_spec() ==> (#[trigger] final(self).vars@[v]).conf_change
                    && final(self).vars@[v].time_stamp == 0,
            old(self).units@.len() == 0 ==> final(self).stats == old(self).stats && final(self).units@ == old(self).units@ && !final(self).is_unsat && final(self).best_unsat
                == final(self).unsat_stack@.len() && final(self).best_phase@.len() == final(self).vars@.len() && (forall|i: int|
                0 <= i < final(self).vars@.len() ==> final(self).best_phase@[i] == final(self).sol()[i]) && (forall|v: int|
                1 <= v <= old(self).num_vars_spec() ==> (#[trigger] final(self).vars@[v]).score
                    == final(self).fresh_score(v) && final(self).vars@[v].slack_score == final(self).fresh_slack_score(v)),
    {
        let ghost pre = *old(self);
        let worse = self.best_unsat_rate > self.last_best_unsat_rate;
        let nn = Self::adapt_noise(self.noise, self.noise_delta_permille, worse);
        self.noise = nn;
        if worse {
            self.best_unsat_rate = if self.best_unsat_rate <= u64::MAX / 1000 {
                self.best_unsat_rate * 1000
            } else {
                u64::MAX
            };
        }
        self.is_unsat = false;
        self.unsat_stack.clear();
        self.init_cur_solution();
        let nv = self.vars.len();
        let ghost randomized = *self;
        let mut v: usize = 1;
        while v < nv
            invariant
                1 <= v <= nv,
                nv == self.vars@.len(),
                nv == randomized.vars@.len(),
                forall|i: int|
                    0 <= i < nv ==> (#[trigger] self.vars@[i]) == (VariableInfo {
                        time_stamp: self.vars@[i].time_stamp,
                        conf_change: self.vars@[i].conf_change,
                        in_goodvar_stack: self.vars@[i].in_goodvar_stack,
                        score: self.vars@[i].score,
                        slack_score: self.vars@[i].slack_score,
                        ..randomized.vars@[i]
                    }),
                forall|i: int|
                    1 <= i < v ==> (#[trigger] self.vars@[i]).time_stamp == 0
                        && self.vars@[i].conf_change && !self.vars@[i].in_goodvar_stack
                        && self.vars@[i].score == 0 && self.vars@[i].slack_score == 0,
                forall|i: int| v <= i < nv ==> self.vars@[i] == randomized.vars@[i],
                self.vars@[0] == randomized.vars@[0],
                *self == (LocalSearch { vars: self.vars, ..randomized }),
            decreases nv - v,
        {
            self.vars[v].time_stamp = 0;
            self.vars[v].conf_change = true;
            self.vars[v].in_goodvar_stack = false;
            self.vars[v].score = 0;
            self.vars[v].slack_score = 0;
            v = v + 1;
        }
        // the sentinel can never be the best choice of any scan
        self.vars[0].score = i128::MIN;
        self.vars[0].conf_change = false;
        self.vars[0].slack_score = i128::MIN;
        self.vars[0].in_goodvar_stack = false;
        let ts = if self.max_steps < u32::MAX {
            self.max_steps + 1
        } else {
            u32::MAX
        };
        self.vars[0].time_stamp = ts;
        proof {
            assert(self.sol() =~= randomized.sol());
            assert forall|vv: int| 0 <= vv < self.vars@.len() implies #[trigger] self.entries_ok(
                vv,
            ) by {
                assert(pre.entries_ok(vv));
                assert(self.vars@[vv].watch == pre.vars@[vv].watch);
                assert(self.vars@[vv].bin == pre.vars@[vv].bin);
            }
            assert forall|vv: int, cid: int|
                0 <= vv < self.vars@.len() && 0 <= cid < self.ncons_spec() implies #[trigger] self.watch_ok(
                vv,
                cid,
            ) by {
                assert(pre.watch_ok(vv, cid));
                assert(self.vars@[vv].watch == pre.vars@[vv].watch);
            }
            assert forall|cid: int| 0 <= cid < self.ncons_spec() implies #[trigger] self.con_ok(
                cid,
            ) by {
                assert(pre.con_ok(cid));
            }
            LocalSearch::lemma_units_ok_transfer(pre, *self);
            assert(self.wf_core());
        }
        self.init_slack();
        let ghost after_slack = *self;
        self.init_scores();
        proof {
            assert forall|cid: int| 0 <= cid < self.ncons_spec() implies #[trigger] self.slack_ok_at(
                cid,
            ) by {
                assert(after_slack.slack_ok_at(cid));
                assert(self.constraints@[cid] == after_slack.constraints@[cid]);
            }
            LocalSearch::lemma_stack_ok_transfer(after_slack, *self);
        }
        let ghost after_scores = *self;
        self.init_goodvars();
        proof {
            LocalSearch::lemma_wf_core_transfer(after_scores, *self);
            assert forall|cid: int| 0 <= cid < self.ncons_spec() implies #[trigger] self.slack_ok_at(
                cid,
            ) by {
                assert(after_scores.slack_ok_at(cid));
                assert(self.constraints@[cid] == after_scores.constraints@[cid]);
            }
            LocalSearch::lemma_stack_ok_transfer(after_scores, *self);
            assert(self.wf());
        }
        let ghost after_good = *self;
        self.set_best_unsat();
        proof {
            LocalSearch::lemma_wf_frame(after_good, *self);
        }
        let nu = self.units.len();
        let ghost before_prop = *self;
        proof {
            // the fresh-try state as it stands before the forced units are
            // re-propagated
            assert forall|v: int|
                1 <= v <= before_prop.num_vars_spec() implies (
            #[trigger] before_prop.vars@[v]).conf_change && before_prop.vars@[v].time_stamp == 0
                && before_prop.vars@[v].score == after_slack.fresh_score(v)
                && before_prop.vars@[v].slack_score == after_slack.fresh_slack_score(v) by {
                assert(after_scores.vars@[v] == (VariableInfo {
                    score: after_scores.vars@[v].score,
                    slack_score: after_scores.vars@[v].slack_score,
                    ..after_slack.vars@[v]
                }));
                assert(after_good.vars@[v] == (VariableInfo {
                    in_goodvar_stack: after_good.vars@[v].in_goodvar_stack,
                    ..after_scores.vars@[v]
                }));
            }
            assert forall|v: int|
                1 <= v <= before_prop.num_vars_spec() implies before_prop.fresh_score(v)
                == after_slack.fresh_score(v) && before_prop.fresh_slack_score(v)
                == after_slack.fresh_slack_score(v) by {
                assert(before_prop.vars@[v].watch == after_slack.vars@[v].watch);
                assert(before_prop.sol() == after_good.sol());
                assert(after_good.sol() == after_scores.sol());
                assert(after_scores.sol() == after_slack.sol());
                assert(before_prop.constraints@ == after_slack.constraints@);
            }
            assert(before_prop.stats == pre.stats);
            assert(before_prop.units@ == pre.units@);
            assert(!before_prop.is_unsat);
            assert(before_prop.limit == pre.limit);
        }
        let mut ui: usize = 0;
        while ui < nu && !self.is_unsat
            invariant
                ui <= nu,
                self.wf(),
                nu <= self.units@.len(),
                nu == before_prop.units@.len(),
                LocalSearch::units_preserved(before_prop, *self),
                LocalSearch::units_preserved(pre, *self),
                LocalSearch::scores_untouched(before_prop, *self),
                self.constraints@.len() == pre.constraints@.len(),
                self.noise == before_prop.noise,
                self.max_steps == before_prop.max_steps,
                self.limit == before_prop.limit,
                self.stats.count_of_restarts == before_prop.stats.count_of_restarts,
                self.units@.len() >= pre.units@.len(),
                forall|j: int|
                    0 <= j < before_prop.units@.len() ==> self.units@[j]
                        == before_prop.units@[j],
                self.log.messages@.len() >= before_prop.log.messages@.len(),
                nu == 0 ==> *self == before_prop,
            decreases nu - ui,
        {
            let ghost lh = *self;
            let bv = self.units[ui];
            proof {
                assert(1 <= bv <= self.num_vars_spec());
            }
            let cur = self.cur_solution(bv);
            let l = Literal::new(bv, !cur);
            if !self.propagate(l) {
                let ghost before_flag = *self;
                self.is_unsat = true;
                proof {
                    LocalSearch::lemma_wf_frame(before_flag, *self);
                }
            }
            proof {
                LocalSearch::lemma_units_preserved_trans(before_prop, lh, *self);
                LocalSearch::lemma_units_preserved_trans(pre, lh, *self);
                LocalSearch::lemma_scores_untouched_trans(before_prop, lh, *self);
            }
            ui = ui + 1;
        }
        if self.is_unsat {
            self.log_note(0, "unsat during reinit\n");
        }
        proof {
            if pre.units@.len() == 0 {
                assert(*self == before_prop);
                assert forall|v: int|
                    1 <= v <= pre.num_vars_spec() implies (#[trigger] self.vars@[v]).score
                    == self.fresh_score(v) && self.vars@[v].slack_score == self.fresh_slack_score(
                    v,
                ) by {}
            }
        }
    }

    /// Copies the current assignment into the model: slot 0 stands for the
    /// virtual sentinel and stays undefined.
    fn extract_model(&mut self)
        requires
            old(self).vars@.len() >= 1,
        ensures
            final(self).model@.len() == old(self).vars@.len(),
            final(self).model@[0] == LiftedBool::Undefined,
            forall|v: int|
                1 <= v < old(self).vars@.len() ==> final(self).model@[v] == (if old(self).sol()[v] {
                    LiftedBool::True
                } else {
                    LiftedBool::False
                }),
            *final(self) == (LocalSearch { model: final(self).model, ..*old(self) }),
    {
        self.model.clear();
        self.model.push(LiftedBool::Undefined);
        let nv = self.vars.len();
        let mut v: usize = 1;
        while v < nv
            invariant
                1 <= v <= nv,
                nv == self.vars@.len(),
                self.model@.len() == v,
                self.model@[0] == LiftedBool::Undefined,
                forall|i: int|
                    1 <= i < v ==> self.model@[i] == (if self.sol()[i] {
                        LiftedBool::True
                    } else {
                        LiftedBool::False
                    }),
                *self == (LocalSearch { model: self.model, ..*old(self) }),
            decreases nv - v,
        {
            let b = self.vars[v].value;
            self.model.push(LiftedBool::from_bool(b));
            v = v + 1;
        }
    }

    /// Scans a violated constraint for the flip candidate: greedily for
    /// the literal whose flip breaks the fewest constraints (ties broken by
    /// reservoir sampling), or uniformly at random among the free true
    /// literals. Returns the chosen variable and whether one was found; a
    /// protected unit is never returned.
    #[verifier::spinoff_prover]
    fn select_flip_candidate(&mut self, c_idx: usize, num_unsat: usize, greedy: bool) -> (r: (
        BoolVariable,
        bool,
    ))
        requires
            old(self).wf(),
            c_idx < old(self).ncons_spec(),
        ensures
            final(self).wf(),
            *final(self) == (LocalSearch { rand: final(self).rand, ..*old(self) }),
            r.1 ==> 1 <= r.0 <= final(self).num_vars_spec() && !final(self).vars@[r.0 as int].unit,
    {
        let ghost pre = *old(self);
        let csize = self.constraints[c_idx].literals.len();
        let mut best_var: BoolVariable = 0;
        let mut have: bool = false;
        let mut n: u64 = 1;
        let mut best_bsb: u64 = 0;
        let mut li: usize = 0;
        while li < csize
            invariant
                self.wf(),
                c_idx < self.constraints@.len(),
                csize == self.constraints@[c_idx as int].literals@.len(),
                li <= csize,
                n >= 1,
                have ==> 1 <= best_var <= self.num_vars_spec() && !self.vars@[best_var as int].unit,
                *self == (LocalSearch { rand: self.rand, ..pre }),
            decreases csize - li,
        {
            let ghost at_head = *self;
            let l = self.constraints[c_idx].literals[li];
            proof {
                assert(self.con_ok(c_idx as int));
                assert(self.constraints@[c_idx as int].shape_ok(self.num_vars_spec()));
            }
            if self.is_true_literal(l) && !self.is_unit_literal(l) {
                let lv = l.var();
                if greedy {
                    let bsb = self.break_count(lv, num_unsat);
                    if !have || bsb < best_bsb {
                        best_bsb = bsb;
                        best_var = lv;
                        have = true;
                        n = 1;
                    } else if bsb == best_bsb {
                        if n < u64::MAX {
                            n = n + 1;
                        }
                        let tie = self.rand.next();
                        if (tie as u64) % n == 0 {
                            best_var = lv;
                        }
                    }
                } else {
                    let tie = self.rand.next();
                    if (tie as u64) % n == 0 {
                        best_var = lv;
                        have = true;
                    }
                    if n < u64::MAX {
                        n = n + 1;
                    }
                }
            }
            proof {
                LocalSearch::lemma_wf_frame(at_head, *self);
            }
            li = li + 1;
        }
        (best_var, have)
    }

    /// The break count of flipping `lv`: violated constraints it touches
    /// count once, and constraints it would newly violate count as heavily
    /// as the whole unsat stack.
    #[verifier::spinoff_prover]
    fn break_count(&self, lv: BoolVariable, num_unsat: usize) -> (r: u64)
        requires
            self.wf(),
            1 <= lv <= self.num_vars_spec(),
    {
        let tt = self.cur_solution(lv);
        let fn_len = self.vars[lv].watch.get(!tt).len();
        let mut bsb: u64 = 0;
        let mut wi: usize = 0;
        while wi < fn_len
            invariant
                self.wf(),
                1 <= lv as int <= self.num_vars_spec(),
                tt == self.sol()[lv as int],
                fn_len == self.vars@[lv as int].watch_spec(!tt).len(),
                wi <= fn_len,
            decreases fn_len - wi,
        {
            let e = self.vars[lv].watch.get(!tt)[wi];
            proof {
                assert(self.entries_ok(lv as int));
            }
            let slack = self.constraints[e.constraint_id].slack;
            if slack < 0 {
                bsb = bsb.saturating_add(1);
            } else if slack < e.coefficient as i128 {
                bsb = bsb.saturating_add(num_unsat as u64);
            }
            wi = wi + 1;
        }
        bsb
    }

    /// Flips the chosen variable and propagates its literal. On a
    /// propagation failure the flip is taken back, the opposite literal is
    /// forced as a unit and propagated in turn; if that fails too the
    /// instance is declared unsatisfiable. Returns whether the picking
    /// round is finished.
    #[verifier::rlimit(100)]
    #[verifier::spinoff_prover]
    fn flip_and_propagate(&mut self, best_var: BoolVariable) -> (r: bool)
        requires
            old(self).wf(),
            1 <= best_var <= old(self).num_vars_spec(),
            !old(self).vars@[best_var as int].unit,
        ensures
            final(self).wf(),
            LocalSearch::units_preserved(*old(self), *final(self)),
            old(self).is_unsat ==> final(self).is_unsat,
            final(self).constraints@.len() == old(self).constraints@.len(),
            final(self).max_steps == old(self).max_steps,
            final(self).noise == old(self).noise,
            final(self).assumptions@ == old(self).assumptions@,
            final(self).stats.count_of_flips >= old(self).stats.count_of_flips,
            final(self).stats.count_of_restarts == old(self).stats.count_of_restarts,
            old(self).stats.count_of_flips < u64::MAX ==> final(self).stats.count_of_flips > old(self).stats.count_of_flips,
            final(self).log.messages@.len() >= old(self).log.messages@.len(),
            final(self).units@.len() >= old(self).units@.len(),
            forall|j: int|
                0 <= j < old(self).units@.len() ==> final(self).units@[j] == old(self).units@[j],
    {
        self.flip_walksat(best_var);
        let now = self.cur_solution(best_var);
        proof {
            assert(best_var <= crate::NULL_BOOL_VAR);
        }
        let lit = Literal::new(best_var, !now);
        if !self.propagate(lit) {
            if self.is_true_literal(lit) {
                proof {
                    assert(!self.vars@[best_var as int].unit);
                }
                self.flip_walksat(best_var);
            }
            self.add_unit(lit.negated(), Literal::null());
            if !self.propagate(lit.negated()) {
                self.log_note(2, "unsat\n");
                let ghost before_flag = *self;
                self.is_unsat = true;
                proof {
                    LocalSearch::lemma_wf_frame(before_flag, *self);
                }
                return true;
            }
            return false;
        }
        true
    }

    /// One picking round: selects a violated constraint uniformly at
    /// random and scans it for a flip candidate as `select_flip_candidate`
    /// does; the chosen variable is flipped and propagated. Returns whether
    /// picking is finished for this step.
    #[verifier::spinoff_prover]
    fn pick_round(&mut self) -> (r: bool)
        requires
            old(self).wf(),
            old(self).unsat_stack@.len() > 0,
        ensures
            final(self).wf(),
            LocalSearch::units_preserved(*old(self), *final(self)),
            old(self).is_unsat ==> final(self).is_unsat,
            final(self).constraints@.len() == old(self).constraints@.len(),
            final(self).max_steps == old(self).max_steps,
            final(self).noise == old(self).noise,
            final(self).assumptions@ == old(self).assumptions@,
            final(self).stats.count_of_flips >= old(self).stats.count_of_flips,
            final(self).stats.count_of_restarts == old(self).stats.count_of_restarts,
            final(self).log.messages@.len() >= old(self).log.messages@.len(),
            final(self).units@.len() >= old(self).units@.len(),
            forall|j: int|
                0 <= j < old(self).units@.len() ==> final(self).units@[j] == old(self).units@[j],
            old(self).stats.count_of_flips < u64::MAX ==> final(self).stats.count_of_flips > old(self).stats.count_of_flips || final(self).is_unsat || final(self).unsat_stack@.len() > 0,
            !r ==> final(self).unsat_stack@.len() > 0,
    {
        let ghost round_head = *self;
        let num_unsat = self.unsat_stack.len();
        let draw = self.rand.next();
        let c_idx = self.unsat_stack[(draw as usize) % num_unsat];
        let noise_draw = self.rand.next();
        proof {
            LocalSearch::lemma_wf_frame(round_head, *self);
        }
        let greedy = noise_draw % 10000 <= self.noise;
        let picked = self.select_flip_candidate(c_idx, num_unsat, greedy);
        let best_var = picked.0;
        if !picked.1 {
            if greedy {
                // every true literal of a violated constraint is a
                // protected unit: no flip can ever mend it
                self.log_note(0, "unsat clause\n");
                let ghost before_flag = *self;
                self.is_unsat = true;
                proof {
                    LocalSearch::lemma_wf_frame(before_flag, *self);
                }
            } else {
                self.log_note(1, "(sat.local_search :unsat)\n");
            }
            return true;
        }
        if self.is_unit(best_var) {
            return false;
        }
        if self.flip_and_propagate(best_var) {
            return true;
        }
        if self.unsat_stack.len() == 0 {
            return true;
        }
        false
    }

    /// Selects a violated constraint uniformly at random; with probability
    /// `noise/10000` scans its free true literals greedily for the one
    /// whose flip yields the smallest break count, breaking ties by
    /// reservoir sampling, else picks one uniformly. The chosen variable is
    /// flipped and its literal propagated; a propagation failure forces the
    /// opposite unit or, failing that too, declares the instance
    /// unsatisfiable. A protected unit is never chosen: a unit candidate
    /// only sends the pick back to another round.
    #[verifier::spinoff_prover]
    pub fn pick_flip_walksat(&mut self)
        requires
            old(self).wf(),
            old(self).unsat_stack@.len() > 0,
        ensures
            final(self).wf(),
            LocalSearch::units_preserved(*old(self), *final(self)),
            old(self).is_unsat ==> final(self).is_unsat,
            final(self).constraints@.len() == old(self).constraints@.len(),
            final(self).max_steps == old(self).max_steps,
            final(self).noise == old(self).noise,
            final(self).assumptions@ == old(self).assumptions@,
            final(self).stats.count_of_flips >= old(self).stats.count_of_flips,
            final(self).stats.count_of_restarts == old(self).stats.count_of_restarts,
            final(self).log.messages@.len() >= old(self).log.messages@.len(),
            final(self).units@.len() >= old(self).units@.len(),
            forall|j: int|
                0 <= j < old(self).units@.len() ==> final(self).units@[j] == old(self).units@[j],
            old(self).stats.count_of_flips < u64::MAX ==> final(self).stats.count_of_flips > old(self).stats.count_of_flips || final(self).is_unsat || final(self).unsat_stack@.len() > 0,
    {
        let ghost pre = *old(self);
        let mut attempts: u64 = 0;
        while attempts < u64::MAX
            invariant
                pre == *old(self),
                self.wf(),
                self.unsat_stack@.len() > 0,
                LocalSearch::units_preserved(pre, *self),
                pre.is_unsat ==> self.is_unsat,
                self.constraints@.len() == pre.constraints@.len(),
                self.max_steps == pre.max_steps,
                self.noise == pre.noise,
                self.assumptions@ == pre.assumptions@,
                self.stats.count_of_flips >= pre.stats.count_of_flips,
                self.stats.count_of_restarts == pre.stats.count_of_restarts,
                self.log.messages@.len() >= pre.log.messages@.len(),
                self.units@.len() >= pre.units@.len(),
                forall|j: int|
                    0 <= j < pre.units@.len() ==> self.units@[j] == pre.units@[j],
            decreases u64::MAX - attempts,
        {
            attempts = attempts + 1;
            let ghost head = *self;
            if self.pick_round() {
                proof {
                    LocalSearch::lemma_units_preserved_trans(pre, head, *self);
                }
                return ;
            }
            proof {
                LocalSearch::lemma_units_preserved_trans(pre, head, *self);
            }
        }
    }

    /// An alternative selector: for every free true literal of a random
    /// violated constraint, tentatively flip and propagate, measure the
    /// resulting unsat-stack size, undo, and keep the literal that made it
    /// smallest; a protected unit is never chosen.
    #[verifier::rlimit(100)]
    #[verifier::spinoff_prover]
    pub fn pick_flip_lookahead(&mut self)
        requires
            old(self).wf(),
            old(self).unsat_stack@.len() > 0,
        ensures
            final(self).wf(),
            LocalSearch::units_preserved(*old(self), *final(self)),
            old(self).is_unsat ==> final(self).is_unsat,
            final(self).constraints@.len() == old(self).constraints@.len(),
            final(self).stats.count_of_flips >= old(self).stats.count_of_flips,
            final(self).units@.len() >= old(self).units@.len(),
            forall|j: int|
                0 <= j < old(self).units@.len() ==> final(self).units@[j] == old(self).units@[j],
            old(self).stats.count_of_flips < u64::MAX ==> final(self).stats.count_of_flips > old(self).stats.count_of_flips || final(self).unsat_stack@.len() > 0,
    {
        let ghost pre = *old(self);
        let num_unsat = self.unsat_stack.len();
        let draw = self.rand.next();
        proof {
            LocalSearch::lemma_wf_frame(pre, *self);
        }
        let c_idx = self.unsat_stack[(draw as usize) % num_unsat];
        let csize = self.constraints[c_idx].literals.len();
        let mut best: Literal = Literal::null();
        let mut have: bool = false;
        let mut best_make: usize = usize::MAX;
        let mut li: usize = 0;
        while li < csize
            invariant
                pre == *old(self),
                self.wf(),
                LocalSearch::units_preserved(pre, *self),
                pre.is_unsat ==> self.is_unsat,
                self.constraints@.len() == pre.constraints@.len(),
                c_idx < self.constraints@.len(),
                csize == self.constraints@[c_idx as int].literals@.len(),
                li <= csize,
                have ==> 1 <= best.var_spec() <= self.num_vars_spec()
                    && !self.vars@[best.var_spec()].unit,
                self.stats.count_of_flips >= pre.stats.count_of_flips,
                self.units@.len() >= pre.units@.len(),
                forall|j: int|
                    0 <= j < pre.units@.len() ==> self.units@[j] == pre.units@[j],
                pre.stats.count_of_flips < u64::MAX ==> self.stats.count_of_flips
                    > pre.stats.count_of_flips || self.unsat_stack@.len() > 0,
            decreases csize - li,
        {
            let l = self.constraints[c_idx].literals[li];
            proof {
                assert(self.con_ok(c_idx as int));
                assert(self.constraints@[c_idx as int].shape_ok(self.num_vars_spec()));
            }
            let ghost lh = *self;
            if !self.is_unit_literal(l) && self.is_true_literal(l) {
                self.flip_walksat(l.var());
                let ok = self.propagate(l.negated());
                if ok && self.unsat_stack.len() < best_make {
                    best = l;
                    have = true;
                    best_make = self.unsat_stack.len();
                }
                proof {
                    assert(!self.vars@[l.var_spec()].unit);
                }
                self.flip_walksat(l.var());
                if self.is_true_literal(l) {
                    self.propagate(l);
                }
            }
            proof {
                LocalSearch::lemma_units_preserved_trans(pre, lh, *self);
            }
            li = li + 1;
        }
        let ghost before_final = *self;
        if have {
            proof {
                assert(!self.vars@[best.var_spec()].unit);
            }
            self.flip_walksat(best.var());
            self.propagate(best.negated());
        } else {
            self.log_note(1, "(sat.local-search no best)\n");
        }
        proof {
            LocalSearch::lemma_units_preserved_trans(pre, before_final, *self);
        }
    }

    /// The structural invariant carries over to a state with the same
    /// variables and units whose constraints changed at most in their
    /// slack.
    pub proof fn lemma_wf_core_transfer(a: LocalSearch, b: LocalSearch)
        requires
            a.wf_core(),
            b.vars@.len() == a.vars@.len(),
            forall|v: int|
                0 <= v < a.vars@.len() ==> (#[trigger] b.vars@[v]).watch == a.vars@[v].watch
                    && b.vars@[v].bin == a.vars@[v].bin && b.vars@[v].unit == a.vars@[v].unit,
            b.units@ == a.units@,
            b.constraints@.len() == a.constraints@.len(),
            b.index_in_unsat_stack@.len() == b.constraints@.len(),
            forall|cid: int|
                0 <= cid < a.ncons_spec() ==> LocalSearch::same_constraint_shape(
                    a.constraints@[cid],
                    #[trigger] b.constraints@[cid],
                ),
            b.noise == a.noise,
            b.noise_delta_permille == a.noise_delta_permille,
        ensures
            b.wf_core(),
    {
        assert forall|cid: int| 0 <= cid < b.ncons_spec() implies #[trigger] b.con_ok(cid) by {
            assert(a.con_ok(cid));
            assert(b.constraints@[cid].literals@ == a.constraints@[cid].literals@);
            assert(b.constraints@[cid].coefficients@ == a.constraints@[cid].coefficients@);
        }
        assert forall|v: int| 0 <= v < b.vars@.len() implies #[trigger] b.entries_ok(v) by {
            assert(a.entries_ok(v));
        }
        assert forall|v: int, cid: int|
            0 <= v < b.vars@.len() && 0 <= cid < b.ncons_spec() implies #[trigger] b.watch_ok(
            v,
            cid,
        ) by {
            assert(a.watch_ok(v, cid));
            assert(b.constraints@[cid].literals@ == a.constraints@[cid].literals@);
            assert(b.constraints@[cid].coefficients@ == a.constraints@[cid].coefficients@);
        }
        LocalSearch::lemma_units_ok_transfer(a, b);
    }

    /// The unit bookkeeping carries over to a state with the same unit
    /// list and per-variable unit flags.
    pub proof fn lemma_units_ok_transfer(a: LocalSearch, b: LocalSearch)
        requires
            a.units_ok(),
            b.units@ == a.units@,
            b.vars@.len() == a.vars@.len(),
            forall|v: int|
                0 <= v < a.vars@.len() ==> (#[trigger] b.vars@[v]).unit == a.vars@[v].unit,
        ensures
            b.units_ok(),
    {
        assert forall|v: int|
            1 <= v <= b.num_vars_spec() && (#[trigger] b.vars@[v]).unit implies exists|j: int|
                0 <= j < b.units@.len() && b.units@[j] == v by {
            assert(a.vars@[v].unit);
            let j = choose|j: int| 0 <= j < a.units@.len() && a.units@[j] == v;
            assert(b.units@[j] == v);
        }
        assert forall|j: int|
            0 <= j < b.units@.len() implies 1 <= #[trigger] b.units@[j] <= b.num_vars_spec()
                && b.vars@[b.units@[j] as int].unit by {
            assert(1 <= a.units@[j] <= a.num_vars_spec());
            assert(a.vars@[a.units@[j] as int].unit);
        }
    }

    /// The goodvar bookkeeping carries over to a state with the same stack
    /// and the same per-variable flags, configuration bits and scores.
    pub proof fn lemma_good_ok_transfer(a: LocalSearch, b: LocalSearch)
        requires
            a.good_ok(),
            b.goodvar_stack@ == a.goodvar_stack@,
            b.vars@.len() == a.vars@.len(),
            forall|v: int|
                0 <= v < a.vars@.len() ==> (#[trigger] b.vars@[v]).in_goodvar_stack
                    == a.vars@[v].in_goodvar_stack && b.vars@[v].conf_change
                    == a.vars@[v].conf_change && b.vars@[v].score == a.vars@[v].score,
        ensures
            b.good_ok(),
    {
        assert forall|v: int|
            0 <= v < b.vars@.len() && (#[trigger] b.vars@[v]).in_goodvar_stack implies exists|
                j: int,
            |
                0 <= j < b.goodvar_stack@.len() && b.goodvar_stack@[j] == v by {
            assert(a.vars@[v].in_goodvar_stack);
            let j = choose|j: int|
                0 <= j < a.goodvar_stack@.len() && a.goodvar_stack@[j] == v;
            assert(b.goodvar_stack@[j] == v);
        }
        assert forall|j: int|
            0 <= j < b.goodvar_stack@.len() implies 1 <= #[trigger] b.goodvar_stack@[j]
                <= b.num_vars_spec() && b.vars@[b.goodvar_stack@[j] as int].in_goodvar_stack
                && b.vars@[b.goodvar_stack@[j] as int].conf_change
                && b.vars@[b.goodvar_stack@[j] as int].score > 0 by {
            assert(1 <= a.goodvar_stack@[j] <= a.num_vars_spec());
        }
    }

    /// The stack bookkeeping carries over to a state with the same stacks
    /// and the same slacks.
    pub proof fn lemma_stack_ok_transfer(a: LocalSearch, b: LocalSearch)
        requires
            a.stack_ok(),
            b.unsat_stack@ == a.unsat_stack@,
            b.index_in_unsat_stack@ == a.index_in_unsat_stack@,
            b.constraints@.len() == a.constraints@.len(),
            forall|cid: int|
                0 <= cid < a.ncons_spec() ==> (#[trigger] b.constraints@[cid]).slack
                    == a.constraints@[cid].slack,
        ensures
            b.stack_ok(),
    {
        assert forall|cid: int|
            0 <= cid < b.ncons_spec() && (#[trigger] b.constraints@[cid]).slack < 0 implies
            b.in_unsat_stack(cid) by {
            assert(a.constraints@[cid].slack < 0);
            assert(a.in_unsat_stack(cid));
        }
    }

    /// The whole invariant carries over to a state that differs only in
    /// fields the invariant does not read: the propagation queue, the
    /// model, the generator, the log, the statistics and the schedule
    /// counters.
    pub proof fn lemma_wf_frame(a: LocalSearch, b: LocalSearch)
        requires
            a.wf(),
            b.vars@ == a.vars@,
            b.constraints@ == a.constraints@,
            b.unsat_stack@ == a.unsat_stack@,
            b.index_in_unsat_stack@ == a.index_in_unsat_stack@,
            b.units@ == a.units@,
            b.goodvar_stack@ == a.goodvar_stack@,
            b.noise == a.noise,
            b.noise_delta_permille == a.noise_delta_permille,
        ensures
            b.wf(),
    {
        LocalSearch::lemma_wf_core_transfer(a, b);
        LocalSearch::lemma_stack_ok_transfer(a, b);
        LocalSearch::lemma_good_ok_transfer(a, b);
        assert forall|cid: int| 0 <= cid < b.ncons_spec() implies #[trigger] b.slack_ok_at(
            cid,
        ) by {
            assert(a.slack_ok_at(cid));
            assert(b.sol() =~= a.sol());
        }
    }

    /// Records a message, keeping the engine invariant: the log is not part
    /// of the searched state.
    fn log_note(&mut self, level: i32, msg: &'static str)
        requires
            old(self).wf(),
        ensures
            final(self).wf(),
            *final(self) == (LocalSearch { log: final(self).log, ..*old(self) }),
            final(self).log.messages@.len() >= old(self).log.messages@.len(),
            level >= old(self).log.verbosity ==> final(self).log.messages@.len() > old(self).log.messages@.len(),
    {
        self.log.log_at_level(level, msg);
        proof {
            LocalSearch::lemma_wf_frame(*old(self), *self);
        }
    }

    /// The invariant is exactly its four parts.
    pub proof fn lemma_wf_assemble(s: LocalSearch)
        requires
            s.wf_core(),
            forall|cid: int| 0 <= cid < s.ncons_spec() ==> #[trigger] s.slack_ok_at(cid),
            s.stack_ok(),
            s.good_ok(),
        ensures
            s.wf(),
    {
    }

    /// The constraint is the cardinality form of the clause `cl`: the
    /// negated literals, unit coefficients, and bound `k`.
    pub open spec fn clause_constraint_matches(con: Constraint, cl: Seq<Literal>, k: int) -> bool {
        &&& con.k == k
        &&& con.literals@.len() == cl.len()
        &&& con.coefficients@.len() == cl.len()
        &&& forall|j: int|
            0 <= j < cl.len() ==> con.literals@[j] == (#[trigger] cl[j]).negated_spec()
                && con.coefficients@[j] == 1
    }

    /// The cardinality form survives any change that keeps a constraint's
    /// shape, such as a slack update.
    pub proof fn lemma_matches_preserved(a: Constraint, b: Constraint, cl: Seq<Literal>, k: int)
        requires
            LocalSearch::clause_constraint_matches(a, cl, k),
            LocalSearch::same_constraint_shape(a, b),
        ensures
            LocalSearch::clause_constraint_matches(b, cl, k),
    {
    }

    /// Untouched bookkeeping composes.
    pub proof fn lemma_scores_untouched_trans(a: LocalSearch, b: LocalSearch, c: LocalSearch)
        requires
            LocalSearch::scores_untouched(a, b),
            LocalSearch::scores_untouched(b, c),
        ensures
            LocalSearch::scores_untouched(a, c),
    {
        assert forall|v: int|
            0 <= v < a.vars@.len() implies (#[trigger] c.vars@[v]).conf_change
            == a.vars@[v].conf_change && c.vars@[v].time_stamp == a.vars@[v].time_stamp
            && c.vars@[v].score == a.vars@[v].score && c.vars@[v].slack_score
            == a.vars@[v].slack_score && c.vars@[v].in_goodvar_stack == a.vars@[v].in_goodvar_stack
            && c.vars@[v].watch == a.vars@[v].watch && c.vars@[v].bin == a.vars@[v].bin by {
            assert(b.vars@[v].watch == a.vars@[v].watch);
        }
    }

    /// Unit preservation composes.
    pub proof fn lemma_units_preserved_trans(a: LocalSearch, b: LocalSearch, c: LocalSearch)
        requires
            LocalSearch::units_preserved(a, b),
            LocalSearch::units_preserved(b, c),
        ensures
            LocalSearch::units_preserved(a, c),
    {
        assert forall|v: int|
            0 <= v < a.vars@.len() && a.vars@[v].unit implies (#[trigger] c.vars@[v]).unit
                && c.sol()[v] == a.sol()[v] by {
            assert(b.vars@[v].unit);
        }
    }

    /// The assignment a model stands for: true exactly where the model says
    /// true.
    pub open spec fn model_bools(m: Seq<LiftedBool>) -> Seq<bool> {
        m.map(|i: int, lb: LiftedBool| lb == LiftedBool::True)
    }

    /// Prepares a `check` call: every assumption literal is added as a
    /// forced unit clause for the duration of the call, and the seed and
    /// step budget are taken from the configuration.
    fn init(&mut self)
        requires
            old(self).wf(),
            forall|i: int|
                0 <= i < old(self).assumptions@.len() ==> 1 <= (
                #[trigger] old(self).assumptions@[i]).var_spec(),
        ensures
            final(self).wf(),
            old(self).is_unsat ==> final(self).is_unsat,
            final(self).units@.len() >= old(self).units@.len(),
            forall|j: int|
                0 <= j < old(self).units@.len() ==> final(self).units@[j] == old(self).units@[j],
            LocalSearch::units_preserved(*old(self), *final(self)),
            forall|i: int|
                0 <= i < old(self).assumptions@.len() ==> 1 <= (
                #[trigger] old(self).assumptions@[i]).var_spec() <= final(self).num_vars_spec()
                    && final(self).vars@[old(self).assumptions@[i].var_spec()].unit,
            old(self).assumptions@.len() == 0 ==> final(self).stats == old(self).stats && final(self).units@ == old(self).units@ && final(self).is_unsat == old(self).is_unsat && final(self).constraints@ == old(self).constraints@ && final(self).ncons_spec() == old(self).ncons_spec(),
            final(self).limit == old(self).limit,
            final(self).num_non_binary_clauses == old(self).num_non_binary_clauses,
            final(self).config == old(self).config,
    {
        let ghost pre = *old(self);
        let ghost before_flag = *self;
        self.initializing = true;
        proof {
            LocalSearch::lemma_wf_frame(before_flag, *self);
        }
        let n = self.assumptions.len();
        let mut i: usize = 0;
        while i < n
            invariant
                pre == *old(self),
                self.wf(),
                n <= self.assumptions@.len(),
                n == pre.assumptions@.len(),
                self.assumptions@ == pre.assumptions@,
                forall|ii: int|
                    0 <= ii < pre.assumptions@.len() ==> 1 <= (
                    #[trigger] pre.assumptions@[ii]).var_spec(),
                i <= n,
                pre.is_unsat ==> self.is_unsat,
                self.units@.len() >= pre.units@.len(),
                forall|j: int|
                    0 <= j < pre.units@.len() ==> self.units@[j] == pre.units@[j],
                LocalSearch::units_preserved(pre, *self),
                self.vars@.len() >= pre.vars@.len(),
                forall|ii: int|
                    0 <= ii < i ==> 1 <= (#[trigger] pre.assumptions@[ii]).var_spec()
                        <= self.num_vars_spec() && self.vars@[pre.assumptions@[ii].var_spec()].unit,
                n == 0 ==> self.stats == pre.stats && self.units@ == pre.units@ && self.is_unsat
                    == pre.is_unsat && self.constraints@ == pre.constraints@ && self.ncons_spec()
                    == pre.ncons_spec(),
                self.limit == pre.limit,
                self.num_non_binary_clauses == pre.num_non_binary_clauses,
                self.config == pre.config,
            decreases n - i,
        {
            let ghost head = *self;
            let lit = self.assumptions[i];
            let mut single: LiteralVector = Vec::new();
            single.push(lit);
            self.add_clause(&single);
            proof {
                LocalSearch::lemma_units_preserved_trans(pre, head, *self);
                assert forall|ii: int|
                    0 <= ii < i + 1 implies 1 <= (#[trigger] pre.assumptions@[ii]).var_spec()
                    <= self.num_vars_spec() && self.vars@[pre.assumptions@[ii].var_spec()].unit
                    by {
                    if ii < i as int {
                        assert(head.vars@[pre.assumptions@[ii].var_spec()].unit);
                        assert(pre.assumptions@[ii].var_spec() < head.vars@.len());
                    } else {
                        assert(single@[0] == lit);
                    }
                }
            }
            i = i + 1;
        }
        let ghost head2 = *self;
        self.set_parameters();
        let ghost before_flag2 = *self;
        self.initializing = false;
        proof {
            LocalSearch::lemma_wf_frame(head2, before_flag2);
            LocalSearch::lemma_wf_frame(before_flag2, *self);
        }
    }

    /// The outer search loop: repeated tries of up to `max_steps` picks
    /// each, a fresh reinitialization at the start and every tenth try, a
    /// resource-limit check between tries, and best-round bookkeeping. It
    /// returns only when every constraint is satisfied, unsatisfiability
    /// was proven, the resource budget tripped, or the restart counter ran
    /// out.
    #[verifier::spinoff_prover]
    fn walksat(&mut self)
        requires
            old(self).wf(),
        ensures
            final(self).wf(),
            LocalSearch::units_preserved(*old(self), *final(self)),
            final(self).unsat_stack@.len() == 0 || final(self).is_unsat || !final(self).limit.not_canceled_spec() || final(self).stats.count_of_restarts == u64::MAX,
            final(self).ncons_spec() == old(self).ncons_spec(),
            old(self).units@.len() == 0 && old(self).limit.cancel > 0 && !old(self).limit.suspend
                ==> final(self).stats.count_of_flips == old(self).stats.count_of_flips,
            old(self).units@.len() == 0 && old(self).ncons_spec() == 0 ==> !final(self).is_unsat
                && final(self).unsat_stack@.len() == 0,
            forall|j: int|
                0 <= j < old(self).units@.len() ==> final(self).units@[j] == old(self).units@[j],
            final(self).units@.len() >= old(self).units@.len(),
    {
        let ghost pre = *old(self);
        let ghost before_rates = *self;
        self.best_unsat_rate = 1_000_000;
        self.last_best_unsat_rate = 1_000_000;
        proof {
            LocalSearch::lemma_wf_frame(before_rates, *self);
        }
        self.reinit();
        proof {
            if pre.ncons_spec() == 0 {
                if self.unsat_stack@.len() > 0 {
                    assert(self.unsat_stack@[0] < self.ncons_spec());
                }
            }
        }
        let mut tries: u64 = 0;
        while self.stats.count_of_restarts < u64::MAX
            invariant
                pre == *old(self),
                self.wf(),
                LocalSearch::units_preserved(pre, *self),
                forall|j: int|
                    0 <= j < pre.units@.len() ==> self.units@[j] == pre.units@[j],
                self.units@.len() >= pre.units@.len(),
                self.ncons_spec() == pre.ncons_spec(),
                pre.units@.len() == 0 && pre.limit.cancel > 0 && !pre.limit.suspend ==> (
                self.stats.count_of_flips == pre.stats.count_of_flips && self.limit.cancel > 0
                    && !self.limit.suspend),
                pre.units@.len() == 0 && pre.ncons_spec() == 0 ==> !self.is_unsat
                    && self.unsat_stack@.len() == 0,
            decreases u64::MAX - self.stats.count_of_restarts,
        {
            if self.unsat_stack.len() == 0 {
                return ;
            }
            if self.is_unsat {
                return ;
            }
            let ghost before_inc = *self;
            let within = self.limit.inc();
            proof {
                LocalSearch::lemma_wf_frame(before_inc, *self);
            }
            if !within {
                return ;
            }
            tries = if tries < u64::MAX {
                tries + 1
            } else {
                tries
            };
            let ghost head = *self;
            self.stats.count_of_restarts = self.stats.count_of_restarts + 1;
            proof {
                LocalSearch::lemma_wf_frame(head, *self);
            }
            let mut step: u32 = 0;
            while step < self.max_steps && self.unsat_stack.len() > 0 && !self.is_unsat
                invariant
                    pre == *old(self),
                    head.wf(),
                    self.wf(),
                    LocalSearch::units_preserved(pre, *self),
                    LocalSearch::units_preserved(head, *self),
                    forall|j: int|
                        0 <= j < pre.units@.len() ==> self.units@[j] == pre.units@[j],
                    self.units@.len() >= pre.units@.len(),
                    self.ncons_spec() == pre.ncons_spec(),
                    self.stats.count_of_restarts == head.stats.count_of_restarts + 1,
                    !(pre.units@.len() == 0 && pre.limit.cancel > 0 && !pre.limit.suspend),
                    !(pre.units@.len() == 0 && pre.ncons_spec() == 0),
                decreases self.max_steps - step,
            {
                let ghost sh = *self;
                self.pick_flip_walksat();
                if self.unsat_stack.len() < self.best_unsat {
                    let ghost bh = *self;
                    self.set_best_unsat();
                    self.last_best_unsat_rate = self.best_unsat_rate;
                    let ncons = self.num_constraints();
                    proof {
                        LocalSearch::lemma_wf_frame(bh, *self);
                    }
                    if ncons > 0 {
                        let rate = if self.unsat_stack.len() as u64 <= u64::MAX / 1_000_000 {
                            (self.unsat_stack.len() as u64) * 1_000_000 / (ncons as u64)
                        } else {
                            u64::MAX
                        };
                        let ghost rh = *self;
                        self.best_unsat_rate = rate;
                        proof {
                            LocalSearch::lemma_wf_frame(rh, *self);
                        }
                    }
                }
                proof {
                    LocalSearch::lemma_units_preserved_trans(pre, sh, *self);
                    LocalSearch::lemma_units_preserved_trans(head, sh, *self);
                }
                if self.is_unsat {
                    return ;
                }
                if step < u32::MAX {
                    step = step + 1;
                }
            }
            if tries % 10 == 0 && self.unsat_stack.len() > 0 {
                let ghost rh2 = *self;
                self.reinit();
                proof {
                    LocalSearch::lemma_units_preserved_trans(pre, rh2, *self);
                }
            }
        }
    }

    /// Runs the search under the given temporary assumptions. Returns
    /// `False` when forced units contradict each other (the one
    /// unsatisfiability this engine can prove), `True` with a model under
    /// which every constraint holds when all constraints were satisfied,
    /// and `Undefined` when the effort budget ran out first. The
    /// assumptions' units are removed again before returning.
    #[verifier::spinoff_prover]
    pub fn check(&mut self, assumptions: &LiteralVector) -> (r: LiftedBool)
        requires
            old(self).wf(),
            forall|i: int|
                0 <= i < assumptions@.len() ==> 1 <= (#[trigger] assumptions@[i]).var_spec(),
        ensures
            final(self).wf(),
            r == LiftedBool::False <==> final(self).is_unsat,
            r == LiftedBool::True <==> !final(self).is_unsat && final(self).unsat_stack@.len()
                == 0,
            r == LiftedBool::True ==> final(self).model@.len() == final(self).vars@.len() && (
            forall|cid: int|
                0 <= cid < final(self).ncons_spec() ==> (
                #[trigger] final(self).constraints@[cid]).value_spec(
                    LocalSearch::model_bools(final(self).model@),
                ) <= final(self).constraints@[cid].k),
            r == LiftedBool::True ==> final(self).model@[0] == LiftedBool::Undefined && (forall|
                v: int,
            |
                1 <= v < final(self).vars@.len() ==> final(self).model@[v] == (if final(self).sol()[v] {
                    LiftedBool::True
                } else {
                    LiftedBool::False
                })),
            old(self).is_unsat ==> r == LiftedBool::False,
            !old(self).is_unsat && old(self).ncons_spec() == 0 && old(self).units@.len() == 0
                && assumptions@.len() == 0 ==> r == LiftedBool::True,
            old(self).units@.len() == 0 && assumptions@.len() == 0 && old(self).limit.cancel > 0
                && !old(self).limit.suspend ==> final(self).stats.count_of_flips == old(self).stats.count_of_flips,
            final(self).units@ == old(self).units@,
    {
        let ghost pre = *old(self);
        self.model.clear();
        let num_units = self.units.len();
        self.assumptions.clear();
        let mut ai: usize = 0;
        proof {
            LocalSearch::lemma_wf_frame(pre, *self);
        }
        while ai < assumptions.len()
            invariant
                pre == *old(self),
                self.wf(),
                self.units@.len() == pre.units@.len(),
                num_units == pre.units@.len(),
                ai <= assumptions@.len(),
                self.assumptions@ == assumptions@.take(ai as int),
                forall|i: int|
                    0 <= i < assumptions@.len() ==> 1 <= (#[trigger] assumptions@[i]).var_spec(),
                *self == (LocalSearch {
                    model: self.model,
                    assumptions: self.assumptions,
                    ..pre
                }),
            decreases assumptions@.len() - ai,
        {
            let ghost head = *self;
            let l = assumptions[ai];
            self.assumptions.push(l);
            proof {
                LocalSearch::lemma_wf_frame(head, *self);
                assert(self.assumptions@ =~= assumptions@.take(ai + 1));
            }
            ai = ai + 1;
        }
        proof {
            assert(self.assumptions@ =~= assumptions@);
        }
        let ghost copied = *self;
        self.init();
        let ghost after_init = *self;
        if !self.is_unsat {
            self.walksat();
        }
        proof {
            if pre.units@.len() == 0 && assumptions@.len() == 0 {
                assert(after_init.units@ == pre.units@);
                assert(after_init.stats == pre.stats);
            }
            if !pre.is_unsat && pre.ncons_spec() == 0 && pre.units@.len() == 0
                && assumptions@.len() == 0 {
                assert(!after_init.is_unsat);
                assert(after_init.ncons_spec() == 0);
            }
        }
        // remove the units added for this call's assumptions and search
        let total = self.units.len();
        let ghost mid = *self;
        let mut i: usize = num_units;
        if num_units < total {
            while i < total
                invariant
                    mid.wf(),
                    num_units <= i <= total,
                    total == mid.units@.len(),
                    num_units <= total,
                    self.units@ == mid.units@,
                    self.vars@.len() == mid.vars@.len(),
                    forall|vv: int|
                        0 <= vv < mid.vars@.len() ==> (#[trigger] self.vars@[vv]) == (VariableInfo {
                            unit: self.vars@[vv].unit,
                            ..mid.vars@[vv]
                        }),
                    forall|j: int|
                        num_units <= j < i ==> !self.vars@[mid.units@[j] as int].unit,
                    forall|vv: int|
                        0 <= vv < mid.vars@.len() && (#[trigger] self.vars@[vv]).unit
                            ==> mid.vars@[vv].unit,
                    forall|vv: int|
                        0 <= vv < mid.vars@.len() && mid.vars@[vv].unit && (forall|j: int|
                            num_units <= j < i ==> mid.units@[j] != vv) ==> (
                        #[trigger] self.vars@[vv]).unit,
                    *self == (LocalSearch { vars: self.vars, ..mid }),
                decreases total - i,
            {
                let u = self.units[i];
                proof {
                    assert(mid.units@[i as int] == u);
                    assert(1 <= u <= mid.num_vars_spec());
                }
                self.vars[u].unit = false;
                i = i + 1;
            }
        }
        self.units.truncate(num_units);
        proof {
            if num_units < total {
                assert(self.units@ == mid.units@.subrange(0, num_units as int));
            } else {
                assert(self.units@ =~= mid.units@);
            }
            assert forall|j: int| 0 <= j < num_units implies self.units@[j] == pre.units@[j] by {
                assert(mid.units@[j] == after_init.units@[j]);
                assert(after_init.units@[j] == copied.units@[j]);
            }
            assert(self.units@ =~= pre.units@);
            assert forall|v: int| 0 <= v < self.vars@.len() implies #[trigger] self.entries_ok(
                v,
            ) by {
                assert(mid.entries_ok(v));
            }
            assert forall|v: int, cid: int|
                0 <= v < self.vars@.len() && 0 <= cid < self.ncons_spec() implies #[trigger] self.watch_ok(
                v,
                cid,
            ) by {
                assert(mid.watch_ok(v, cid));
            }
            assert forall|cid: int| 0 <= cid < self.ncons_spec() implies #[trigger] self.con_ok(
                cid,
            ) by {
                assert(mid.con_ok(cid));
            }
            assert forall|cid: int| 0 <= cid < self.ncons_spec() implies #[trigger] self.slack_ok_at(
                cid,
            ) by {
                assert(mid.slack_ok_at(cid));
                assert(self.sol() =~= mid.sol());
            }
            LocalSearch::lemma_stack_ok_transfer(mid, *self);
            LocalSearch::lemma_good_ok_transfer(mid, *self);
            assert forall|j: int|
                0 <= j < self.units@.len() implies 1 <= #[trigger] self.units@[j]
                    <= self.num_vars_spec() && self.vars@[self.units@[j] as int].unit by {
                assert(mid.units@[j] == self.units@[j]);
                assert(1 <= mid.units@[j] <= mid.num_vars_spec());
                assert(mid.vars@[mid.units@[j] as int].unit);
                assert forall|j2: int| num_units <= j2 < total implies mid.units@[j2]
                    != self.units@[j] by {
                    if mid.units@[j2] == self.units@[j] {
                        assert(mid.units@[j2] == mid.units@[j]);
                    }
                }
            }
            assert forall|v: int|
                1 <= v <= self.num_vars_spec() && (#[trigger] self.vars@[v]).unit implies exists|
                    j: int,
                |
                    0 <= j < self.units@.len() && self.units@[j] == v by {
                assert(mid.vars@[v].unit);
                let j = choose|j: int| 0 <= j < mid.units@.len() && mid.units@[j] == v;
                if j >= num_units {
                    assert(!self.vars@[mid.units@[j] as int].unit);
                }
                assert(self.units@[j] == v);
            }
            assert forall|j1: int, j2: int|
                #![trigger self.units@[j1], self.units@[j2]]
                0 <= j1 < j2 < self.units@.len() implies self.units@[j1] != self.units@[j2] by {
                assert(mid.units@[j1] == self.units@[j1]);
                assert(mid.units@[j2] == self.units@[j2]);
            }
            assert(self.units_ok());
            assert(self.wf_core());
            LocalSearch::lemma_wf_assemble(*self);
        }
        let result = if self.is_unsat {
            LiftedBool::False
        } else if self.unsat_stack.len() == 0 {
            let ghost before_model = *self;
            self.extract_model();
            proof {
                LocalSearch::lemma_wf_frame(before_model, *self);
                assert forall|cid: int| 0 <= cid < self.ncons_spec() implies (
                #[trigger] self.constraints@[cid]).value_spec(
                    LocalSearch::model_bools(self.model@),
                ) <= self.constraints@[cid].k by {
                    assert(self.slack_ok_at(cid));
                    let c = self.constraints@[cid];
                    if c.slack < 0 {
                        assert(self.in_unsat_stack(cid));
                    }
                    assert(c.slack >= 0);
                    assert(self.con_ok(cid));
                    assert forall|ii: int|
                        0 <= ii < c.literals@.len() implies self.sol()[(
                        #[trigger] c.literals@[ii]).var_spec()] == LocalSearch::model_bools(
                            self.model@,
                        )[c.literals@[ii].var_spec()] by {
                        assert(c.shape_ok(self.num_vars_spec()));
                    }
                    super::constraint::lemma_value_congruent(
                        c.literals@,
                        c.coefficients@,
                        self.sol(),
                        LocalSearch::model_bools(self.model@),
                        c.literals@.len() as int,
                    );
                }
            }
            LiftedBool::True
        } else {
            LiftedBool::Undefined
        };
        result
    }

    /// Reseeds the generator for the next `check`.
    pub fn set_seed(&mut self, n: u32)
        requires
            old(self).wf(),
        ensures
            final(self).wf(),
            final(self).config.random_seed == n,
            *final(self) == (LocalSearch { config: final(self).config, ..*old(self) }),
    {
        self.config.set_random_seed(n);
        proof {
            LocalSearch::lemma_wf_frame(*old(self), *self);
        }
    }

    /// Nudges a variable's sticky-phase bias toward the given phase.
    pub fn set_phase(&mut self, v: BoolVariable, f: bool)
        requires
            old(self).wf(),
            v < old(self).vars@.len(),
        ensures
            final(self).wf(),
            f && old(self).vars@[v as int].bias < 100 ==> final(self).vars@[v as int].bias == old(self).vars@[v as int].bias + 1,
            !f && old(self).vars@[v as int].bias > 0 ==> final(self).vars@[v as int].bias == old(self).vars@[v as int].bias - 1,
            final(self).vars@.len() == old(self).vars@.len(),
            forall|i: int|
                0 <= i < old(self).vars@.len() ==> (#[trigger] final(self).vars@[i])
                    == (VariableInfo { bias: final(self).vars@[i].bias, ..old(self).vars@[i] }),
            *final(self) == (LocalSearch { vars: final(self).vars, ..*old(self) }),
    {
        let b = self.vars[v].bias;
        if f && b < 100 {
            self.vars[v].bias = b + 1;
        }
        if !f && b > 0 {
            self.vars[v].bias = b - 1;
        }
        proof {
            LocalSearch::lemma_wf_core_transfer(*old(self), *self);
            assert forall|cid: int| 0 <= cid < self.ncons_spec() implies #[trigger] self.slack_ok_at(
                cid,
            ) by {
                assert(old(self).slack_ok_at(cid));
                assert(self.sol() =~= old(self).sol());
            }
            LocalSearch::lemma_stack_ok_transfer(*old(self), *self);
            LocalSearch::lemma_good_ok_transfer(*old(self), *self);
            LocalSearch::lemma_wf_assemble(*self);
        }
    }

    /// Sets a variable's bias almost fully toward a known value.
    pub fn set_bias(&mut self, v: BoolVariable, f: LiftedBool)
        requires
            old(self).wf(),
            v < old(self).vars@.len(),
        ensures
            final(self).wf(),
            f == LiftedBool::True ==> final(self).vars@[v as int].bias == 99,
            f == LiftedBool::False ==> final(self).vars@[v as int].bias == 1,
            f == LiftedBool::Undefined ==> final(self).vars@[v as int].bias == old(self).vars@[v as int].bias,
    {
        match f {
            LiftedBool::True => {
                self.vars[v].bias = 99;
            },
            LiftedBool::False => {
                self.vars[v].bias = 1;
            },
            LiftedBool::Undefined => {},
        }
        proof {
            LocalSearch::lemma_wf_core_transfer(*old(self), *self);
            assert forall|cid: int| 0 <= cid < self.ncons_spec() implies #[trigger] self.slack_ok_at(
                cid,
            ) by {
                assert(old(self).slack_ok_at(cid));
                assert(self.sol() =~= old(self).sol());
            }
            LocalSearch::lemma_stack_ok_transfer(*old(self), *self);
            LocalSearch::lemma_good_ok_transfer(*old(self), *self);
            LocalSearch::lemma_wf_assemble(*self);
        }
    }

    /// The best round's value of a variable.
    pub fn get_best_phase(&self, v: BoolVariable) -> (r: bool)
        requires
            v < self.best_phase@.len(),
        ensures
            r == self.best_phase@[v as int],
    {
        self.best_phase[v]
    }

    /// The engine's resource limit.
    pub fn rlimit(&self) -> (r: &ResourceLimit)
        ensures
            r == &self.limit,
    {
        &self.limit
    }

    /// Replaces the engine's resource limit; the caller uses this to share
    /// a budget or to cancel the search cooperatively.
    pub fn set_limit(&mut self, limit: ResourceLimit)
        requires
            old(self).wf(),
        ensures
            final(self).wf(),
            final(self).limit == limit,
            *final(self) == (LocalSearch { limit: final(self).limit, ..*old(self) }),
    {
        self.limit = limit;
        proof {
            LocalSearch::lemma_wf_frame(*old(self), *self);
        }
    }

    /// The model of the last successful `check`.
    pub fn get_model(&self) -> (r: &Model)
        ensures
            r == &self.model,
    {
        &self.model
    }

    /// The counters collected so far.
    pub fn collect_statistics(&self) -> (r: LocalSearchStatistics)
        ensures
            r == self.stats,
    {
        self.stats
    }

    /// Parameter updates outside the configuration snapshot: nothing to do.
    pub fn update_params(&self)
    {
    }

    pub fn num_non_binary_clauses(&self) -> (r: usize)
        ensures
            r == self.num_non_binary_clauses,
    {
        self.num_non_binary_clauses
    }

    pub fn config(&self) -> (r: &LocalSearchConfig)
        ensures
            r == &self.config,
    {
        &self.config
    }

    /// The weighted count of a constraint's true literals, recomputed from
    /// scratch: the reference value the incrementally maintained slack is
    /// held against.
    pub fn constraint_value(&self, ci: usize) -> (r: i128)
        requires
            self.wf(),
            ci < self.ncons_spec(),
        ensures
            r == self.constraints@[ci as int].value_spec(self.sol()),
    {
        proof {
            assert(self.con_ok(ci as int));
            assert(self.constraints@[ci as int].shape_ok(self.num_vars_spec()));
        }
        let m = self.constraints[ci].literals.len();
        let ghost lits = self.constraints@[ci as int].literals@;
        let ghost coeffs = self.constraints@[ci as int].coefficients@;
        let mut value: i128 = 0;
        let mut i: usize = 0;
        while i < m
            invariant
                self.wf(),
                ci < self.ncons_spec(),
                i <= m,
                m == lits.len(),
                lits == self.constraints@[ci as int].literals@,
                coeffs == self.constraints@[ci as int].coefficients@,
                lits.len() == coeffs.len(),
                value == value_upto(lits, coeffs, self.sol(), i as int),
                0 <= value <= total_upto(coeffs, i as int),
                total_upto(coeffs, m as int) <= 0x1_0000_0000_0000_0000_0000_0000,
                forall|ii: int|
                    0 <= ii < lits.len() ==> 1 <= (#[trigger] lits[ii]).var_spec()
                        <= self.num_vars_spec(),
            decreases m - i,
        {
            let l = self.constraints[ci].literals[i];
            let coeff = self.constraints[ci].coefficients[i];
            proof {
                lemma_value_bounds(lits, coeffs, self.sol(), i as int);
                super::constraint::lemma_total_mono(coeffs, i + 1, m as int);
            }
            if self.is_true_literal(l) {
                value = value + coeff as i128;
            }
            i = i + 1;
        }
        value
    }

    /// Checks every constraint against the current assignment from
    /// scratch: true exactly when the assignment satisfies them all.
    pub fn verify_solution(&self) -> (r: bool)
        requires
            self.wf(),
        ensures
            r == (forall|cid: int|
                0 <= cid < self.ncons_spec() ==> (#[trigger] self.constraints@[cid]).value_spec(
                    self.sol(),
                ) <= self.constraints@[cid].k),
    {
        let ncons = self.constraints.len();
        let mut ci: usize = 0;
        while ci < ncons
            invariant
                self.wf(),
                ncons == self.ncons_spec(),
                ci <= ncons,
                forall|cid: int|
                    0 <= cid < ci ==> (#[trigger] self.constraints@[cid]).value_spec(self.sol())
                        <= self.constraints@[cid].k,
            decreases ncons - ci,
        {
            let value = self.constraint_value(ci);
            if value > self.constraints[ci].k as i128 {
                return false;
            }
            ci = ci + 1;
        }
        true
    }

    /// The slack invariant: at every observable point each constraint's
    /// slack is its bound minus the weighted count of its true literals.
    pub proof fn lemma_slack_invariant(s: LocalSearch, cid: int)
        requires
            s.wf(),
            0 <= cid < s.ncons_spec(),
        ensures
            s.constraints@[cid].slack == s.constraints@[cid].k - s.constraints@[cid].value_spec(
                s.sol(),
            ),
    {
        assert(s.slack_ok_at(cid));
    }

    /// The unsat-stack invariant: a constraint sits in the unsat stack
    /// exactly when its slack is negative.
    pub proof fn lemma_unsat_stack_invariant(s: LocalSearch, cid: int)
        requires
            s.wf(),
            0 <= cid < s.ncons_spec(),
        ensures
            s.in_unsat_stack(cid) <==> s.constraints@[cid].slack < 0,
    {
        if s.in_unsat_stack(cid) {
            let j = s.index_in_unsat_stack@[cid] as int;
            assert(s.constraints@[s.unsat_stack@[j] as int].slack < 0);
        }
    }

    /// The goodvar-stack invariant: a variable is on the goodvar stack
    /// exactly when its configuration changed and its score is positive.
    pub proof fn lemma_goodvar_stack_invariant(s: LocalSearch, v: int)
        requires
            s.wf(),
            1 <= v <= s.num_vars_spec(),
        ensures
            (exists|j: int| 0 <= j < s.goodvar_stack@.len() && s.goodvar_stack@[j] == v) <==> (
            s.vars@[v].conf_change && s.vars@[v].score > 0),
    {
        if exists|j: int| 0 <= j < s.goodvar_stack@.len() && s.goodvar_stack@[j] == v {
            let j = choose|j: int| 0 <= j < s.goodvar_stack@.len() && s.goodvar_stack@[j] == v;
            assert(s.vars@[s.goodvar_stack@[j] as int].conf_change);
        }
        if s.vars@[v].conf_change && s.vars@[v].score > 0 {
            assert(s.vars@[v].in_goodvar_stack);
        }
    }

    /// Flip involution: flipping the same variable twice restores the
    /// prior assignment, every slack, and every score.
    pub proof fn lemma_flip_involution(s0: LocalSearch, s1: LocalSearch, s2: LocalSearch, v: int)
        requires
            s0.wf(),
            1 <= v <= s0.num_vars_spec(),
            LocalSearch::flip_rel(s0, s1, v),
            LocalSearch::flip_rel(s1, s2, v),
        ensures
            s2.sol() == s0.sol(),
            forall|cid: int|
                0 <= cid < s0.ncons_spec() ==> (#[trigger] s2.constraints@[cid]).slack
                    == s0.constraints@[cid].slack,
            forall|i: int|
                0 <= i < s0.vars@.len() ==> (#[trigger] s2.vars@[i]).score == s0.vars@[i].score
                    && s2.vars@[i].slack_score == s0.vars@[i].slack_score,
    {
        assert(s2.sol() =~= s0.sol());
        assert forall|cid: int|
            0 <= cid < s0.ncons_spec() implies (#[trigger] s2.constraints@[cid]).slack
            == s0.constraints@[cid].slack by {
            assert(s0.slack_ok_at(cid));
            assert(s2.slack_ok_at(cid));
            assert(LocalSearch::same_constraint_shape(s0.constraints@[cid], s1.constraints@[cid]));
            assert(LocalSearch::same_constraint_shape(s1.constraints@[cid], s2.constraints@[cid]));
            assert(s2.constraints@[cid].value_spec(s2.sol()) == s0.constraints@[cid].value_spec(
                s0.sol(),
            ));
        }
        assert forall|i: int|
            0 <= i < s0.vars@.len() implies (#[trigger] s2.vars@[i]).score == s0.vars@[i].score
            && s2.vars@[i].slack_score == s0.vars@[i].slack_score by {
            assert(LocalSearch::var_preserved(s0.vars@[i], s1.vars@[i], i == v));
            assert(LocalSearch::var_preserved(s1.vars@[i], s2.vars@[i], i == v));
        }
    }

    /// Clears the engine and copies the clause database: unit, binary and
    /// general clauses, and — when the theory extension is purely
    /// pseudo-Boolean — its extracted cardinality and weighted constraints.
    /// Import fails with `IncompleteExtension` when an extension holds
    /// anything beyond pseudo-Boolean constraints: local search refuses to
    /// run rather than silently mis-answer. When `init` is set, the engine
    /// is also prepared for an immediate search.
    #[verifier::spinoff_prover]
    pub fn import(&mut self, s: &ClauseDatabase, init: bool) -> (r: Result<(), Error>)
        requires
            old(self).wf(),
            s.wf_db(),
        ensures
            final(self).wf(),
            r is Err <==> s.has_extension && !s.extension_is_pb,
            final(self).num_non_binary_clauses == s.clauses@.len(),
            final(self).config.random_seed == s.config.random_seed,
            forall|i: int|
                0 <= i < s.units@.len() ==> 1 <= (#[trigger] s.units@[i]).var_spec() <= final(self).num_vars_spec() && final(self).vars@[s.units@[i].var_spec()].unit,
            final(self).ncons_spec() >= s.binary_clauses@.len() + s.clauses@.len(),
            !s.has_extension ==> final(self).ncons_spec() == s.binary_clauses@.len()
                + s.clauses@.len(),
            forall|i: int|
                0 <= i < s.binary_clauses@.len() ==> LocalSearch::clause_constraint_matches(
                    #[trigger] final(self).constraints@[i],
                    seq![s.binary_clauses@[i].0, s.binary_clauses@[i].1],
                    1,
                ),
            forall|i: int|
                0 <= i < s.clauses@.len() ==> LocalSearch::clause_constraint_matches(
                    #[trigger] final(self).constraints@[s.binary_clauses@.len() + i],
                    s.clauses@[i]@,
                    s.clauses@[i]@.len() - 1,
                ),
    {
        let ghost at0 = *self;
        self.initializing = true;
        self.is_pb = false;
        let mut fresh_vars: Vec<VariableInfo> = Vec::new();
        fresh_vars.push(VariableInfo::default());
        self.vars = fresh_vars;
        self.constraints = Vec::new();
        self.units = Vec::new();
        self.unsat_stack = Vec::new();
        self.index_in_unsat_stack = Vec::new();
        self.goodvar_stack = Vec::new();
        self.assumptions = Vec::new();
        self.is_unsat = false;
        self.config.set_config(&s.config);
        self.num_non_binary_clauses = s.clauses.len();
        proof {
            assert(self.wf_core());
            assert(self.wf());
        }
        // units become single-literal clauses, binaries two-literal ones
        let nu = s.units.len();
        let mut i: usize = 0;
        while i < nu
            invariant
                self.wf(),
                s.wf_db(),
                nu == s.units@.len(),
                i <= nu,
                self.num_non_binary_clauses == s.clauses@.len(),
                self.config.random_seed == s.config.random_seed,
                self.assumptions@.len() == 0,
                self.ncons_spec() == 0,
                forall|ii: int|
                    0 <= ii < i ==> 1 <= (#[trigger] s.units@[ii]).var_spec()
                        <= self.num_vars_spec() && self.vars@[s.units@[ii].var_spec()].unit,
            decreases nu - i,
        {
            let ghost head = *self;
            let mut single: LiteralVector = Vec::new();
            single.push(s.units[i]);
            self.add_clause(&single);
            proof {
                assert forall|ii: int|
                    0 <= ii < i + 1 implies 1 <= (#[trigger] s.units@[ii]).var_spec()
                    <= self.num_vars_spec() && self.vars@[s.units@[ii].var_spec()].unit by {
                    if ii < i as int {
                        assert(head.vars@[s.units@[ii].var_spec()].unit);
                        assert(s.units@[ii].var_spec() < head.vars@.len());
                    } else {
                        assert(single@[0] == s.units@[ii]);
                    }
                }
            }
            i = i + 1;
        }
        let ghost after_units = *self;
        let nb = s.binary_clauses.len();
        let mut i: usize = 0;
        while i < nb
            invariant
                self.wf(),
                s.wf_db(),
                nb == s.binary_clauses@.len(),
                i <= nb,
                self.num_non_binary_clauses == s.clauses@.len(),
                self.config.random_seed == s.config.random_seed,
                self.assumptions@.len() == 0,
                self.ncons_spec() == i,
                forall|ii: int|
                    0 <= ii < nu ==> 1 <= (#[trigger] s.units@[ii]).var_spec()
                        <= self.num_vars_spec() && self.vars@[s.units@[ii].var_spec()].unit,
                forall|ii: int|
                    0 <= ii < i ==> LocalSearch::clause_constraint_matches(
                        #[trigger] self.constraints@[ii],
                        seq![s.binary_clauses@[ii].0, s.binary_clauses@[ii].1],
                        1,
                    ),
            decreases nb - i,
        {
            let ghost head = *self;
            let mut pair: LiteralVector = Vec::new();
            pair.push(s.binary_clauses[i].0);
            pair.push(s.binary_clauses[i].1);
            self.add_clause(&pair);
            proof {
                assert(pair@.len() == 2);
                assert(pair@[0] == s.binary_clauses@[i as int].0);
                assert(pair@[1] == s.binary_clauses@[i as int].1);
                assert forall|ii: int|
                    0 <= ii < nu implies 1 <= (#[trigger] s.units@[ii]).var_spec()
                    <= self.num_vars_spec() && self.vars@[s.units@[ii].var_spec()].unit by {
                    assert(head.vars@[s.units@[ii].var_spec()].unit);
                    assert(s.units@[ii].var_spec() < head.vars@.len());
                }
                assert forall|ii: int|
                    0 <= ii < i + 1 implies LocalSearch::clause_constraint_matches(
                    #[trigger] self.constraints@[ii],
                    seq![s.binary_clauses@[ii].0, s.binary_clauses@[ii].1],
                    1,
                ) by {
                    let cl = seq![s.binary_clauses@[ii].0, s.binary_clauses@[ii].1];
                    assert(cl.len() == 2);
                    assert(cl[0] == s.binary_clauses@[ii].0);
                    assert(cl[1] == s.binary_clauses@[ii].1);
                    if ii < i as int {
                        LocalSearch::lemma_matches_preserved(
                            head.constraints@[ii],
                            self.constraints@[ii],
                            cl,
                            1,
                        );
                    } else {
                        assert(self.con_ok(ii));
                        assert(self.constraints@[ii].literals@[0] == pair@[0].negated_spec());
                        assert(self.constraints@[ii].literals@[1] == pair@[1].negated_spec());
                    }
                }
            }
            i = i + 1;
        }
        let nc = s.clauses.len();
        let mut i: usize = 0;
        while i < nc
            invariant
                self.wf(),
                s.wf_db(),
                nu == s.units@.len(),
                nb == s.binary_clauses@.len(),
                nc == s.clauses@.len(),
                i <= nc,
                self.num_non_binary_clauses == s.clauses@.len(),
                self.config.random_seed == s.config.random_seed,
                self.assumptions@.len() == 0,
                self.ncons_spec() == nb + i,
                forall|ii: int|
                    0 <= ii < nu ==> 1 <= (#[trigger] s.units@[ii]).var_spec()
                        <= self.num_vars_spec() && self.vars@[s.units@[ii].var_spec()].unit,
                forall|ii: int|
                    0 <= ii < nb ==> LocalSearch::clause_constraint_matches(
                        #[trigger] self.constraints@[ii],
                        seq![s.binary_clauses@[ii].0, s.binary_clauses@[ii].1],
                        1,
                    ),
                forall|ii: int|
                    0 <= ii < i ==> LocalSearch::clause_constraint_matches(
                        #[trigger] self.constraints@[nb + ii],
                        s.clauses@[ii]@,
                        s.clauses@[ii]@.len() - 1,
                    ),
            decreases nc - i,
        {
            let ghost head = *self;
            self.add_clause(&s.clauses[i]);
            proof {
                assert forall|ii: int|
                    0 <= ii < nu implies 1 <= (#[trigger] s.units@[ii]).var_spec()
                    <= self.num_vars_spec() && self.vars@[s.units@[ii].var_spec()].unit by {
                    assert(head.vars@[s.units@[ii].var_spec()].unit);
                    assert(s.units@[ii].var_spec() < head.vars@.len());
                }
                assert forall|ii: int|
                    0 <= ii < nb implies LocalSearch::clause_constraint_matches(
                    #[trigger] self.constraints@[ii],
                    seq![s.binary_clauses@[ii].0, s.binary_clauses@[ii].1],
                    1,
                ) by {
                    LocalSearch::lemma_matches_preserved(
                        head.constraints@[ii],
                        self.constraints@[ii],
                        seq![s.binary_clauses@[ii].0, s.binary_clauses@[ii].1],
                        1,
                    );
                }
                assert forall|ii: int|
                    0 <= ii < i + 1 implies LocalSearch::clause_constraint_matches(
                    #[trigger] self.constraints@[nb + ii],
                    s.clauses@[ii]@,
                    s.clauses@[ii]@.len() - 1,
                ) by {
                    if ii < i as int {
                        LocalSearch::lemma_matches_preserved(
                            head.constraints@[nb + ii],
                            self.constraints@[nb + ii],
                            s.clauses@[ii]@,
                            s.clauses@[ii]@.len() - 1,
                        );
                    } else {
                        assert(self.con_ok(nb + ii));
                        assert(s.clauses@[ii]@.len() >= 2);
                    }
                }
            }
            i = i + 1;
        }
        if s.has_extension {
            if !s.extension_is_pb {
                let ghost bf = *self;
                self.initializing = false;
                proof {
                    LocalSearch::lemma_wf_frame(bf, *self);
                }
                return Err(Error::IncompleteExtension);
            }
            let ncard = s.cardinalities.len();
            let mut i: usize = 0;
            while i < ncard
                invariant
                    self.wf(),
                    s.wf_db(),
                    nu == s.units@.len(),
                    nb == s.binary_clauses@.len(),
                    nc == s.clauses@.len(),
                    ncard == s.cardinalities@.len(),
                    i <= ncard,
                    self.num_non_binary_clauses == s.clauses@.len(),
                    self.config.random_seed == s.config.random_seed,
                    self.assumptions@.len() == 0,
                    self.ncons_spec() >= nb + nc,
                    forall|ii: int|
                    0 <= ii < nu ==> 1 <= (#[trigger] s.units@[ii]).var_spec()
                        <= self.num_vars_spec() && self.vars@[s.units@[ii].var_spec()].unit,
                    forall|ii: int|
                    0 <= ii < nb ==> LocalSearch::clause_constraint_matches(
                        #[trigger] self.constraints@[ii],
                        seq![s.binary_clauses@[ii].0, s.binary_clauses@[ii].1],
                        1,
                    ),
                    forall|ii: int|
                    0 <= ii < nc ==> LocalSearch::clause_constraint_matches(
                        #[trigger] self.constraints@[nb + ii],
                        s.clauses@[ii]@,
                        s.clauses@[ii]@.len() - 1,
                    ),
                decreases ncard - i,
            {
                let ghost head = *self;
                self.add_cardinality(&s.cardinalities[i].0, s.cardinalities[i].1);
                proof {
                    assert forall|ii: int|
                        0 <= ii < nu implies 1 <= (#[trigger] s.units@[ii]).var_spec()
                        <= self.num_vars_spec() && self.vars@[s.units@[ii].var_spec()].unit by {
                        assert(head.vars@[s.units@[ii].var_spec()].unit);
                        assert(s.units@[ii].var_spec() < head.vars@.len());
                    }
                assert forall|ii: int|
                    0 <= ii < nb implies LocalSearch::clause_constraint_matches(
                    #[trigger] self.constraints@[ii],
                    seq![s.binary_clauses@[ii].0, s.binary_clauses@[ii].1],
                    1,
                ) by {
                    LocalSearch::lemma_matches_preserved(
                        head.constraints@[ii],
                        self.constraints@[ii],
                        seq![s.binary_clauses@[ii].0, s.binary_clauses@[ii].1],
                        1,
                    );
                }
                assert forall|ii: int|
                    0 <= ii < nc implies LocalSearch::clause_constraint_matches(
                    #[trigger] self.constraints@[nb + ii],
                    s.clauses@[ii]@,
                    s.clauses@[ii]@.len() - 1,
                ) by {
                    LocalSearch::lemma_matches_preserved(
                        head.constraints@[nb + ii],
                        self.constraints@[nb + ii],
                        s.clauses@[ii]@,
                        s.clauses@[ii]@.len() - 1,
                    );
                }
                }
                i = i + 1;
            }
            let npb = s.pbs.len();
            let mut i: usize = 0;
            while i < npb
                invariant
                    self.wf(),
                    s.wf_db(),
                    nu == s.units@.len(),
                    nb == s.binary_clauses@.len(),
                    nc == s.clauses@.len(),
                    npb == s.pbs@.len(),
                    i <= npb,
                    self.num_non_binary_clauses == s.clauses@.len(),
                    self.config.random_seed == s.config.random_seed,
                    self.assumptions@.len() == 0,
                    self.ncons_spec() >= nb + nc,
                    forall|ii: int|
                    0 <= ii < nu ==> 1 <= (#[trigger] s.units@[ii]).var_spec()
                        <= self.num_vars_spec() && self.vars@[s.units@[ii].var_spec()].unit,
                    forall|ii: int|
                    0 <= ii < nb ==> LocalSearch::clause_constraint_matches(
                        #[trigger] self.constraints@[ii],
                        seq![s.binary_clauses@[ii].0, s.binary_clauses@[ii].1],
                        1,
                    ),
                    forall|ii: int|
                    0 <= ii < nc ==> LocalSearch::clause_constraint_matches(
                        #[trigger] self.constraints@[nb + ii],
                        s.clauses@[ii]@,
                        s.clauses@[ii]@.len() - 1,
                    ),
                decreases npb - i,
            {
                let ghost head = *self;
                self.add_pb(&s.pbs[i].0, &s.pbs[i].1, s.pbs[i].2);
                proof {
                    assert forall|ii: int|
                        0 <= ii < nu implies 1 <= (#[trigger] s.units@[ii]).var_spec()
                        <= self.num_vars_spec() && self.vars@[s.units@[ii].var_spec()].unit by {
                        assert(head.vars@[s.units@[ii].var_spec()].unit);
                        assert(s.units@[ii].var_spec() < head.vars@.len());
                    }
                assert forall|ii: int|
                    0 <= ii < nb implies LocalSearch::clause_constraint_matches(
                    #[trigger] self.constraints@[ii],
                    seq![s.binary_clauses@[ii].0, s.binary_clauses@[ii].1],
                    1,
                ) by {
                    LocalSearch::lemma_matches_preserved(
                        head.constraints@[ii],
                        self.constraints@[ii],
                        seq![s.binary_clauses@[ii].0, s.binary_clauses@[ii].1],
                        1,
                    );
                }
                assert forall|ii: int|
                    0 <= ii < nc implies LocalSearch::clause_constraint_matches(
                    #[trigger] self.constraints@[nb + ii],
                    s.clauses@[ii]@,
                    s.clauses@[ii]@.len() - 1,
                ) by {
                    LocalSearch::lemma_matches_preserved(
                        head.constraints@[nb + ii],
                        self.constraints@[nb + ii],
                        s.clauses@[ii]@,
                        s.clauses@[ii]@.len() - 1,
                    );
                }
                }
                i = i + 1;
            }
        }
        // sticky phases bias variables toward the solver's saved phase
        if self.config.phase_sticky() {
            let nv = self.vars.len();
            let np = s.phases.len();
            let mut v: usize = 1;
            while v < nv
                invariant
                    self.wf(),
                    s.wf_db(),
                    1 <= v <= nv,
                    nv == self.vars@.len(),
                    np == s.phases@.len(),
                    nu == s.units@.len(),
                    nb == s.binary_clauses@.len(),
                    nc == s.clauses@.len(),
                    self.num_non_binary_clauses == s.clauses@.len(),
                    self.config.random_seed == s.config.random_seed,
                    self.assumptions@.len() == 0,
                    self.ncons_spec() >= nb + nc,
                    s.has_extension || self.ncons_spec() == nb + nc,
                    forall|ii: int|
                    0 <= ii < nu ==> 1 <= (#[trigger] s.units@[ii]).var_spec()
                        <= self.num_vars_spec() && self.vars@[s.units@[ii].var_spec()].unit,
                    forall|ii: int|
                    0 <= ii < nb ==> LocalSearch::clause_constraint_matches(
                        #[trigger] self.constraints@[ii],
                        seq![s.binary_clauses@[ii].0, s.binary_clauses@[ii].1],
                        1,
                    ),
                    forall|ii: int|
                    0 <= ii < nc ==> LocalSearch::clause_constraint_matches(
                        #[trigger] self.constraints@[nb + ii],
                        s.clauses@[ii]@,
                        s.clauses@[ii]@.len() - 1,
                    ),
                decreases nv - v,
            {
                let ghost bh = *self;
                let ghost head = *self;
                if v - 1 < np {
                    let b: u32 = if s.phases[v - 1] {
                        98
                    } else {
                        2
                    };
                    self.vars[v].bias = b;
                }
                proof {
                assert forall|ii: int|
                    0 <= ii < nu implies 1 <= (#[trigger] s.units@[ii]).var_spec()
                    <= self.num_vars_spec() && self.vars@[s.units@[ii].var_spec()].unit by {
                    assert(head.vars@[s.units@[ii].var_spec()].unit);
                    assert(s.units@[ii].var_spec() < head.vars@.len());
                }
                    LocalSearch::lemma_wf_core_transfer(bh, *self);
                    assert forall|cid: int|
                        0 <= cid < self.ncons_spec() implies #[trigger] self.slack_ok_at(cid) by {
                        assert(bh.slack_ok_at(cid));
                        assert(self.sol() =~= bh.sol());
                    }
                    LocalSearch::lemma_stack_ok_transfer(bh, *self);
                    LocalSearch::lemma_good_ok_transfer(bh, *self);
                    LocalSearch::lemma_wf_assemble(*self);
                }
                v = v + 1;
            }
        }
        let ghost before_init = *self;
        if init {
            self.init();
            proof {
                assert(self.constraints@ == before_init.constraints@);
                assert forall|ii: int|
                    0 <= ii < nu implies 1 <= (#[trigger] s.units@[ii]).var_spec()
                    <= self.num_vars_spec() && self.vars@[s.units@[ii].var_spec()].unit by {
                    assert(before_init.vars@[s.units@[ii].var_spec()].unit);
                    assert(s.units@[ii].var_spec() < before_init.vars@.len());
                }
            }
        }
        let ghost bf2 = *self;
        self.initializing = false;
        proof {
            LocalSearch::lemma_wf_frame(bf2, *self);
            assert forall|i2: int|
                0 <= i2 < s.clauses@.len() implies LocalSearch::clause_constraint_matches(
                #[trigger] self.constraints@[s.binary_clauses@.len() + i2],
                s.clauses@[i2]@,
                s.clauses@[i2]@.len() - 1,
            ) by {
                assert(LocalSearch::clause_constraint_matches(
                    self.constraints@[nb + i2],
                    s.clauses@[i2]@,
                    s.clauses@[i2]@.len() - 1,
                ));
                assert(nb + i2 == s.binary_clauses@.len() + i2);
            }
        }
        Ok(())
    }

    /// Imports the clause database without preparing a search; everything
    /// `import` installs and promises holds here too.
    pub fn add(&mut self, s: &ClauseDatabase) -> (r: Result<(), Error>)
        requires
            old(self).wf(),
            s.wf_db(),
        ensures
            final(self).wf(),
            r is Err <==> s.has_extension && !s.extension_is_pb,
            final(self).num_non_binary_clauses == s.clauses@.len(),
            final(self).config.random_seed == s.config.random_seed,
            forall|i: int|
                0 <= i < s.units@.len() ==> 1 <= (#[trigger] s.units@[i]).var_spec() <= final(self).num_vars_spec() && final(self).vars@[s.units@[i].var_spec()].unit,
            final(self).ncons_spec() >= s.binary_clauses@.len() + s.clauses@.len(),
            !s.has_extension ==> final(self).ncons_spec() == s.binary_clauses@.len()
                + s.clauses@.len(),
            forall|i: int|
                0 <= i < s.binary_clauses@.len() ==> LocalSearch::clause_constraint_matches(
                    #[trigger] final(self).constraints@[i],
                    seq![s.binary_clauses@[i].0, s.binary_clauses@[i].1],
                    1,
                ),
            forall|i: int|
                0 <= i < s.clauses@.len() ==> LocalSearch::clause_constraint_matches(
                    #[trigger] final(self).constraints@[s.binary_clauses@.len() + i],
                    s.clauses@[i]@,
                    s.clauses@[i]@.len() - 1,
                ),
    {
        self.import(s, false)
    }

    /// Re-imports the clause database, prepares a search, and nudges every
    /// variable's bias toward the solver's best phase; everything `import`
    /// installs and promises holds here too.
    pub fn reinit_with_solver(&mut self, s: &ClauseDatabase) -> (r: Result<(), Error>)
        requires
            old(self).wf(),
            s.wf_db(),
        ensures
            final(self).wf(),
            r is Err <==> s.has_extension && !s.extension_is_pb,
            final(self).num_non_binary_clauses == s.clauses@.len(),
            final(self).config.random_seed == s.config.random_seed,
            forall|i: int|
                0 <= i < s.units@.len() ==> 1 <= (#[trigger] s.units@[i]).var_spec() <= final(self).num_vars_spec() && final(self).vars@[s.units@[i].var_spec()].unit,
            final(self).ncons_spec() >= s.binary_clauses@.len() + s.clauses@.len(),
            !s.has_extension ==> final(self).ncons_spec() == s.binary_clauses@.len()
                + s.clauses@.len(),
            forall|i: int|
                0 <= i < s.binary_clauses@.len() ==> LocalSearch::clause_constraint_matches(
                    #[trigger] final(self).constraints@[i],
                    seq![s.binary_clauses@[i].0, s.binary_clauses@[i].1],
                    1,
                ),
            forall|i: int|
                0 <= i < s.clauses@.len() ==> LocalSearch::clause_constraint_matches(
                    #[trigger] final(self).constraints@[s.binary_clauses@.len() + i],
                    s.clauses@[i]@,
                    s.clauses@[i]@.len() - 1,
                ),
    {
        let result = self.import(s, true);
        if s.best_phase_size > 0 {
            let nv = self.num_vars();
            let np = s.best_phase.len();
            let ghost imported = *self;
            let mut v: usize = 1;
            while v < nv + 1
                invariant
                    self.wf(),
                    s.wf_db(),
                    1 <= v <= nv + 1,
                    nv == self.num_vars_spec(),
                    np == s.best_phase@.len(),
                    self.constraints@ == imported.constraints@,
                    self.vars@.len() == imported.vars@.len(),
                    forall|i: int|
                        0 <= i < imported.vars@.len() ==> (#[trigger] self.vars@[i])
                            == (VariableInfo { bias: self.vars@[i].bias, ..imported.vars@[i] }),
                    *self == (LocalSearch { vars: self.vars, ..imported }),
                decreases nv + 1 - v,
            {
                if v - 1 < np {
                    self.set_phase(v, s.best_phase[v - 1]);
                }
                v = v + 1;
            }
            proof {
                assert forall|i: int|
                    0 <= i < s.units@.len() implies self.vars@[(
                #[trigger] s.units@[i]).var_spec()].unit by {
                    assert(imported.vars@[s.units@[i].var_spec()].unit);
                    assert(s.units@[i].var_spec() < imported.vars@.len());
                }
            }
        }
        result
    }
}

/// The plain-value snapshot of the owning solver's clause database that
/// `import` consumes: trail units, binary clauses, general clauses, saved
/// phases, the configuration, and whatever cardinality and weighted
/// constraints a theory extension could extract.
pub struct ClauseDatabase {
    pub units: LiteralVector,
    pub binary_clauses: Vec<(Literal, Literal)>,
    pub clauses: Vec<LiteralVector>,
    /// Whether a theory extension is attached at all.
    pub has_extension: bool,
    /// Whether the attached extension is purely pseudo-Boolean, so its
    /// constraints could all be extracted.
    pub extension_is_pb: bool,
    pub cardinalities: Vec<(LiteralVector, usize)>,
    pub pbs: Vec<(LiteralVector, Vec<u32>, usize)>,
    /// The solver's saved phase of each variable, for sticky-phase biases.
    pub phases: Vec<bool>,
    pub best_phase: Vec<bool>,
    pub best_phase_size: usize,
    pub config: LocalSearchConfig,
}

impl ClauseDatabase {
    /// Every literal names a real variable, every general clause holds at
    /// least two literals (trail units and binary clauses have lists of
    /// their own), and weighted constraints pair each literal with a
    /// coefficient.
    pub open spec fn wf_db(self) -> bool {
        &&& forall|i: int|
            0 <= i < self.units@.len() ==> 1 <= (#[trigger] self.units@[i]).var_spec()
        &&& forall|i: int|
            0 <= i < self.binary_clauses@.len() ==> 1 <= (
            #[trigger] self.binary_clauses@[i]).0.var_spec() && 1
                <= self.binary_clauses@[i].1.var_spec()
        &&& forall|i: int|
            0 <= i < self.clauses@.len() ==> (#[trigger] self.clauses@[i])@.len() >= 2 && (
            forall|j: int|
                0 <= j < self.clauses@[i]@.len() ==> 1 <= (
                #[trigger] self.clauses@[i]@[j]).var_spec())
        &&& forall|i: int|
            0 <= i < self.cardinalities@.len() ==> (forall|j: int|
                0 <= j < (#[trigger] self.cardinalities@[i]).0@.len() ==> 1 <= (
                #[trigger] self.cardinalities@[i].0@[j]).var_spec())
        &&& forall|i: int|
            0 <= i < self.pbs@.len() ==> (#[trigger] self.pbs@[i]).1@.len()
                == self.pbs@[i].0@.len() && (forall|j: int|
                0 <= j < self.pbs@[i].0@.len() ==> 1 <= (
                #[trigger] self.pbs@[i].0@[j]).var_spec())
    }

    /// An empty database with the default configuration.
    pub fn new() -> (r: ClauseDatabase)
        ensures
            r.wf_db(),
            r.units@.len() == 0,
            r.clauses@.len() == 0,
            r.has_extension == false,
    {
        ClauseDatabase {
            units: Vec::new(),
            binary_clauses: Vec::new(),
            clauses: Vec::new(),
            has_extension: false,
            extension_is_pb: true,
            cardinalities: Vec::new(),
            pbs: Vec::new(),
            phases: Vec::new(),
            best_phase: Vec::new(),
            best_phase_size: 0,
            config: LocalSearchConfig::new(),
        }
    }


}

} // verus!
