//! Scenario tests for the local-search engine: the slack and stack
//! invariants checked at runtime against from-scratch recomputation, the
//! unit-injection contradiction, the resource ceiling, noise adaptation,
//! and a satisfiable cardinality instance solved end to end.

use zsat::errors::Error;
use zsat::lifted_bool::LiftedBool;
use zsat::literal::Literal;
use zsat::local_search::{ClauseDatabase, LocalSearch};
use zsat::model::value_of_literal;
use zsat::resource_limit::ResourceLimit;

fn lit(v: usize, negated: bool) -> Literal {
    Literal::new(v, negated)
}

/// A single clause `x1 or x2 or x3` must be satisfied within the budget,
/// whatever the seed.
#[test]
fn clause_is_satisfied_for_several_seeds() {
    for seed in [0u32, 1, 7, 42] {
        let mut engine = LocalSearch::new();
        engine.add_clause(&vec![lit(1, false), lit(2, false), lit(3, false)]);
        engine.set_seed(seed);
        let result = engine.check(&Vec::new());
        assert_eq!(result, LiftedBool::True);
        assert!(engine.verify_solution());
        let model = engine.get_model();
        assert_eq!(model.len(), 4);
        let any_true = value_of_literal(lit(1, false), model) == LiftedBool::True
            || value_of_literal(lit(2, false), model) == LiftedBool::True
            || value_of_literal(lit(3, false), model) == LiftedBool::True;
        assert!(any_true);
    }
}

/// Two conflicting forced units prove unsatisfiability.
#[test]
fn conflicting_units_prove_unsat() {
    let mut engine = LocalSearch::new();
    engine.add_clause(&vec![lit(1, false), lit(2, false)]);
    engine.add_unit(lit(1, false), Literal::null());
    engine.add_unit(lit(1, true), Literal::null());
    let result = engine.check(&Vec::new());
    assert_eq!(result, LiftedBool::False);
}

/// The slack of `2*x1 + 3*x2 <= 4` matches the direct computation under
/// all four assignments of the two variables.
#[test]
fn pb_slack_matches_direct_computation() {
    for (a, b) in [(false, false), (false, true), (true, false), (true, true)] {
        let mut engine = LocalSearch::new();
        engine.add_pb(&vec![lit(1, false), lit(2, false)], &vec![2, 3], 4);
        engine.add_unit(lit(1, a), Literal::null());
        engine.add_unit(lit(2, b), Literal::null());
        // a forced positive literal makes the variable true, a forced
        // negated literal makes it false
        let x1 = !a;
        let x2 = !b;
        let expected = 4i128 - (if x1 { 2 } else { 0 }) - (if x2 { 3 } else { 0 });
        assert_eq!(engine.constraint_slack(0), expected);
        // the incrementally maintained slack equals bound minus the
        // from-scratch value
        assert_eq!(engine.constraint_slack(0), 4i128 - engine.constraint_value(0));
        // a fresh try keeps the forced values and recomputes the same slack
        engine.reinit();
        assert_eq!(engine.constraint_slack(0), expected);
    }
}

/// With a tripped resource budget, `check` returns Undefined without a
/// single flip being spent on search.
#[test]
fn exhausted_budget_returns_undefined_without_flips() {
    let mut engine = LocalSearch::new();
    // x1 + (not x1) <= 0 is violated under every assignment
    engine.add_pb(&vec![lit(1, false), lit(1, true)], &vec![1, 1], 0);
    let mut limit = ResourceLimit::new();
    limit.cancel();
    engine.set_limit(limit);
    let result = engine.check(&Vec::new());
    assert_eq!(result, LiftedBool::Undefined);
    assert_eq!(engine.collect_statistics().count_of_flips, 0);
}

/// Noise adaptation: a worse best-unsat rate makes the search greedier
/// (noise strictly drops), a better one makes it more exploratory.
#[test]
fn noise_adapts_toward_greed_on_worse_rate() {
    let worse = LocalSearch::adapt_noise(9800, 50, true);
    assert_eq!(worse, 9800 - 9800 * 2 * 50 / 1000);
    assert!(worse < 9800);
    let better = LocalSearch::adapt_noise(9800, 50, false);
    assert_eq!(better, 9800 + (10000 - 9800) * 50 / 1000);
    assert!(better >= 9800);
    assert!(better <= 10000);
}

/// Two engines driven identically from the same seed rebuild identical
/// slack tables: reinitialization is deterministic in the seed.
#[test]
fn reinit_is_deterministic_in_the_seed() {
    let mut first = LocalSearch::new();
    let mut second = LocalSearch::new();
    for engine in [&mut first, &mut second] {
        engine.add_clause(&vec![lit(1, false), lit(2, true), lit(3, false)]);
        engine.add_pb(&vec![lit(2, false), lit(3, false)], &vec![2, 3], 4);
        engine.set_seed(11);
        engine.reinit();
        engine.reinit();
    }
    for ci in 0..first.num_constraints() {
        assert_eq!(first.constraint_slack(ci), second.constraint_slack(ci));
    }
    for v in 1..=first.num_vars() {
        assert_eq!(first.cur_solution(v), second.cur_solution(v));
    }
}

/// A variable forced by `add_unit` keeps its value through search.
#[test]
fn units_are_never_flipped() {
    let mut engine = LocalSearch::new();
    engine.add_clause(&vec![lit(1, false), lit(2, false)]);
    engine.add_unit(lit(1, true), Literal::null());
    let result = engine.check(&Vec::new());
    assert_eq!(result, LiftedBool::True);
    // x1 was forced false, so the clause is satisfied through x2
    let model = engine.get_model();
    assert_eq!(value_of_literal(lit(2, false), model), LiftedBool::True);
}

/// An assumption literal acts as a unit for the duration of the call.
#[test]
fn assumptions_constrain_the_model() {
    let mut engine = LocalSearch::new();
    engine.add_clause(&vec![lit(1, false), lit(2, false)]);
    let result = engine.check(&vec![lit(2, true)]);
    assert_eq!(result, LiftedBool::True);
    let model = engine.get_model();
    assert_eq!(value_of_literal(lit(1, false), model), LiftedBool::True);
}

/// Importing a database whose theory extension is not purely
/// pseudo-Boolean is refused; a pseudo-Boolean one is accepted and solved.
#[test]
fn import_refuses_incomplete_extension() {
    let mut db = ClauseDatabase::new();
    db.clauses.push(vec![lit(1, false), lit(2, false)]);
    db.has_extension = true;
    db.extension_is_pb = false;
    let mut engine = LocalSearch::new();
    assert_eq!(engine.import(&db, false), Err(Error::IncompleteExtension));

    let mut db2 = ClauseDatabase::new();
    db2.clauses.push(vec![lit(1, false), lit(2, false)]);
    db2.has_extension = true;
    db2.extension_is_pb = true;
    db2.cardinalities.push((vec![lit(1, false), lit(2, false)], 1));
    db2.units.push(lit(3, false));
    db2.binary_clauses.push((lit(1, false), lit(3, false)));
    let mut engine2 = LocalSearch::new();
    assert_eq!(engine2.import(&db2, true), Ok(()));
    assert_eq!(engine2.num_non_binary_clauses(), 1);
    assert_eq!(engine2.check(&Vec::new()), LiftedBool::True);
}
