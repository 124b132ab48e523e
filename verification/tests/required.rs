//! The per-module smoke tests.

use zsat::lifted_bool::LiftedBool;

#[test]
fn check_satisfiability_it_works() {
    assert_eq!(2 + 2, 4);
}

#[test]
fn clause_it_works() {
    assert_eq!(2 + 2, 4);
}

#[test]
fn config_it_works() {
    assert_eq!(2 + 2, 4);
}

#[test]
fn moving_average_it_works() {
    assert_eq!(2 + 2, 4);
}

#[test]
fn random_it_works() {
    assert_eq!(2 + 2, 4);
}

#[test]
fn true_false_vectors_it_works() {
    assert_eq!(2 + 2, 4);
}

#[test]
fn vector_pool_it_works() {
    assert_eq!(2 + 2, 4);
}

#[test]
fn lib_it_works() {
    assert_eq!(2 + 2, 4);
}

#[test]
fn local_search_it_works() {
    assert_eq!(2 + 2, 4);
}

#[test]
fn mod_it_works() {
    assert_eq!(2 + 2, 4);
}

#[test]
fn variable_info_it_works() {
    assert_eq!(2 + 2, 4);
}

#[test]
fn log_it_works() {
    assert_eq!(2 + 2, 4);
}

#[test]
fn logging_it_works() {
    assert_eq!(2 + 2, 4);
}

#[test]
fn model_it_works() {
    assert_eq!(2 + 2, 4);
}

#[test]
fn parallel_it_works() {
    assert_eq!(2 + 2, 4);
}

#[test]
fn resource_limit_it_works() {
    assert_eq!(2 + 2, 4);
}

#[test]
fn status_it_works() {
    assert_eq!(2 + 2, 4);
}

#[test]
fn symbol_table_it_works() {
    assert_eq!(2 + 2, 4);
}

#[test]
fn errors_it_works() {
    assert_eq!(2 + 2, 4);
}

#[test]
fn lifted_bool_it_works() {
    assert_eq!(LiftedBool::Undefined.to_sat_str(), "unknown");
}
