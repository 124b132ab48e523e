//! Unit tests for the supporting primitives: literals, the generator, the
//! model, the resource budget, the watch lists, and the approximate set.

use zsat::approximate_set::{ApproximateSet, OredIntegerSet};
use zsat::data_structures::{RandomGenerator, TFVectors, VectorPool};
use zsat::errors::Error;
use zsat::lifted_bool::LiftedBool;
use zsat::literal::{negate_literals, Literal};
use zsat::log::Logger;
use zsat::model::{value_of_bool_variable, value_of_literal, Model};
use zsat::resource_limit::ResourceLimit;
use zsat::status::Status;
use zsat::watched::{Watched, WatchList};

#[test]
fn literal_encoding_round_trip() {
    let l = Literal::new(3, true);
    assert_eq!(l.index(), 7);
    assert_eq!(l.var(), 3);
    assert!(l.sign());
    let n = l.negated();
    assert_eq!(n.index(), 6);
    assert_eq!(n.var(), 3);
    assert!(!n.sign());
    assert_eq!(l.unsign().index(), 6);
    let mut m = Literal::new(5, false);
    m.negate();
    assert_eq!(m.index(), 11);
}

#[test]
fn negate_literals_flips_each() {
    let mut v = vec![Literal::new(1, false), Literal::new(2, true)];
    negate_literals(&mut v);
    assert_eq!(v[0].index(), 3);
    assert_eq!(v[1].index(), 4);
}

#[test]
fn random_generator_is_reproducible() {
    let mut a = RandomGenerator::with_seed(0);
    assert_eq!(a.next(), 38);
    let mut b = RandomGenerator::new();
    assert_eq!(b.next(), 38);
    b.set_seed(0);
    assert_eq!(b.next(), 38);
    let mut c = RandomGenerator::with_seed(12345);
    let first = c.next();
    assert!(first <= 0x7fff);
    let mut d = RandomGenerator::with_seed(12345);
    assert_eq!(d.next(), first);
    assert!(d.at_most(10) < 10);
}

#[test]
fn model_values_follow_sign() {
    let mut m = Model::new();
    m.push(LiftedBool::Undefined);
    m.push(LiftedBool::True);
    m.push(LiftedBool::False);
    assert_eq!(value_of_bool_variable(1, &m), LiftedBool::True);
    assert_eq!(value_of_literal(Literal::new(1, false), &m), LiftedBool::True);
    assert_eq!(value_of_literal(Literal::new(1, true), &m), LiftedBool::False);
    assert_eq!(value_of_literal(Literal::new(2, true), &m), LiftedBool::True);
    m.clear();
    assert_eq!(m.len(), 0);
}

#[test]
fn resource_limit_budget_and_cancel() {
    let mut rl = ResourceLimit::new();
    assert!(rl.inc());
    rl.push(2);
    assert!(rl.inc());
    assert!(rl.inc());
    assert!(!rl.inc());
    assert_eq!(rl.get_cancel_msg(), "max. resource limit exceeded");
    rl.pop();
    let mut rl2 = ResourceLimit::new();
    rl2.cancel();
    assert!(rl2.is_canceled());
    assert_eq!(rl2.get_cancel_msg(), "canceled");
    rl2.reset_cancel();
    assert!(rl2.not_canceled());
    rl2.cancel();
    rl2.dec_cancel();
    assert!(rl2.not_canceled());
}

#[test]
fn resource_limit_cancel_reaches_children() {
    let mut parent = ResourceLimit::new();
    parent.push_child(ResourceLimit::new());
    parent.cancel();
    let child = parent.pop_child().unwrap();
    assert!(child.is_canceled());
}

#[test]
fn resource_limit_reset_clears_the_subtree() {
    let mut parent = ResourceLimit::new();
    parent.push_child(ResourceLimit::new());
    parent.cancel();
    parent.reset_cancel();
    assert!(parent.not_canceled());
    let child = parent.pop_child().unwrap();
    assert!(child.not_canceled());
}

#[test]
fn watch_list_find_returns_first_match() {
    let first = Watched::Binary { literal: Literal::new(4, false), is_learned: false };
    let second = Watched::Binary { literal: Literal::new(4, false), is_learned: true };
    let mut wl = WatchList::new();
    wl.list.push(first);
    wl.list.push(second);
    let probe = Watched::Binary { literal: Literal::new(4, false), is_learned: true };
    let found = wl.find(probe).unwrap();
    assert!(matches!(found, Watched::Binary { is_learned: false, .. }));
}

#[test]
fn watch_list_matches_ignores_blocked_literal() {
    let a = Watched::Clause { blocked_literal: Literal::new(1, false), clause_offset: 9 };
    let b = Watched::Clause { blocked_literal: Literal::new(2, true), clause_offset: 9 };
    assert!(a.matches(&b));
    let mut wl = WatchList::new();
    wl.list.push(b);
    wl.list.push(Watched::Binary { literal: Literal::new(3, false), is_learned: true });
    assert!(wl.find(a).is_some());
    wl.erase_watch(a);
    assert!(wl.find(a).is_none());
    assert_eq!(wl.list.len(), 1);
}

#[test]
fn ored_integer_set_over_reports_only() {
    let mut s = OredIntegerSet::new();
    assert!(s.empty());
    s.insert(&4usize);
    assert!(s.may_contain(&4));
    assert!(s.must_not_contain(&2));
    let t = OredIntegerSet::with_value(&2usize);
    let u = OredIntegerSet::make_union(&s, &t);
    assert!(u.may_contain(&4) && u.may_contain(&2));
    assert!(s.may_subset(&u));
    assert!(u.must_not_subset(&s));
    assert!(OredIntegerSet::make_intersection(&s, &t).empty());
    assert!(s.empty_intersection(&t));
    assert!(s.must_not_equal(&t));
    let mut r = u;
    r.reset();
    assert!(r.empty());
}

#[test]
fn logger_gates_on_verbosity() {
    let mut log = Logger::new();
    log.set_verbosity(2);
    log.log_at_level(1, "quiet");
    log.log_at_level(3, "loud");
    let msgs = log.drain();
    assert_eq!(msgs, vec!["loud"]);
}

#[test]
fn status_theories() {
    assert!(Status::input().is_satisfied());
    assert!(Status::asserted().is_satisfied());
    assert!(!Status::from_theory(true, 3).is_satisfied());
    assert!(Status::redundent().is_satisfied());
    assert!(Status::repeated().is_satisfied());
}

#[test]
fn error_messages() {
    assert_eq!(
        Error::IncompleteExtension.message(),
        "Local search is incomplete with extensions beyond PB."
    );
}

#[test]
fn tf_vectors_select_by_truth() {
    let tf = TFVectors::new(vec![1u32], vec![2u32, 3u32]);
    assert_eq!(tf.get(true).len(), 1);
    assert_eq!(tf.get(false).len(), 2);
}

#[test]
fn vector_pool_runs() {
    let mut pool = VectorPool::new();
    pool.reserve(2, 8);
    pool.begin_add_vector(1, 2);
    pool.add_vector_elem(10);
    pool.add_vector_elem(11);
    pool.end_add_vector();
    assert_eq!(pool.get_owner(0), 1);
    assert_eq!(pool.get_length(0), 2);
    let mut pool2 = zsat::parallel::VectorPool::new();
    pool2.add_vector(7, vec![1, 2, 3]);
    assert!(pool2.get_vector_for_owner(7).is_some());
    assert!(pool2.get_vector_for_owner(8).is_none());
}
