//! A single "at most k" pseudo-Boolean constraint, and the arithmetic that
//! relates its incrementally maintained slack to the assignment: the value
//! of a constraint is the coefficient-weighted count of its true literals,
//! and its slack is `k` minus that value.

use vstd::prelude::*;

use super::PbCoefficient;
use crate::literal::Literal;

verus! {

/// A literal is true under an assignment when its variable's value differs
/// from its sign: a positive occurrence is true with the variable, a
/// negated one against it.
pub open spec fn lit_is_true(sol: Seq<bool>, l: Literal) -> bool {
    sol[l.var_spec()] != l.sign_spec()
}

/// The weighted count of true literals among the first `n` positions.
pub open spec fn value_upto(lits: Seq<Literal>, coeffs: Seq<u32>, sol: Seq<bool>, n: int) -> int
    decreases n,
{
    if n <= 0 {
        0
    } else {
        value_upto(lits, coeffs, sol, n - 1) + if lit_is_true(sol, lits[n - 1]) {
            coeffs[n - 1] as int
        } else {
            0
        }
    }
}

/// The sum of the first `n` coefficients.
pub open spec fn total_upto(coeffs: Seq<u32>, n: int) -> int
    decreases n,
{
    if n <= 0 {
        0
    } else {
        total_upto(coeffs, n - 1) + coeffs[n - 1] as int
    }
}

/// The sum of the coefficients of the occurrences of variable `v` with sign
/// `s` among the first `n` positions.
pub open spec fn occ_upto(lits: Seq<Literal>, coeffs: Seq<u32>, v: int, s: bool, n: int) -> int
    decreases n,
{
    if n <= 0 {
        0
    } else {
        occ_upto(lits, coeffs, v, s, n - 1) + if lits[n - 1].var_spec() == v && lits[n
            - 1].sign_spec() == s {
            coeffs[n - 1] as int
        } else {
            0
        }
    }
}

/// The sum of the coefficients of the first `n` watch entries that point at
/// constraint `cid`.
pub open spec fn wsum_upto(entries: Seq<PbCoefficient>, cid: int, n: int) -> int
    decreases n,
{
    if n <= 0 {
        0
    } else {
        wsum_upto(entries, cid, n - 1) + if entries[n - 1].constraint_id == cid {
            entries[n - 1].coefficient as int
        } else {
            0
        }
    }
}

/// A `Σ coefficient_i · literal_i <= k` constraint with its incrementally
/// maintained slack.
pub struct Constraint {
    pub id: usize,
    pub k: usize,
    pub slack: i128,
    pub literals: Vec<Literal>,
    pub coefficients: Vec<u32>,
}

impl Constraint {
    /// The weighted count of this constraint's true literals.
    pub open spec fn value_spec(self, sol: Seq<bool>) -> int {
        value_upto(self.literals@, self.coefficients@, sol, self.literals@.len() as int)
    }

    /// The sum of all coefficients: the largest value the constraint can
    /// take.
    pub open spec fn total_spec(self) -> int {
        total_upto(self.coefficients@, self.coefficients@.len() as int)
    }

    /// The coefficient weight of variable `v`'s occurrences with sign `s`.
    pub open spec fn occ_spec(self, v: int, s: bool) -> int {
        occ_upto(self.literals@, self.coefficients@, v, s, self.literals@.len() as int)
    }

    /// Structurally well formed for an engine with variables `1..=nvars`:
    /// one coefficient per literal, every variable in range.
    pub open spec fn shape_ok(self, nvars: int) -> bool {
        &&& self.literals@.len() == self.coefficients@.len()
        &&& forall|i: int|
            0 <= i < self.literals@.len() ==> 1 <= (#[trigger] self.literals@[i]).var_spec()
                <= nvars
    }

    /// An empty constraint with bound `k`; the slack starts at `k` since no
    /// literal is true yet.
    pub fn new(k: usize, id: usize) -> (r: Constraint)
        ensures
            r.id == id,
            r.k == k,
            r.slack == k,
            r.literals@.len() == 0,
            r.coefficients@.len() == 0,
    {
        Constraint { id, k, slack: k as i128, literals: Vec::new(), coefficients: Vec::new() }
    }

    /// Appends one weighted literal.
    pub fn push(&mut self, literal: Literal, coefficient: u32)
        ensures
            final(self).literals@ == old(self).literals@.push(literal),
            final(self).coefficients@ == old(self).coefficients@.push(coefficient),
            final(self).id == old(self).id,
            final(self).k == old(self).k,
            final(self).slack == old(self).slack,
    {
        self.literals.push(literal);
        self.coefficients.push(coefficient);
    }

    /// The number of literals.
    pub fn size(&self) -> (r: usize)
        ensures
            r == self.literals@.len(),
    {
        self.literals.len()
    }

    /// The literal at position `idx`.
    pub fn operator(&self, idx: usize) -> (r: Literal)
        requires
            idx < self.literals@.len(),
        ensures
            r == self.literals@[idx as int],
    {
        self.literals[idx]
    }
}

/// Every partial value is between zero and the partial coefficient sum.
pub proof fn lemma_value_bounds(lits: Seq<Literal>, coeffs: Seq<u32>, sol: Seq<bool>, n: int)
    ensures
        0 <= value_upto(lits, coeffs, sol, n) <= total_upto(coeffs, n),
    decreases n,
{
    if n > 0 {
        lemma_value_bounds(lits, coeffs, sol, n - 1);
    }
}

/// Every partial occurrence sum is between zero and the partial coefficient
/// sum.
pub proof fn lemma_occ_bounds(lits: Seq<Literal>, coeffs: Seq<u32>, v: int, s: bool, n: int)
    ensures
        0 <= occ_upto(lits, coeffs, v, s, n) <= total_upto(coeffs, n),
    decreases n,
{
    if n > 0 {
        lemma_occ_bounds(lits, coeffs, v, s, n - 1);
    }
}

/// Partial watch sums are non-negative.
pub proof fn lemma_wsum_nonneg(entries: Seq<PbCoefficient>, cid: int, n: int)
    ensures
        0 <= wsum_upto(entries, cid, n),
    decreases n,
{
    if n > 0 {
        lemma_wsum_nonneg(entries, cid, n - 1);
    }
}

/// Partial watch sums are non-negative and grow with the prefix.
pub proof fn lemma_wsum_bounds(entries: Seq<PbCoefficient>, cid: int, j: int, n: int)
    requires
        0 <= j <= n,
    ensures
        0 <= wsum_upto(entries, cid, j) <= wsum_upto(entries, cid, n),
    decreases n,
{
    if j == n {
        lemma_wsum_nonneg(entries, cid, j);
    } else if n > 0 {
        lemma_wsum_bounds(entries, cid, j, n - 1);
    }
}

/// Flipping variable `v` changes a constraint's partial value by the weight
/// of the occurrences that become true minus the weight of those that
/// become false: with old value `a`, occurrences of sign `a` turn true and
/// occurrences of sign `!a` turn false.
pub proof fn lemma_flip_delta(lits: Seq<Literal>, coeffs: Seq<u32>, sol: Seq<bool>, v: int, n: int)
    requires
        0 <= v < sol.len(),
        forall|i: int| 0 <= i < n ==> 0 <= (#[trigger] lits[i]).var_spec() < sol.len(),
    ensures
        value_upto(lits, coeffs, sol.update(v, !sol[v]), n) == value_upto(lits, coeffs, sol, n)
            + occ_upto(lits, coeffs, v, sol[v], n) - occ_upto(lits, coeffs, v, !sol[v], n),
    decreases n,
{
    if n > 0 {
        lemma_flip_delta(lits, coeffs, sol, v, n - 1);
    }
}

/// Partial sums read only the first `n` positions: pushing more literals
/// does not change them.
pub proof fn lemma_value_push(lits: Seq<Literal>, coeffs: Seq<u32>, sol: Seq<bool>, l: Literal, c: u32, n: int)
    requires
        0 <= n <= lits.len(),
        n <= coeffs.len(),
    ensures
        value_upto(lits.push(l), coeffs.push(c), sol, n) == value_upto(lits, coeffs, sol, n),
        total_upto(coeffs.push(c), n) == total_upto(coeffs, n),
    decreases n,
{
    if n > 0 {
        lemma_value_push(lits, coeffs, sol, l, c, n - 1);
    }
}

/// Partial occurrence sums read only the first `n` positions.
pub proof fn lemma_occ_push(lits: Seq<Literal>, coeffs: Seq<u32>, v: int, s: bool, l: Literal, c: u32, n: int)
    requires
        0 <= n <= lits.len(),
        n <= coeffs.len(),
    ensures
        occ_upto(lits.push(l), coeffs.push(c), v, s, n) == occ_upto(lits, coeffs, v, s, n),
    decreases n,
{
    if n > 0 {
        lemma_occ_push(lits, coeffs, v, s, l, c, n - 1);
    }
}

/// Partial watch sums read only the first `n` entries.
pub proof fn lemma_wsum_push(entries: Seq<PbCoefficient>, e: PbCoefficient, cid: int, n: int)
    requires
        0 <= n <= entries.len(),
    ensures
        wsum_upto(entries.push(e), cid, n) == wsum_upto(entries, cid, n),
    decreases n,
{
    if n > 0 {
        lemma_wsum_push(entries, e, cid, n - 1);
    }
}

/// Two assignments that agree on every variable the literals mention give
/// the same partial value.
pub proof fn lemma_value_congruent(
    lits: Seq<Literal>,
    coeffs: Seq<u32>,
    sol1: Seq<bool>,
    sol2: Seq<bool>,
    n: int,
)
    requires
        forall|i: int|
            0 <= i < n ==> sol1[(#[trigger] lits[i]).var_spec()] == sol2[lits[i].var_spec()],
    ensures
        value_upto(lits, coeffs, sol1, n) == value_upto(lits, coeffs, sol2, n),
    decreases n,
{
    if n > 0 {
        lemma_value_congruent(lits, coeffs, sol1, sol2, n - 1);
    }
}

/// A variable that no literal mentions has occurrence weight zero.
pub proof fn lemma_occ_absent(lits: Seq<Literal>, coeffs: Seq<u32>, v: int, s: bool, n: int)
    requires
        forall|i: int| 0 <= i < n ==> (#[trigger] lits[i]).var_spec() != v,
    ensures
        occ_upto(lits, coeffs, v, s, n) == 0,
    decreases n,
{
    if n > 0 {
        lemma_occ_absent(lits, coeffs, v, s, n - 1);
    }
}

/// How many of the first `n` entries point at a constraint with slack
/// exactly `t`; see the score bookkeeping.
pub open spec fn count_slack_eq(entries: Seq<PbCoefficient>, cons: Seq<Constraint>, t: int, n: int) -> int
    decreases n,
{
    if n <= 0 {
        0
    } else {
        count_slack_eq(entries, cons, t, n - 1) + if cons[entries[n - 1].constraint_id as int].slack
            == t {
            1int
        } else {
            0int
        }
    }
}

/// How many of the first `n` entries point at a constraint with slack at
/// most `t`.
pub open spec fn count_slack_le(entries: Seq<PbCoefficient>, cons: Seq<Constraint>, t: int, n: int) -> int
    decreases n,
{
    if n <= 0 {
        0
    } else {
        count_slack_le(entries, cons, t, n - 1) + if cons[entries[n - 1].constraint_id as int].slack
            <= t {
            1int
        } else {
            0int
        }
    }
}

/// The threshold counts lie between zero and the number of entries.
pub proof fn lemma_count_bounds(entries: Seq<PbCoefficient>, cons: Seq<Constraint>, t: int, n: int)
    requires
        n >= 0,
    ensures
        0 <= count_slack_eq(entries, cons, t, n) <= n,
        0 <= count_slack_le(entries, cons, t, n) <= n,
    decreases n,
{
    if n > 0 {
        lemma_count_bounds(entries, cons, t, n - 1);
    }
}

/// A constraint that no entry points at has watch sum zero.
pub proof fn lemma_wsum_absent(entries: Seq<PbCoefficient>, cid: int, n: int)
    requires
        forall|j: int| 0 <= j < n ==> (#[trigger] entries[j]).constraint_id != cid,
    ensures
        wsum_upto(entries, cid, n) == 0,
    decreases n,
{
    if n > 0 {
        lemma_wsum_absent(entries, cid, n - 1);
    }
}

/// Partial coefficient sums grow with the prefix.
pub proof fn lemma_total_mono(coeffs: Seq<u32>, j: int, n: int)
    requires
        0 <= j <= n,
    ensures
        total_upto(coeffs, j) <= total_upto(coeffs, n),
    decreases n,
{
    if j < n {
        lemma_total_mono(coeffs, j, n - 1);
    }
}

} // verus!
