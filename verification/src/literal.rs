//! A Boolean literal encodes its variable and sign in a single `usize`:
//! the variable `v` appears positively as `2*v` and negated as `2*v + 1`.

use vstd::prelude::*;

use crate::{BoolVariable, NULL_BOOL_VAR};

verus! {

pub type LiteralVector = Vec<Literal>;

/// A signed reference to a `BoolVariable`. The low bit holds the sign
/// (1 for a negated occurrence), the remaining bits the variable index.
#[derive(Copy, Clone, PartialEq, Eq, Structural, Hash, Debug)]
pub struct Literal(pub usize);

impl Literal {
    /// The variable this literal refers to.
    pub open spec fn var_spec(self) -> int {
        self.0 as int / 2
    }

    /// True when the literal is a negated occurrence of its variable.
    pub open spec fn sign_spec(self) -> bool {
        self.0 % 2 == 1
    }

    pub fn new(v: BoolVariable, sign: bool) -> (r: Literal)
        requires
            v <= NULL_BOOL_VAR,
        ensures
            r.var_spec() == v,
            r.sign_spec() == sign,
            r.0 == 2 * v + (if sign { 1int } else { 0int }),
    {
        proof {
            lemma_shr_one(usize::MAX);
            lemma_shl_one(v);
        }
        if sign {
            Literal((v << 1usize) + 1)
        } else {
            Literal(v << 1usize)
        }
    }

    /// The variable this literal represents.
    pub fn var(&self) -> (r: BoolVariable)
        ensures
            r == self.var_spec(),
    {
        proof {
            lemma_shr_one(self.0);
        }
        self.0 >> 1usize
    }

    /// Whether the literal is a negated occurrence.
    pub fn sign(&self) -> (r: bool)
        ensures
            r == self.sign_spec(),
    {
        proof {
            lemma_and_one(self.0);
        }
        (self.0 & 1) != 0
    }

    /// The positive literal of the same variable.
    pub fn unsign(&self) -> (r: Literal)
        ensures
            r.var_spec() == self.var_spec(),
            r.sign_spec() == false,
    {
        proof {
            lemma_and_not_one(self.0);
        }
        Literal(self.0 & !1usize)
    }

    /// In-place negation: toggles the sign, keeps the variable.
    pub fn negate(&mut self)
        ensures
            final(self).var_spec() == old(self).var_spec(),
            final(self).sign_spec() == !old(self).sign_spec(),
            final(self).0 == old(self).negated_spec().0,
    {
        self.0 = self.0 ^ 1;
        proof {
            lemma_xor_one(old(self).0);
        }
    }

    /// The negation of this literal, as a value.
    pub open spec fn negated_spec(self) -> Literal {
        if self.0 % 2 == 1 {
            Literal((self.0 - 1) as usize)
        } else {
            Literal((self.0 + 1) as usize)
        }
    }

    /// The negation of this literal.
    pub fn negated(&self) -> (r: Literal)
        ensures
            r == self.negated_spec(),
            r.var_spec() == self.var_spec(),
            r.sign_spec() == !self.sign_spec(),
    {
        let r = Literal(self.0 ^ 1);
        proof {
            lemma_xor_one(self.0);
        }
        r
    }

    /// The raw encoding: variable with the sign in the low bit.
    pub fn index(&self) -> (r: usize)
        ensures
            r == self.0,
    {
        self.0
    }

    /// The distinguished literal standing for "no literal".
    pub fn null() -> (r: Literal)
        ensures
            r == Literal::null_spec(),
    {
        proof {
            lemma_shr_one(usize::MAX);
            lemma_shl_one(NULL_BOOL_VAR);
        }
        Literal(NULL_BOOL_VAR << 1usize)
    }

    pub open spec fn null_spec() -> Literal {
        Literal((NULL_BOOL_VAR * 2) as usize)
    }

    pub open spec fn is_null(self) -> bool {
        self == Literal::null_spec()
    }
}

impl Default for Literal {
    /// The default literal is the null literal.
    fn default() -> (r: Self)
        ensures
            r == Literal::null_spec(),
    {
        Literal::null()
    }
}

/// `x ^ 1` toggles the low bit: it subtracts one from an odd value and adds
/// one to an even value.
proof fn lemma_xor_one(x: usize)
    ensures
        x % 2 == 1 ==> x ^ 1 == x - 1,
        x % 2 == 0 ==> x ^ 1 == x + 1,
        (x ^ 1) as int / 2 == x as int / 2,
{
    assert(x % 2 == 1 ==> x ^ 1 == x - 1) by (bit_vector);
    assert(x % 2 == 0 ==> x ^ 1 == x + 1) by (bit_vector);
}

/// Shifting left by one doubles a value that has room for it.
proof fn lemma_shl_one(v: usize)
    requires
        v <= usize::MAX >> 1,
    ensures
        v << 1 == 2 * v,
{
    vstd::arithmetic::power2::lemma2_to64();
    vstd::bits::lemma_usize_mul_pow2_le_max_iff_max_shr(v, 1, usize::MAX);
    vstd::bits::lemma_usize_shl_is_mul(v, 1);
}

/// Shifting right by one halves, rounding down.
proof fn lemma_shr_one(x: usize)
    ensures
        x >> 1 == x as int / 2,
{
    assert(x >> 1 == x / 2) by (bit_vector);
}

/// The low bit is the parity.
proof fn lemma_and_one(x: usize)
    ensures
        x & 1 == x % 2,
{
    assert(x & 1 == x % 2) by (bit_vector);
}

/// Clearing the low bit rounds down to the nearest even value.
proof fn lemma_and_not_one(x: usize)
    ensures
        x & !1 == x - x % 2,
{
    assert(x & !1usize == x - x % 2) by (bit_vector);
}

/// Negates every literal of the vector in place.
pub fn negate_literals(literals: &mut LiteralVector)
    ensures
        final(literals)@.len() == old(literals)@.len(),
        forall|i: int|
            0 <= i < old(literals)@.len() ==> final(literals)@[i] == old(
                literals,
            )@[i].negated_spec(),
{
    let n = literals.len();
    let mut i: usize = 0;
    while i < n
        invariant
            n == literals@.len(),
            i <= n,
            forall|j: int| i <= j < n ==> literals@[j] == old(literals)@[j],
            forall|j: int| 0 <= j < i ==> literals@[j] == old(literals)@[j].negated_spec(),
        decreases n - i,
    {
        let mut l = literals[i];
        l.negate();
        literals[i] = l;
        i = i + 1;
    }
}

} // verus!
