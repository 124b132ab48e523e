//! A deterministic, seedable pseudo-random generator producing bounded
//! integers; all stochastic choices of the search go through it, so runs are
//! reproducible given a seed.

use vstd::prelude::*;

verus! {

pub const RANDOM_MAX_VALUE: u32 = 0x7fff;

/// A linear-congruential generator over a 32-bit state word.
#[derive(Copy, Clone, PartialEq, Eq, Structural, Hash, Debug)]
pub struct RandomGenerator {
    pub data: u32,
}

/// The successor state of the generator.
pub open spec fn random_next_state(d: u32) -> u32 {
    ((d * 214013 + 2531011) % 0x1_0000_0000) as u32
}

/// The value drawn from a state: bits 16..31 of the successor state.
pub open spec fn random_drawn(d: u32) -> u32 {
    (random_next_state(d) as int / 0x1_0000) as u32 % 0x8000
}

impl RandomGenerator {
    /// A generator seeded with zero.
    pub fn new() -> (r: Self)
        ensures
            r.data == 0,
    {
        RandomGenerator::with_seed(0)
    }

    pub fn with_seed(seed: u32) -> (r: Self)
        ensures
            r.data == seed,
    {
        RandomGenerator { data: seed }
    }

    pub fn set_seed(&mut self, seed: u32)
        ensures
            final(self).data == seed,
    {
        self.data = seed;
    }

    /// Draws the next value, between 0 and `RANDOM_MAX_VALUE` inclusive.
    pub fn next(&mut self) -> (r: u32)
        ensures
            final(self).data == random_next_state(old(self).data),
            r == random_drawn(old(self).data),
            r <= RANDOM_MAX_VALUE,
    {
        let ghost d = self.data;
        self.data = self.data.wrapping_mul(214013).wrapping_add(2531011);
        let r = (self.data >> 16u32) & RANDOM_MAX_VALUE;
        proof {
            lemma_random_bits(self.data);
            assert(((d * 214013) % 0x1_0000_0000 + 2531011) % 0x1_0000_0000 == (d * 214013
                + 2531011) % 0x1_0000_0000) by (nonlinear_arith);
        }
        r
    }

    /// Draws a value below `n`.
    pub fn at_most(&mut self, n: u32) -> (r: u32)
        requires
            n > 0,
        ensures
            final(self).data == random_next_state(old(self).data),
            r == random_drawn(old(self).data) % n,
            r < n,
    {
        self.next() % n
    }
}

/// Extracting bits 16..31 of a word is division by 2^16 followed by a
/// reduction modulo 2^15.
proof fn lemma_random_bits(d: u32)
    ensures
        (d >> 16) & 0x7fff == (d as int / 0x1_0000) as u32 % 0x8000,
        (d >> 16) & 0x7fff <= 0x7fff,
{
    assert((d >> 16) & 0x7fff == (d / 0x1_0000) % 0x8000) by (bit_vector);
}

} // verus!
