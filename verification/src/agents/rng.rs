//! A small generator of random-looking numbers, for a human touch. Not for
//! secrets.

use vstd::prelude::*;

verus! {

/// The factor of each step.
pub const MULTIPLIER: u64 = 6364136223846793005;

/// What each step adds.
pub const INCREMENT: u64 = 1442695040888963407;

#[derive(Clone, Copy, Debug)]
pub struct SimpleRng {
    pub state: u64,
}

/// The number after `n`.
pub open spec fn next(n: u64) -> u64 {
    ((n * MULTIPLIER + INCREMENT) % 0x1_0000_0000_0000_0000) as u64
}

/// The number in `min..=max` that a drawn number stands for; `min` if there are
/// none.
pub open spec fn in_range(drawn: u64, min: u64, max: u64) -> int {
    if max <= min {
        min as int
    } else {
        min + drawn as int % (max - min + 1)
    }
}

impl SimpleRng {
    pub fn new(seed: u64) -> (r: SimpleRng)
        ensures
            r.state == seed,
    {
        SimpleRng { state: seed }
    }

    /// Draws a number.
    pub fn next_u64(&mut self) -> (r: u64)
        ensures
            r == next(old(self).state),
            final(self).state == r,
    {
        let product: u64 = self.state.wrapping_mul(MULTIPLIER);
        self.state = product.wrapping_add(INCREMENT);
        proof {
            let n = old(self).state as int;
            let m = 0x1_0000_0000_0000_0000int;
            vstd::arithmetic::div_mod::lemma_add_mod_noop(n * MULTIPLIER, INCREMENT as int, m);
            vstd::arithmetic::div_mod::lemma_add_mod_noop(product as int, INCREMENT as int, m);
            vstd::arithmetic::div_mod::lemma_mod_twice(n * MULTIPLIER, m);
        }
        self.state
    }

    /// Draws a number in `min..=max_inclusive`. With no room for a choice there is
    /// nothing to draw. The full range of 64 bits is too wide.
    pub fn gen_range_u64(&mut self, min: u64, max_inclusive: u64) -> (r: u64)
        requires
            max_inclusive - min < u64::MAX,
        ensures
            r == in_range(next(old(self).state), min, max_inclusive),
            final(self).state == if max_inclusive <= min {
                old(self).state
            } else {
                next(old(self).state)
            },
    {
        if max_inclusive <= min {
            return min;
        }
        let span: u64 = max_inclusive - min + 1;
        let drawn: u64 = self.next_u64();
        min + drawn % span
    }
}

/// A number drawn from a range is in it.
pub proof fn draws_are_in_range(drawn: u64, min: u64, max: u64)
    requires
        min <= max,
    ensures
        min <= in_range(drawn, min, max) <= max,
{
}

} // verus!
