//! Single-precision numbers, held as their IEEE-754 bit patterns.
//!
//! Coordinates, rotations and speeds only ever need to be told apart, compared
//! and clamped here, and all of that can be read off the bits. The meaning of a
//! pattern is [`value`]: the number it stands for, counted in units of
//! `2^-149` (the smallest positive single), which makes every finite single a
//! whole number.

use vstd::arithmetic::power2::*;
use vstd::prelude::*;

verus! {

/// A single-precision number by its bit pattern.
#[derive(Clone, Copy, Debug, PartialEq, Eq, Structural)]
pub struct Scalar {
    pub bits: u32,
}

/// The magnitude part of a pattern: exponent and mantissa without the sign.
pub open spec fn magnitude(s: Scalar) -> int {
    s.bits as int % 0x8000_0000
}

/// Whether the sign bit is set.
pub open spec fn negative(s: Scalar) -> bool {
    s.bits >= 0x8000_0000
}

/// The absolute value, in units of `2^-149`, of a magnitude. Infinity comes out
/// as `2^128`, above every finite number.
pub open spec fn units(magnitude: int) -> int {
    let exponent = magnitude / 0x80_0000;
    let mantissa = magnitude % 0x80_0000;
    if exponent == 0 {
        mantissa
    } else {
        (0x80_0000 + mantissa) * pow2((exponent - 1) as nat)
    }
}

/// The number a pattern stands for, in units of `2^-149`.
pub open spec fn value(s: Scalar) -> int {
    if negative(s) {
        -units(magnitude(s))
    } else {
        units(magnitude(s))
    }
}

/// The whole number `n` in units of `2^-149`.
pub open spec fn whole(n: int) -> int {
    n * pow2(149)
}

pub open spec fn is_nan(s: Scalar) -> bool {
    magnitude(s) > 0x7f80_0000
}

pub open spec fn is_finite(s: Scalar) -> bool {
    magnitude(s) < 0x7f80_0000
}

/// `|s| <= bound`, where `bound` is in units of `2^-149`.
pub open spec fn within(s: Scalar, bound: int) -> bool {
    is_finite(s) && -bound <= value(s) <= bound
}

/// `units` grows strictly with the magnitude.
pub proof fn lemma_units_monotone(a: int, b: int)
    requires
        0 <= a < b,
    ensures
        0 <= units(a) < units(b),
{
    let ea = a / 0x80_0000;
    let eb = b / 0x80_0000;
    let ma = a % 0x80_0000;
    let mb = b % 0x80_0000;
    assert(a == ea * 0x80_0000 + ma);
    assert(b == eb * 0x80_0000 + mb);
    assert(ea <= eb);
    if ea == 0 {
        if eb > 0 {
            lemma_pow2_pos((eb - 1) as nat);
            assert((0x80_0000 + mb) * pow2((eb - 1) as nat) >= 0x80_0000) by (nonlinear_arith)
                requires
                    mb >= 0,
                    pow2((eb - 1) as nat) >= 1,
            ;
        }
    } else {
        let pa = pow2((ea - 1) as nat) as int;
        let pb = pow2((eb - 1) as nat) as int;
        lemma_pow2_pos((ea - 1) as nat);
        if ea == eb {
            assert(ma < mb);
            assert((0x80_0000 + ma) * pa < (0x80_0000 + mb) * pa) by (nonlinear_arith)
                requires
                    ma < mb,
                    pa > 0,
            ;
            assert((0x80_0000 + ma) * pa >= 0) by (nonlinear_arith)
                requires
                    ma >= 0,
                    pa > 0,
            ;
        } else {
            lemma_pow2_unfold(ea as nat);
            if ea < eb - 1 {
                lemma_pow2_strictly_increases(ea as nat, (eb - 1) as nat);
            }
            assert(pb >= 2 * pa);
            assert(0 <= (0x80_0000 + ma) * pa < (0x80_0000 + mb) * pb) by (nonlinear_arith)
                requires
                    0 <= ma < 0x80_0000,
                    0 <= mb,
                    pa > 0,
                    pb >= 2 * pa,
            ;
        }
    }
}

/// Two magnitudes compare as the numbers they stand for.
pub proof fn lemma_units_order(a: int, b: int)
    requires
        0 <= a,
        0 <= b,
    ensures
        a <= b <==> units(a) <= units(b),
        a < b <==> units(a) < units(b),
        0 <= units(a),
        units(a) == 0 <==> a == 0,
{
    assert(units(0) == 0);
    if a < b {
        lemma_units_monotone(a, b);
    } else if b < a {
        lemma_units_monotone(b, a);
    }
    if a > 0 {
        lemma_units_monotone(0, a);
    }
}

/// How to read a whole number off its pattern: if its significand is `n` shifted
/// left by as many places as the exponent falls short of 150, it stands for `n`.
pub proof fn lemma_whole(pattern: int, n: int)
    requires
        0 <= pattern,
        127 <= pattern / 0x80_0000 <= 150,
        (0x80_0000 + pattern % 0x80_0000) == n * pow2((150 - pattern / 0x80_0000) as nat),
    ensures
        units(pattern) == whole(n),
{
    let e = pattern / 0x80_0000;
    lemma_pow2_adds((150 - e) as nat, (e - 1) as nat);
    let a = pow2((150 - e) as nat) as int;
    let b = pow2((e - 1) as nat) as int;
    assert(n * a * b == n * (a * b)) by (nonlinear_arith);
}

/// `a <= b` of two numbers neither of which is NaN.
pub open spec fn at_most(a: Scalar, b: Scalar) -> bool {
    !is_nan(a) && !is_nan(b) && value(a) <= value(b)
}

/// `a < b` of two numbers neither of which is NaN.
pub open spec fn below(a: Scalar, b: Scalar) -> bool {
    !is_nan(a) && !is_nan(b) && value(a) < value(b)
}

/// `s` moved into `low..=high`; NaN stays NaN.
pub open spec fn clamped(s: Scalar, low: Scalar, high: Scalar) -> Scalar {
    if below(s, low) {
        low
    } else if below(high, s) {
        high
    } else {
        s
    }
}

impl Scalar {
    pub fn new(bits: u32) -> (s: Scalar)
        ensures
            s.bits == bits,
    {
        Scalar { bits }
    }

    pub fn is_finite(self) -> (r: bool)
        ensures
            r == is_finite(self),
    {
        self.bits % 0x8000_0000 < 0x7f80_0000
    }

    pub fn is_nan(self) -> (r: bool)
        ensures
            r == is_nan(self),
    {
        self.bits % 0x8000_0000 > 0x7f80_0000
    }

    /// Whether the number is finite and at most `limit` away from zero.
    pub fn within(self, limit: Scalar) -> (r: bool)
        requires
            is_finite(limit),
            !negative(limit),
        ensures
            r == within(self, value(limit)),
    {
        proof {
            lemma_units_order(magnitude(self), magnitude(limit));
        }
        self.is_finite() && self.bits % 0x8000_0000 <= limit.bits
    }

    /// `self <= other`; false when either is NaN.
    pub fn at_most(self, other: Scalar) -> (r: bool)
        ensures
            r == at_most(self, other),
    {
        let a: u32 = self.bits % 0x8000_0000;
        let b: u32 = other.bits % 0x8000_0000;
        proof {
            lemma_units_order(a as int, b as int);
            lemma_units_order(b as int, a as int);
        }
        if self.is_nan() || other.is_nan() {
            false
        } else if self.bits >= 0x8000_0000 {
            if other.bits >= 0x8000_0000 {
                b <= a
            } else {
                true
            }
        } else if other.bits >= 0x8000_0000 {
            a == 0 && b == 0
        } else {
            a <= b
        }
    }

    /// `self < other`; false when either is NaN.
    pub fn below(self, other: Scalar) -> (r: bool)
        ensures
            r == below(self, other),
    {
        !self.is_nan() && !other.is_nan() && !other.at_most(self)
    }

    /// `self` moved into `low..=high`; NaN stays NaN.
    pub fn clamp(self, low: Scalar, high: Scalar) -> (r: Scalar)
        ensures
            r == clamped(self, low, high),
    {
        if self.below(low) {
            low
        } else if high.below(self) {
            high
        } else {
            self
        }
    }
}

/// A number that is not NaN lands inside the interval it is clamped to.
pub proof fn lemma_clamped_inside(s: Scalar, low: Scalar, high: Scalar)
    requires
        !is_nan(s),
        at_most(low, high),
    ensures
        at_most(low, clamped(s, low, high)),
        at_most(clamped(s, low, high), high),
        at_most(low, s) && at_most(s, high) ==> clamped(s, low, high) == s,
{
}

} // verus!
