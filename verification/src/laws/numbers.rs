//! How numbers compare, and how they are drawn.

use crate::agents::rng::SimpleRng;
use crate::scalar::{self, Scalar};
use vstd::prelude::*;

verus! {

/// Whether a pattern is a number at all.
pub open spec fn is_number(s: Scalar) -> bool {
    s.bits % 0x8000_0000 <= 0x7f80_0000
}

/// Whether one number is less than another, read off their patterns: among those
/// without a sign the smaller pattern is the smaller number, among those with one
/// the greater, and either zero is the other.
pub open spec fn is_less(a: Scalar, b: Scalar) -> bool {
    &&& is_number(a) && is_number(b)
    &&& if a.bits < 0x8000_0000 {
        b.bits < 0x8000_0000 && a.bits < b.bits
    } else if b.bits < 0x8000_0000 {
        a.bits > 0x8000_0000 || b.bits > 0
    } else {
        a.bits > b.bits
    }
}

pub proof fn lemma_is_less(a: Scalar, b: Scalar)
    ensures
        scalar::below(a, b) <==> is_less(a, b),
        scalar::at_most(a, b) <==> is_number(a) && is_number(b) && !is_less(b, a),
{
    scalar::lemma_units_order(scalar::magnitude(a), scalar::magnitude(b));
    scalar::lemma_units_order(scalar::magnitude(b), scalar::magnitude(a));
}

/// Numbers compare as their patterns say, and what is no number compares with
/// nothing.
pub proof fn patterns_tell_the_order(a: Scalar, b: Scalar, below: bool, at_most: bool)
    requires
        call_ensures(Scalar::below, (a, b), below),
        call_ensures(Scalar::at_most, (a, b), at_most),
    ensures
        below <==> is_less(a, b),
        at_most <==> is_number(a) && is_number(b) && !is_less(b, a),
{
    lemma_is_less(a, b);
}

/// A number is within a limit exactly if it is finite and its pattern without the
/// sign is not above that of the limit.
pub proof fn limits_hold_on_both_sides(s: Scalar, limit: Scalar, r: bool, finite: bool, nan: bool)
    requires
        limit.bits < 0x7f80_0000,
        call_ensures(Scalar::within, (s, limit), r),
        call_ensures(Scalar::is_finite, (s,), finite),
        call_ensures(Scalar::is_nan, (s,), nan),
    ensures
        r <==> s.bits % 0x8000_0000 <= limit.bits,
        finite <==> s.bits % 0x8000_0000 < 0x7f80_0000,
        nan <==> !is_number(s),
{
    scalar::lemma_units_order(scalar::magnitude(s), scalar::magnitude(limit));
}

/// A clamped number is the nearest within the bounds: itself if it lies between
/// them, or the bound that it lies beyond.
pub proof fn clamping_ends_between_the_bounds(s: Scalar, low: Scalar, high: Scalar, r: Scalar)
    requires
        call_ensures(Scalar::clamp, (s, low, high), r),
        is_number(low),
        is_number(high),
        !is_less(high, low),
    ensures
        is_number(s) ==> is_number(r) && !is_less(r, low) && !is_less(high, r),
        !is_less(s, low) && !is_less(high, s) ==> r == s,
        is_less(s, low) ==> r == low,
        is_less(high, s) ==> r == high,
{
    lemma_is_less(s, low);
    lemma_is_less(high, s);
    lemma_is_less(high, low);
}

/// A draw lies in its range, where it is the next number of the generator counted
/// round; with no choice nothing is drawn. The generator follows its recurrence
/// from the seed that it was given.
pub proof fn draws_lie_in_their_range(
    seed: u64,
    fresh: SimpleRng,
    g: &mut SimpleRng,
    min: u64,
    max: u64,
    r: u64,
    h: &mut SimpleRng,
    n: u64,
)
    requires
        call_ensures(SimpleRng::new, (seed,), fresh),
        call_ensures(SimpleRng::gen_range_u64, (g, min, max), r),
        call_ensures(SimpleRng::next_u64, (h,), n),
    ensures
        fresh.state == seed,
        min <= max ==> min <= r <= max,
        max < min ==> r == min,
        max <= min ==> final(g).state == old(g).state,
        *old(h) == *old(g) && min < max ==> final(g).state == n && (r - min) % (max - min + 1) == n
            as int % (max - min + 1),
        final(h).state == n,
        n as int == (old(h).state * 6364136223846793005 + 1442695040888963407)
            % 0x1_0000_0000_0000_0000,
{
    if *old(h) == *old(g) && min < max {
        vstd::arithmetic::div_mod::lemma_small_mod(
            (n as int % (max - min + 1)) as nat,
            (max - min + 1) as nat,
        );
    }
}

} // verus!
