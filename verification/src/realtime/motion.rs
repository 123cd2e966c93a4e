//! Places in a space, and the way from one to another.

use crate::scalar::{self, Scalar};
use vstd::arithmetic::power2::*;
use vstd::prelude::*;

verus! {

/// The bits of `2_000.0`: how far a place may be from the middle, sideways.
pub const WORLD_BOUND_XZ_BITS: u32 = 0x44fa_0000;

/// The bits of `500.0`: how far a place may be from the middle, up or down.
pub const WORLD_BOUND_Y_BITS: u32 = 0x43fa_0000;

/// The bits of `1e-4`: two places this near to each other are one.
pub const NEAR_BITS: u32 = 0x38d1_b717;

/// The bits of `1e-6`: a step this short leads nowhere.
pub const SHORT_STEP_BITS: u32 = 0x3586_37bd;

/// The bits of `3.0`, the speed of a walk that names none.
pub const DEFAULT_SPEED_BITS: u32 = 0x4040_0000;

/// The bits of `0.1`, the slowest walk.
pub const MIN_SPEED_BITS: u32 = 0x3dcc_cccd;

/// The bits of `50.0`, the fastest walk.
pub const MAX_SPEED_BITS: u32 = 0x4248_0000;

/// A place.
#[derive(Clone, Copy, Debug, PartialEq, Eq, Structural)]
pub struct Point {
    pub x: Scalar,
    pub y: Scalar,
    pub z: Scalar,
}

/// A walk towards a place.
#[derive(Clone, Copy, Debug, PartialEq, Eq, Structural)]
pub struct Motion {
    pub target: Point,
    pub speed: Scalar,
}

/// The middle of a space.
pub open spec fn origin_point() -> Point {
    Point { x: Scalar { bits: 0 }, y: Scalar { bits: 0 }, z: Scalar { bits: 0 } }
}

/// The middle of a space.
pub fn origin() -> (r: Point)
    ensures
        r == origin_point(),
{
    Point { x: Scalar::new(0), y: Scalar::new(0), z: Scalar::new(0) }
}

/// Whether every coordinate is a finite number.
pub open spec fn finite_point(p: Point) -> bool {
    scalar::is_finite(p.x) && scalar::is_finite(p.y) && scalar::is_finite(p.z)
}

/// The place that a list of numbers names: three finite ones.
pub open spec fn point_of(v: Seq<Scalar>) -> Option<Point> {
    if v.len() == 3 && scalar::is_finite(v[0]) && scalar::is_finite(v[1]) && scalar::is_finite(
        v[2],
    ) {
        Some(Point { x: v[0], y: v[1], z: v[2] })
    } else {
        None
    }
}

/// Reads a place from a list of numbers.
pub fn to_vec3(v: &Vec<Scalar>) -> (r: Option<Point>)
    ensures
        r == point_of(v@),
{
    if v.len() == 3 && v[0].is_finite() && v[1].is_finite() && v[2].is_finite() {
        Some(Point { x: v[0], y: v[1], z: v[2] })
    } else {
        None
    }
}

/// Whether a place is in the world: at most 2000 from the middle along `x` and
/// `z`, and at most 500 along `y`.
pub open spec fn in_world(p: Point) -> bool {
    &&& scalar::within(p.x, scalar::whole(2_000))
    &&& scalar::within(p.y, scalar::whole(500))
    &&& scalar::within(p.z, scalar::whole(2_000))
}

/// The bounds of the world are 2000 and 500.
proof fn lemma_bounds()
    ensures
        scalar::value(Scalar { bits: WORLD_BOUND_XZ_BITS }) == scalar::whole(2_000),
        scalar::value(Scalar { bits: WORLD_BOUND_Y_BITS }) == scalar::whole(500),
{
    lemma2_to64();
    assert(pow2(13) == 8192);
    assert(pow2(15) == 32768);
    assert(0x44fa_0000int / 0x80_0000 == 137);
    assert(0x43fa_0000int / 0x80_0000 == 135);
    scalar::lemma_whole(0x44fa_0000, 2_000);
    scalar::lemma_whole(0x43fa_0000, 500);
}

/// Whether a place is in the world.
pub fn in_world_bounds(p: &Point) -> (r: bool)
    ensures
        r == in_world(*p),
{
    proof {
        lemma_bounds();
    }
    let sideways = Scalar::new(WORLD_BOUND_XZ_BITS);
    let upright = Scalar::new(WORLD_BOUND_Y_BITS);
    p.x.within(sideways) && p.z.within(sideways) && p.y.within(upright)
}

/// The speed of a walk: the one asked for, or 3, moved into `0.1..=50`.
pub open spec fn walking_speed(asked: Option<Scalar>) -> Scalar {
    let speed = match asked {
        Some(s) => s,
        None => Scalar { bits: DEFAULT_SPEED_BITS },
    };
    scalar::clamped(speed, Scalar { bits: MIN_SPEED_BITS }, Scalar { bits: MAX_SPEED_BITS })
}

/// The speed of a walk.
pub fn speed_for(asked: Option<Scalar>) -> (r: Scalar)
    ensures
        r == walking_speed(asked),
{
    let speed = match asked {
        Some(s) => s,
        None => Scalar::new(DEFAULT_SPEED_BITS),
    };
    speed.clamp(Scalar::new(MIN_SPEED_BITS), Scalar::new(MAX_SPEED_BITS))
}

/// What was measured of a walk at one tick: how far it still is to the target,
/// how far one tick leads, and the place one step along the way.
#[derive(Clone, Copy, Debug)]
pub struct Measured {
    pub dist: Scalar,
    pub step: Scalar,
    pub between: Point,
}

/// Whether a walk ends at this tick.
pub open spec fn arrives(m: Measured) -> bool {
    ||| scalar::at_most(m.dist, Scalar { bits: NEAR_BITS })
    ||| scalar::at_most(m.step, Scalar { bits: SHORT_STEP_BITS })
    ||| scalar::at_most(m.dist, m.step)
}

/// Whether a walk ends at this tick.
pub fn has_arrived(m: &Measured) -> (r: bool)
    ensures
        r == arrives(*m),
{
    m.dist.at_most(Scalar::new(NEAR_BITS)) || m.step.at_most(Scalar::new(SHORT_STEP_BITS))
        || m.dist.at_most(m.step)
}

/// No walk is slower than 0.1 or faster than 50, whatever number was asked for.
pub proof fn speeds_are_bounded(asked: Option<Scalar>)
    requires
        asked matches Some(s) ==> !scalar::is_nan(s),
    ensures
        scalar::at_most(Scalar { bits: MIN_SPEED_BITS }, walking_speed(asked)),
        scalar::at_most(walking_speed(asked), Scalar { bits: MAX_SPEED_BITS }),
{
    let low = Scalar { bits: MIN_SPEED_BITS };
    let high = Scalar { bits: MAX_SPEED_BITS };
    scalar::lemma_units_order(scalar::magnitude(low), scalar::magnitude(high));
    let speed = match asked {
        Some(s) => s,
        None => Scalar { bits: DEFAULT_SPEED_BITS },
    };
    scalar::lemma_clamped_inside(speed, low, high);
}

} // verus!
