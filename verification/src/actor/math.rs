use vstd::prelude::*;
use crate::actor::fixed::Fixed;
use crate::actor::vector2::Vector2;
use crate::actor::trig::{PI_RAW, TAU_RAW, sine};

verus! {

/// The raw angle in the half-open turn from minus a half turn (excluded) to
/// a half turn (included) that differs from `a` by whole turns.
pub open spec fn wrapped(a: int) -> int {
    let m = a % (TAU_RAW as int);
    if m > PI_RAW {
        m - TAU_RAW
    } else {
        m
    }
}

/// Wrapping an angle keeps it within half a turn of zero, moves it by whole
/// turns only, and leaves its sine as it was.
pub proof fn lemma_wrapped(a: int)
    ensures
        -PI_RAW < wrapped(a) <= PI_RAW,
        (a - wrapped(a)) % (TAU_RAW as int) == 0,
        sine(wrapped(a)) == sine(a),
{
    reveal(sine);
}

/// Scalar helpers.
pub struct Math;

impl Math {
    /// Degrees to radians.
    pub fn to_rad(degrees: Fixed) -> (radians: Fixed)
        ensures
            radians == degrees.times(Fixed::of(PI_RAW as int)).over(Fixed::of(180_000_000)),
    {
        degrees * Fixed::pi() / Fixed::from_int(180)
    }

    /// Radians to degrees.
    pub fn to_deg(radians: Fixed) -> (degrees: Fixed)
        ensures
            degrees == radians.times(Fixed::of(180_000_000)).over(Fixed::of(PI_RAW as int)),
    {
        radians * Fixed::from_int(180) / Fixed::pi()
    }

    /// The same angle, brought to within half a turn of zero.
    pub fn normalize_angle(angle: Fixed) -> (result: Fixed)
        ensures
            result@ == wrapped(angle@),
            -PI_RAW < result@ <= PI_RAW,
    {
        let m: i64 = angle.raw() % TAU_RAW;
        let turn: i64 = if m < 0 {
            m + TAU_RAW
        } else {
            m
        };
        assert(turn == angle@ % (TAU_RAW as int));
        if turn > PI_RAW {
            Fixed::from_raw(turn - TAU_RAW)
        } else {
            Fixed::from_raw(turn)
        }
    }

    /// The point a fraction `f` of the way from `a` to `b`.
    pub fn lerp(a: Fixed, b: Fixed, f: Fixed) -> (r: Fixed)
        ensures
            r == a.plus(f.times(b.minus(a))),
    {
        a + f * (b - a)
    }

    /// The angle between the directions of two vectors: the magnitude of
    /// the difference of their angles.
    pub fn angle_between(v1: Vector2, v2: Vector2) -> (angle: Fixed)
        ensures
            angle == v2.y.atan2_spec(v2.x).minus(v1.y.atan2_spec(v1.x)).abs_spec(),
            0 <= angle@ <= 2 * PI_RAW,
    {
        (v2.y.atan2(v2.x) - v1.y.atan2(v1.x)).abs()
    }

    /// `value`, held between `min` and `max`.
    pub fn clamp(value: Fixed, min: Fixed, max: Fixed) -> (r: Fixed)
        ensures
            r == if value@ < min@ {
                min
            } else if value@ > max@ {
                max
            } else {
                value
            },
    {
        if value.lt(min) {
            min
        } else if value.gt(max) {
            max
        } else {
            value
        }
    }
}

} // verus!
