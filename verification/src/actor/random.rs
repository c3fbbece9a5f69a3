use vstd::prelude::*;
use rand::Rng;
use crate::actor::fixed::{Fixed, SCALE};
use crate::actor::trig::TAU_RAW;
use crate::actor::vector2::Vector2;

verus! {

/// `rand::Rng::gen_range` on the generator of the current thread, over the
/// inclusive range `min..=max` of integers. An empty range makes it panic,
/// so the range must not be empty; whatever is drawn lies in the range.
#[verifier::external_body]
fn sample_inclusive(min: i64, max: i64) -> (r: i64)
    requires
        min <= max,
    ensures
        min <= r <= max,
{
    rand::thread_rng().gen_range(min..=max)
}

/// Random values for the game.
pub struct Random;

impl Random {
    /// A number drawn from `min..=max`.
    pub fn float_range(min: Fixed, max: Fixed) -> (r: Fixed)
        requires
            min@ <= max@,
        ensures
            min@ <= r@ <= max@,
    {
        Fixed::from_raw(sample_inclusive(min.raw(), max.raw()))
    }

    /// An integer drawn from `min..=max`.
    pub fn int_range(min: i32, max: i32) -> (r: i32)
        requires
            min <= max,
        ensures
            min <= r <= max,
    {
        sample_inclusive(min as i64, max as i64) as i32
    }

    /// A number drawn from between minus one and one.
    pub fn float() -> (r: Fixed)
        ensures
            -SCALE <= r@ <= SCALE,
    {
        Random::float_range(Fixed::one().neg(), Fixed::one())
    }

    /// A unit vector in a direction drawn from the full turn.
    pub fn vector() -> (v: Vector2)
        ensures
            exists|angle: Fixed| 0 <= angle@ <= TAU_RAW && v == Vector2::heading(angle),
    {
        let angle = Random::float_range(Fixed::zero(), Fixed::tau());
        Vector2::from_angle(angle)
    }

    /// A vector of the given length in a direction drawn from the full turn.
    pub fn vector_with_length(length: Fixed) -> (v: Vector2)
        ensures
            exists|angle: Fixed|
                0 <= angle@ <= TAU_RAW && v == Vector2::heading(angle).scaled(length),
    {
        let angle = Random::float_range(Fixed::zero(), Fixed::tau());
        Vector2::from_angle(angle) * length
    }

    /// A point drawn from the rectangle between the two corners.
    pub fn vector_in_rect(min_x: Fixed, max_x: Fixed, min_y: Fixed, max_y: Fixed) -> (v: Vector2)
        requires
            min_x@ <= max_x@,
            min_y@ <= max_y@,
        ensures
            min_x@ <= v.x@ <= max_x@,
            min_y@ <= v.y@ <= max_y@,
    {
        Vector2::new(Random::float_range(min_x, max_x), Random::float_range(min_y, max_y))
    }
}

} // verus!
