//! Random spawn points and headings for asteroids.
use vstd::prelude::*;
use crate::bounds::{ScreenBounds, MAX_HALF_EXTENT};
use crate::vector::{Vec2, to_length, near_length, abs, bounded};

verus! {

/// Relies on rand::random (rand 0.8): a value drawn from the thread-local
/// generator. Nothing is known of which value comes out. It panics only on
/// failures of the environment, which no argument can rule out: when the
/// operating system's random source cannot seed or reseed that generator, or
/// when registering its fork handler fails.
pub assume_specification<T>[ rand::random::<T> ]() -> (r: T)
    where
        rand::distributions::Standard: rand::distributions::Distribution<T>,
;

/// The offset in `-half..=half` that a draw of the generator selects.
pub fn offset_from_draw(draw: u64, half: i64) -> (r: i64)
    requires
        0 <= half <= MAX_HALF_EXTENT,
    ensures
        r == (draw as int) % (2 * half + 1) - half,
        -half <= r <= half,
{
    let span: u64 = (2 * half + 1) as u64;
    let pick: u64 = draw % span;
    pick as i64 - half
}

/// A random offset in `-half..=half`.
pub fn random_offset(half: i64) -> (r: i64)
    requires
        0 <= half <= MAX_HALF_EXTENT,
    ensures
        -half <= r <= half,
{
    let draw: u64 = rand::random::<u64>();
    offset_from_draw(draw, half)
}

/// A random point of the play field.
pub fn random_point(bounds: &ScreenBounds) -> (r: Vec2)
    requires
        bounds.wf(),
    ensures
        abs(r.x as int) <= bounds.half_width,
        abs(r.y as int) <= bounds.half_height,
        bounded(r),
{
    let x = random_offset(bounds.half_width);
    let y = random_offset(bounds.half_height);
    Vec2 { x, y }
}

/// `v` is a velocity of the given speed up to rounding, or zero (where the
/// direction was drawn from the origin itself).
pub open spec fn is_spawn_velocity(v: Vec2, speed: int) -> bool {
    (v.x == 0 && v.y == 0) || near_length(v, speed)
}

/// A velocity of length `speed` toward a random point of the field; should
/// that point be the origin, the velocity is zero.
pub fn random_velocity(bounds: &ScreenBounds, speed: u64) -> (r: Vec2)
    requires
        bounds.wf(),
        0 < speed < 0x400_0000,
    ensures
        is_spawn_velocity(r, speed as int),
        abs(r.x as int) <= speed,
        abs(r.y as int) <= speed,
{
    let p = random_point(bounds);
    to_length(p, speed)
}

} // verus!
