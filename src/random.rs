//! Random draws for building scenes.
use vstd::prelude::*;
use rand::Rng;
use crate::fixed::{Fixed, SCALE};
use crate::geom::Vector;
use crate::shape::Sphere;

verus! {

/// rand's standard generator, carried through unopened.
#[verifier::external_type_specification]
#[verifier::external_body]
pub struct ExStdRng(rand::StdRng);

/// Relies on rand's `Rng::gen_range` for `i64`: a value in `[low, high)`;
/// it panics unless `low < high`.
#[verifier::external_body]
pub(crate) fn draw_between(rng: &mut rand::StdRng, low: i64, high: i64) -> (r: i64)
    requires
        low < high,
    ensures
        low <= r < high,
{
    rng.gen_range(low, high)
}

/// A colour channel drawn from `[0.2, 1)`: `0.2 + u * 0.8` for `u` in `[0, 1)`.
pub open spec fn tint(u: Fixed) -> Fixed {
    Fixed::int_value(1).over(Fixed::int_value(5)).plus(
        u.times(Fixed::int_value(4).over(Fixed::int_value(5))),
    )
}

/// `u` lies in `[0, 1)`.
pub open spec fn in_unit(u: Fixed) -> bool {
    0 <= u.raw < SCALE
}

fn rand_tint(rng: &mut rand::StdRng) -> (r: Fixed)
    ensures
        exists|u: Fixed| in_unit(u) && r == tint(u),
{
    let u = Fixed::from_raw(draw_between(rng, 0, SCALE));
    let r = Fixed::from_ratio(1, 5) + u * Fixed::from_ratio(4, 5);
    assert(in_unit(u) && r == tint(u));
    r
}

/// A sphere at the origin with a radius drawn from `[min_radius,
/// max_radius)` and a colour whose channels are drawn from `[0.2, 1)`;
/// reflectivity one half, specular exponent 30.
pub fn rand_sphere(min_radius: Fixed, max_radius: Fixed, rng: &mut rand::StdRng) -> (r: Sphere)
    requires
        min_radius.raw < max_radius.raw,
    ensures
        min_radius.raw <= r.radius.raw < max_radius.raw,
        r.center == (Vector { x: Fixed { raw: 0 }, y: Fixed { raw: 0 }, z: Fixed { raw: 0 } }),
        exists|u: Fixed, v: Fixed, w: Fixed|
            in_unit(u) && in_unit(v) && in_unit(w) && r.color == (Vector {
                x: tint(u),
                y: tint(v),
                z: tint(w),
            }),
        r.reflectivity.raw == SCALE / 2,
        r.exponent == 30,
{
    let radius = Fixed::from_raw(draw_between(rng, min_radius.raw, max_radius.raw));
    let x = rand_tint(rng);
    let y = rand_tint(rng);
    let z = rand_tint(rng);
    let color = Vector { x, y, z };
    let zero = Fixed::from_raw(0);
    Sphere {
        center: Vector::new(zero, zero, zero),
        radius,
        color,
        reflectivity: Fixed::from_raw(SCALE / 2),
        exponent: 30,
    }
}

/// A point drawn from the box between `min_pos` and `max_pos`, each
/// coordinate from its half-open interval.
pub fn rand_vector(min_pos: Vector, max_pos: Vector, rng: &mut rand::StdRng) -> (r: Vector)
    requires
        min_pos.x.raw < max_pos.x.raw,
        min_pos.y.raw < max_pos.y.raw,
        min_pos.z.raw < max_pos.z.raw,
    ensures
        min_pos.x.raw <= r.x.raw < max_pos.x.raw,
        min_pos.y.raw <= r.y.raw < max_pos.y.raw,
        min_pos.z.raw <= r.z.raw < max_pos.z.raw,
{
    Vector {
        x: Fixed::from_raw(draw_between(rng, min_pos.x.raw, max_pos.x.raw)),
        y: Fixed::from_raw(draw_between(rng, min_pos.y.raw, max_pos.y.raw)),
        z: Fixed::from_raw(draw_between(rng, min_pos.z.raw, max_pos.z.raw)),
    }
}

} // verus!
