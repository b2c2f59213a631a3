//! Vectors, rays, planes and ray hits.
use vstd::prelude::*;
use core::ops::Neg;
use crate::fixed::{Fixed, SCALE, one};
use crate::random::draw_between;

verus! {

/// `num` clipped to the interval `[0, 1]`.
pub fn clamp(num: Fixed) -> (r: Fixed)
    ensures
        r == num.unit_clamped(),
{
    if num.raw < 0 {
        Fixed { raw: 0 }
    } else if num.raw > SCALE {
        Fixed { raw: SCALE }
    } else {
        num
    }
}

/// A vector of three coordinates, also used for colours.
#[derive(Clone, Copy, Debug, PartialEq, Eq, Structural)]
pub struct Vector {
    pub x: Fixed,
    pub y: Fixed,
    pub z: Fixed,
}

impl Vector {
    pub open spec fn sum(self, o: Vector) -> Vector {
        Vector { x: self.x.plus(o.x), y: self.y.plus(o.y), z: self.z.plus(o.z) }
    }

    pub open spec fn diff(self, o: Vector) -> Vector {
        Vector { x: self.x.minus(o.x), y: self.y.minus(o.y), z: self.z.minus(o.z) }
    }

    /// Component-wise product.
    pub open spec fn prod(self, o: Vector) -> Vector {
        Vector { x: self.x.times(o.x), y: self.y.times(o.y), z: self.z.times(o.z) }
    }

    /// Component-wise quotient.
    pub open spec fn quot(self, o: Vector) -> Vector {
        Vector { x: self.x.over(o.x), y: self.y.over(o.y), z: self.z.over(o.z) }
    }

    pub open spec fn scaled(self, s: Fixed) -> Vector {
        Vector { x: self.x.times(s), y: self.y.times(s), z: self.z.times(s) }
    }

    /// Division by a scalar, as multiplication by its reciprocal.
    pub open spec fn shrunk(self, s: Fixed) -> Vector {
        self.scaled(one().over(s))
    }

    pub open spec fn opposite(self) -> Vector {
        Vector { x: self.x.negated(), y: self.y.negated(), z: self.z.negated() }
    }

    pub open spec fn dot_with(self, o: Vector) -> Fixed {
        self.x.times(o.x).plus(self.y.times(o.y)).plus(self.z.times(o.z))
    }

    pub open spec fn cross_with(self, o: Vector) -> Vector {
        Vector {
            x: self.y.times(o.z).minus(self.z.times(o.y)),
            y: self.x.times(o.z).minus(self.z.times(o.x)).negated(),
            z: self.x.times(o.y).minus(self.y.times(o.x)),
        }
    }

    pub open spec fn len_sq(self) -> Fixed {
        self.dot_with(self)
    }

    pub open spec fn length(self) -> Fixed {
        self.len_sq().root()
    }

    /// The vector rescaled to magnitude `len`.
    pub open spec fn resized(self, len: Fixed) -> Vector {
        self.scaled(len.over(self.length()))
    }

    /// The vector rescaled to magnitude one.
    pub open spec fn unit(self) -> Vector {
        self.scaled(one().over(self.length()))
    }

    pub open spec fn clamped(self) -> Vector {
        Vector { x: self.x.unit_clamped(), y: self.y.unit_clamped(), z: self.z.unit_clamped() }
    }

    pub fn new(x: Fixed, y: Fixed, z: Fixed) -> (r: Vector)
        ensures
            r == (Vector { x, y, z }),
    {
        Vector { x, y, z }
    }

    pub fn len_squared(&self) -> (r: Fixed)
        ensures
            r == self.len_sq(),
    {
        self.x * self.x + self.y * self.y + self.z * self.z
    }

    pub fn len(&self) -> (r: Fixed)
        ensures
            r == self.length(),
    {
        self.len_squared().sqrt()
    }

    pub fn to_len(&self, len: Fixed) -> (r: Vector)
        ensures
            r == self.resized(len),
    {
        let current_len = self.len();
        let len_ratio = len / current_len;
        *self * len_ratio
    }

    pub fn to_unit(&self) -> (r: Vector)
        ensures
            r == self.unit(),
    {
        *self * (Fixed { raw: SCALE } / self.len())
    }

    pub fn dot(&self, other: &Vector) -> (r: Fixed)
        ensures
            r == self.dot_with(*other),
    {
        self.x * other.x + self.y * other.y + self.z * other.z
    }

    pub fn cross(&self, other: &Vector) -> (r: Vector)
        ensures
            r == self.cross_with(*other),
    {
        Vector {
            x: self.y * other.z - self.z * other.y,
            y: (self.x * other.z - self.z * other.x).neg(),
            z: self.x * other.y - self.y * other.x,
        }
    }

    /// Each component clipped to `[0, 1]`, as for a colour.
    pub fn clamp(&self) -> (r: Vector)
        ensures
            r == self.clamped(),
    {
        Vector { x: clamp(self.x), y: clamp(self.y), z: clamp(self.z) }
    }

    /// A random direction of magnitude one: three coordinates drawn from
    /// `[-1, 1)`, rescaled.
    pub fn rand(rng: &mut rand::StdRng) -> (r: Vector)
        ensures
            exists|v: Vector|
                -SCALE <= v.x.raw < SCALE && -SCALE <= v.y.raw < SCALE && -SCALE <= v.z.raw < SCALE
                    && r == v.unit(),
    {
        let x = draw_between(rng, -SCALE, SCALE);
        let y = draw_between(rng, -SCALE, SCALE);
        let z = draw_between(rng, -SCALE, SCALE);
        let v = Vector { x: Fixed { raw: x }, y: Fixed { raw: y }, z: Fixed { raw: z } };
        v.to_unit()
    }
}

impl core::ops::Add for Vector {
    type Output = Vector;

    fn add(self, other: Vector) -> (r: Vector) {
        Vector { x: self.x + other.x, y: self.y + other.y, z: self.z + other.z }
    }
}

impl vstd::std_specs::ops::AddSpecImpl for Vector {
    open spec fn obeys_add_spec() -> bool {
        true
    }

    open spec fn add_req(self, o: Vector) -> bool {
        true
    }

    open spec fn add_spec(self, o: Vector) -> Vector {
        self.sum(o)
    }
}

impl core::ops::Sub for Vector {
    type Output = Vector;

    fn sub(self, other: Vector) -> (r: Vector) {
        Vector { x: self.x - other.x, y: self.y - other.y, z: self.z - other.z }
    }
}

impl vstd::std_specs::ops::SubSpecImpl for Vector {
    open spec fn obeys_sub_spec() -> bool {
        true
    }

    open spec fn sub_req(self, o: Vector) -> bool {
        true
    }

    open spec fn sub_spec(self, o: Vector) -> Vector {
        self.diff(o)
    }
}

impl core::ops::Mul<Vector> for Vector {
    type Output = Vector;

    fn mul(self, other: Vector) -> (r: Vector) {
        Vector { x: self.x * other.x, y: self.y * other.y, z: self.z * other.z }
    }
}

impl vstd::std_specs::ops::MulSpecImpl<Vector> for Vector {
    open spec fn obeys_mul_spec() -> bool {
        true
    }

    open spec fn mul_req(self, o: Vector) -> bool {
        true
    }

    open spec fn mul_spec(self, o: Vector) -> Vector {
        self.prod(o)
    }
}

impl core::ops::Div<Vector> for Vector {
    type Output = Vector;

    fn div(self, other: Vector) -> (r: Vector) {
        Vector { x: self.x / other.x, y: self.y / other.y, z: self.z / other.z }
    }
}

impl vstd::std_specs::ops::DivSpecImpl<Vector> for Vector {
    open spec fn obeys_div_spec() -> bool {
        true
    }

    open spec fn div_req(self, o: Vector) -> bool {
        true
    }

    open spec fn div_spec(self, o: Vector) -> Vector {
        self.quot(o)
    }
}

impl core::ops::Mul<Fixed> for Vector {
    type Output = Vector;

    fn mul(self, s: Fixed) -> (r: Vector) {
        Vector { x: self.x * s, y: self.y * s, z: self.z * s }
    }
}

impl vstd::std_specs::ops::MulSpecImpl<Fixed> for Vector {
    open spec fn obeys_mul_spec() -> bool {
        true
    }

    open spec fn mul_req(self, s: Fixed) -> bool {
        true
    }

    open spec fn mul_spec(self, s: Fixed) -> Vector {
        self.scaled(s)
    }
}

impl core::ops::Div<Fixed> for Vector {
    type Output = Vector;

    fn div(self, s: Fixed) -> (r: Vector) {
        let inv = Fixed { raw: SCALE } / s;
        self * inv
    }
}

impl vstd::std_specs::ops::DivSpecImpl<Fixed> for Vector {
    open spec fn obeys_div_spec() -> bool {
        true
    }

    open spec fn div_req(self, s: Fixed) -> bool {
        true
    }

    open spec fn div_spec(self, s: Fixed) -> Vector {
        self.shrunk(s)
    }
}

impl core::ops::Neg for Vector {
    type Output = Vector;

    fn neg(self) -> (r: Vector) {
        Vector { x: self.x.neg(), y: self.y.neg(), z: self.z.neg() }
    }
}

impl vstd::std_specs::ops::NegSpecImpl for Vector {
    open spec fn obeys_neg_spec() -> bool {
        true
    }

    open spec fn neg_req(self) -> bool {
        true
    }

    open spec fn neg_spec(self) -> Vector {
        self.opposite()
    }
}

/// A half-line from `origin` along `dir`; `dir`'s magnitude is the ray's reach.
#[derive(Clone, Copy, Debug, PartialEq, Eq, Structural)]
pub struct Ray {
    pub origin: Vector,
    pub dir: Vector,
}

impl Ray {
    /// The point `origin + dir * t`.
    pub open spec fn at(self, t: Fixed) -> Vector {
        self.origin.sum(self.dir.scaled(t))
    }

    pub fn new(origin: Vector, dir: Vector) -> (r: Ray)
        ensures
            r == (Ray { origin, dir }),
    {
        Ray { origin, dir }
    }

    pub fn interp(&self, t: Fixed) -> (r: Vector)
        ensures
            r == self.at(t),
    {
        self.origin + self.dir * t
    }

    pub fn end(&self) -> (r: Vector)
        ensures
            r == self.origin.sum(self.dir),
    {
        self.origin + self.dir
    }

    pub fn to_unit(&self) -> (r: Ray)
        ensures
            r == (Ray { origin: self.origin, dir: self.dir.unit() }),
    {
        Ray { origin: self.origin, dir: self.dir.to_unit() }
    }

    pub fn len(&self) -> (r: Fixed)
        ensures
            r == self.dir.length(),
    {
        self.dir.len()
    }

    pub fn len_squared(&self) -> (r: Fixed)
        ensures
            r == self.dir.len_sq(),
    {
        self.dir.len_squared()
    }

    pub fn to_len(&self, len: Fixed) -> (r: Ray)
        ensures
            r == (Ray { origin: self.origin, dir: self.dir.resized(len) }),
    {
        let current_len = self.len();
        let len_ratio = len / current_len;
        Ray { origin: self.origin, dir: self.dir * len_ratio }
    }
}

/// The parallelogram `origin + u * us + v * vs` for `us`, `vs` in `[0, 1]`.
#[derive(Clone, Copy, Debug, PartialEq, Eq, Structural)]
pub struct Plane {
    pub origin: Vector,
    pub u: Vector,
    pub v: Vector,
}

impl Plane {
    pub open spec fn at(self, us: Fixed, vs: Fixed) -> Vector {
        self.origin.sum(self.u.scaled(us)).sum(self.v.scaled(vs))
    }

    pub fn new(origin: Vector, u: Vector, v: Vector) -> (r: Plane)
        ensures
            r == (Plane { origin, u, v }),
    {
        Plane { origin, u, v }
    }

    pub fn interp(&self, us: Fixed, vs: Fixed) -> (r: Vector)
        ensures
            r == self.at(us, vs),
    {
        self.origin + self.u * us + self.v * vs
    }
}

/// Where a ray meets a surface, and the surface's material there.
#[derive(Clone, Copy, Debug, PartialEq, Eq, Structural)]
pub struct Intersection {
    /// The hit's parameter along the ray that found it.
    pub t: Fixed,
    pub position: Vector,
    /// The surface normal, not rescaled.
    pub normal: Vector,
    pub color: Vector,
    pub reflectivity: Fixed,
    /// The specular exponent.
    pub exponent: u32,
}

} // verus!
