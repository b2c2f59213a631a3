//! Shapes that rays can hit.
use vstd::prelude::*;
use core::ops::Neg;
use crate::fixed::{Fixed, SCALE, lemma_root_bounded, lemma_square_below, lemma_times_nonneg};
use crate::geom::{Vector, Ray, Intersection};

verus! {

/// The smallest parameter, in raw units, at which a ray can hit a surface;
/// it keeps a ray cast from a surface from hitting that surface at once.
pub const EPSILON: i64 = 1;

/// A hit at parameter `t` counts: `t` lies in `[EPSILON, 1]`, so that a ray
/// reaches no farther than its direction vector.
pub open spec fn in_reach(t: Fixed) -> bool {
    EPSILON <= t.raw <= SCALE
}

/// A ball.
#[derive(Clone, Copy, Debug, PartialEq, Eq, Structural)]
pub struct Sphere {
    pub center: Vector,
    pub radius: Fixed,
    pub color: Vector,
    pub reflectivity: Fixed,
    /// The specular exponent.
    pub exponent: u32,
}

impl Sphere {
    /// The coefficients `(a, b, c)` of `a t^2 + b t + c = 0`, whose roots are
    /// where `ray` meets the sphere: `|origin + t dir - center|^2 = radius^2`.
    pub open spec fn quadratic(self, ray: Ray) -> (Fixed, Fixed, Fixed) {
        let h = ray.origin.diff(self.center);
        let a = ray.dir.dot_with(ray.dir);
        let b = Fixed::int_value(2).times(ray.dir.dot_with(h));
        let c = h.dot_with(h).minus(self.radius.times(self.radius));
        (a, b, c)
    }

    /// `b^2 - 4ac`.
    pub open spec fn discriminant(self, ray: Ray) -> Fixed {
        let (a, b, c) = self.quadratic(ray);
        b.times(b).minus(Fixed::int_value(4).times(a).times(c))
    }

    /// The smaller root, `(-b - sqrt(disc)) / 2a`.
    pub open spec fn near_root(self, ray: Ray) -> Fixed {
        let (a, b, c) = self.quadratic(ray);
        b.negated().minus(self.discriminant(ray).root()).over(Fixed::int_value(2).times(a))
    }

    /// The larger root, `(-b + sqrt(disc)) / 2a`.
    pub open spec fn far_root(self, ray: Ray) -> Fixed {
        let (a, b, c) = self.quadratic(ray);
        b.negated().plus(self.discriminant(ray).root()).over(Fixed::int_value(2).times(a))
    }

    /// The hit at `t`; `entering` tells whether the ray comes from outside,
    /// else the normal is turned to face the ray's origin inside.
    pub open spec fn hit_at(self, ray: Ray, t: Fixed, entering: bool) -> Intersection {
        let p = ray.at(t);
        Intersection {
            t,
            position: p,
            normal: if entering {
                p.diff(self.center)
            } else {
                p.diff(self.center).opposite()
            },
            color: self.color,
            reflectivity: self.reflectivity,
            exponent: self.exponent,
        }
    }

    /// No hit where the discriminant is negative; else the smaller root if it
    /// is at least `EPSILON`, else the larger one; either only if it is at most 1.
    pub open spec fn hit(self, ray: Ray) -> Option<Intersection> {
        if self.discriminant(ray).raw < 0 {
            None
        } else if self.near_root(ray).raw >= EPSILON {
            if self.near_root(ray).raw > SCALE {
                None
            } else {
                Some(self.hit_at(ray, self.near_root(ray), true))
            }
        } else if self.far_root(ray).raw >= EPSILON {
            if self.far_root(ray).raw > SCALE {
                None
            } else {
                Some(self.hit_at(ray, self.far_root(ray), false))
            }
        } else {
            None
        }
    }
}

impl Sphere {
    pub fn get_position(&self) -> (r: Vector)
        ensures
            r == self.center,
    {
        self.center
    }

    pub fn set_position(&mut self, pos: &Vector)
        ensures
            *final(self) == (Sphere { center: *pos, ..*old(self) }),
    {
        self.center = *pos;
    }

    /// Whether `intersect` finds a hit.
    pub fn intersects(&self, ray: &Ray) -> (r: bool)
        ensures
            r == self.hit(*ray).is_some(),
    {
        self.intersect(ray).is_some()
    }

    /// The nearest hit along `ray` that is in reach.
    pub fn intersect(&self, ray: &Ray) -> (r: Option<Intersection>)
        ensures
            r == self.hit(*ray),
            r matches Some(h) ==> in_reach(h.t),
            self.discriminant(*ray).raw < 0 ==> r is None,
            r matches Some(h) ==> h.position == ray.at(h.t) && (h.normal == h.position.diff(self.center)
                || h.normal == h.position.diff(self.center).opposite()),
    {
        let xd = ray.dir.x;
        let yd = ray.dir.y;
        let zd = ray.dir.z;

        let xc = self.center.x;
        let yc = self.center.y;
        let zc = self.center.z;

        let sr = self.radius;

        let x0 = ray.origin.x;
        let y0 = ray.origin.y;
        let z0 = ray.origin.z;

        let h = x0 - xc;
        let i = y0 - yc;
        let j = z0 - zc;

        let two = Fixed::from_int(2);
        let a = xd * xd + yd * yd + zd * zd;
        let b = two * (xd * h + yd * i + zd * j);
        let c = h * h + i * i + j * j - sr * sr;

        let discrim = b * b - Fixed::from_int(4) * a * c;
        if discrim.raw < 0 {
            return None;
        }
        let two_a = two * a;
        let sqrt_discrim = discrim.sqrt();
        let mut t = (b.neg() - sqrt_discrim) / two_a;
        let mut entering = true;
        if t.raw < EPSILON {
            t = (b.neg() + sqrt_discrim) / two_a;
            if t.raw < EPSILON {
                return None;
            }
            entering = false;
        }
        if t.raw > SCALE {
            return None;
        }
        let point_on_sphere = ray.interp(t);
        let normal = if entering {
            point_on_sphere - self.center
        } else {
            (point_on_sphere - self.center).neg()
        };
        Some(
            Intersection {
                t,
                position: point_on_sphere,
                normal,
                color: self.color,
                reflectivity: self.reflectivity,
                exponent: self.exponent,
            },
        )
    }
}

/// A ray that starts outside the sphere (`c > 0`) and heads away from its
/// centre (`b >= 0`) gets no hit: both roots come out below `EPSILON`.
pub proof fn lemma_heading_away_misses(s: Sphere, ray: Ray)
    requires
        s.quadratic(ray).2.raw > 0,
        s.quadratic(ray).1.raw >= 0,
    ensures
        s.hit(ray) is None,
{
    let (a, b, c) = s.quadratic(ray);
    let d = ray.dir;
    lemma_square_below(d.x);
    lemma_square_below(d.y);
    lemma_square_below(d.z);
    assert(a.raw >= 0);
    let four_a = Fixed::int_value(4).times(a);
    lemma_times_nonneg(Fixed::int_value(4), a);
    lemma_times_nonneg(four_a, c);
    lemma_square_below(b);
    let disc = s.discriminant(ray);
    assert(disc.raw <= b.times(b).raw);
    if disc.raw > 0 {
        assert(disc.raw * SCALE <= b.raw * b.raw);
        lemma_root_bounded(disc, b.raw as int);
    }
    let sq = disc.root();
    assert(0 <= sq.raw <= b.raw);
    let two_a = Fixed::int_value(2).times(a);
    lemma_times_nonneg(Fixed::int_value(2), a);
    let n1 = b.negated().minus(sq);
    let n2 = b.negated().plus(sq);
    assert(n1.raw <= 0 && n2.raw <= 0);
    if two_a.raw != 0 {
        vstd::arithmetic::div_mod::lemma_div_pos_is_pos(-n1.raw * SCALE, two_a.raw as int);
        vstd::arithmetic::div_mod::lemma_div_pos_is_pos(-n2.raw * SCALE, two_a.raw as int);
    }
    assert(s.near_root(ray).raw < EPSILON);
    assert(s.far_root(ray).raw < EPSILON);
}

/// An unbounded horizontal plane at the height of `position.y`, facing up.
#[derive(Clone, Copy, Debug, PartialEq, Eq, Structural)]
pub struct Floor {
    pub position: Vector,
    pub color: Vector,
    pub reflectivity: Fixed,
    /// The specular exponent.
    pub exponent: u32,
}

/// The upward unit vector, the floor's normal.
pub open spec fn up_unit() -> Vector {
    Vector { x: Fixed { raw: 0 }, y: Fixed { raw: SCALE }, z: Fixed { raw: 0 } }
}

impl Floor {
    /// Where `origin.y + t dir.y = position.y`.
    pub open spec fn crossing(self, ray: Ray) -> Fixed {
        self.position.y.minus(ray.origin.y).over(ray.dir.y)
    }

    /// No hit for a ray parallel to the floor; else the crossing, if in reach.
    pub open spec fn hit(self, ray: Ray) -> Option<Intersection> {
        if ray.dir.y.raw == 0 || !in_reach(self.crossing(ray)) {
            None
        } else {
            let t = self.crossing(ray);
            Some(
                Intersection {
                    t,
                    position: ray.at(t),
                    normal: up_unit(),
                    color: self.color,
                    reflectivity: self.reflectivity,
                    exponent: self.exponent,
                },
            )
        }
    }
}

impl Floor {
    pub fn get_position(&self) -> (r: Vector)
        ensures
            r == self.position,
    {
        self.position
    }

    pub fn set_position(&mut self, pos: &Vector)
        ensures
            *final(self) == (Floor { position: *pos, ..*old(self) }),
    {
        self.position = *pos;
    }

    /// Whether `intersect` finds a hit.
    pub fn intersects(&self, ray: &Ray) -> (r: bool)
        ensures
            r == self.hit(*ray).is_some(),
    {
        self.intersect(ray).is_some()
    }

    /// The crossing of `ray` with the floor, if in reach.
    pub fn intersect(&self, ray: &Ray) -> (r: Option<Intersection>)
        ensures
            r == self.hit(*ray),
            r matches Some(h) ==> in_reach(h.t),
            ray.dir.y.raw == 0 ==> r is None,
    {
        if ray.dir.y.raw == 0 {
            return None;
        }
        let t = (self.position.y - ray.origin.y) / ray.dir.y;
        if t.raw < EPSILON {
            return None;
        } else if t.raw > SCALE {
            return None;
        }
        Some(
            Intersection {
                t,
                position: ray.interp(t),
                normal: Vector { x: Fixed { raw: 0 }, y: Fixed { raw: SCALE }, z: Fixed { raw: 0 } },
                color: self.color,
                reflectivity: self.reflectivity,
                exponent: self.exponent,
            },
        )
    }
}

/// Any of the shapes a scene can hold.
#[derive(Clone, Copy, Debug, PartialEq, Eq, Structural)]
pub enum Shape {
    Sphere(Sphere),
    Floor(Floor),
}

impl Shape {
    /// The nearest hit along `ray` that is in reach, if any.
    pub open spec fn hit(self, ray: Ray) -> Option<Intersection> {
        match self {
            Shape::Sphere(s) => s.hit(ray),
            Shape::Floor(f) => f.hit(ray),
        }
    }

    /// The shape's position in the world.
    pub open spec fn position(self) -> Vector {
        match self {
            Shape::Sphere(s) => s.center,
            Shape::Floor(f) => f.position,
        }
    }

    pub fn get_position(&self) -> (r: Vector)
        ensures
            r == self.position(),
    {
        match self {
            Shape::Sphere(s) => s.get_position(),
            Shape::Floor(f) => f.get_position(),
        }
    }

    /// Moves the shape; nothing else about it changes.
    pub fn set_position(&mut self, pos: &Vector)
        ensures
            final(self).position() == *pos,
            match *old(self) {
                Shape::Sphere(s) => *final(self) == Shape::Sphere(Sphere { center: *pos, ..s }),
                Shape::Floor(f) => *final(self) == Shape::Floor(Floor { position: *pos, ..f }),
            },
    {
        match self {
            Shape::Sphere(s) => s.set_position(pos),
            Shape::Floor(f) => f.set_position(pos),
        }
    }

    pub fn intersect(&self, ray: &Ray) -> (r: Option<Intersection>)
        ensures
            r == self.hit(*ray),
            r matches Some(h) ==> in_reach(h.t),
    {
        match self {
            Shape::Sphere(s) => s.intersect(ray),
            Shape::Floor(f) => f.intersect(ray),
        }
    }

    /// Whether `intersect` finds a hit.
    pub fn intersects(&self, ray: &Ray) -> (r: bool)
        ensures
            r == self.hit(*ray).is_some(),
    {
        self.intersect(ray).is_some()
    }
}

} // verus!
