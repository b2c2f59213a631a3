//! Cameras, lights and scenes: casting rays and shading what they hit.
use vstd::prelude::*;
use core::ops::Neg;
use crate::fixed::{Fixed, SCALE, one, zero};
use crate::geom::{clamp, Vector, Ray, Plane, Intersection};
use crate::shape::Shape;
use crate::canvas::{pixel_at, pixel_start, rgba, well_formed};

verus! {

/// The number one half.
pub open spec fn half() -> Fixed {
    Fixed { raw: (SCALE / 2) as i64 }
}

pub open spec fn zero_vector() -> Vector {
    Vector { x: zero(), y: zero(), z: zero() }
}

/// One colour channel in `0..=255`: the value clipped to `[0, 1]`, times 255,
/// rounded down.
pub open spec fn channel(f: Fixed) -> u8 {
    (f.unit_clamped().raw * 255 / (SCALE as int)) as u8
}

/// The opaque pixel colour for the colour vector `v`.
pub open spec fn color_of(v: Vector) -> raster::Color {
    raster::Color { r: channel(v.x), g: channel(v.y), b: channel(v.z), a: 255 }
}

fn channel_of(f: Fixed) -> (r: u8)
    ensures
        r == channel(f),
{
    let c = clamp(f);
    proof {
        vstd::arithmetic::div_mod::lemma_div_is_ordered(c.raw * 255, SCALE * 255, SCALE as int);
        vstd::arithmetic::div_mod::lemma_div_by_multiple(255, SCALE as int);
        vstd::arithmetic::div_mod::lemma_div_pos_is_pos(c.raw * 255, SCALE as int);
    }
    ((c.raw * 255) / SCALE) as u8
}

/// The pixel colour for `vector`: each component clipped to `[0, 1]` and
/// scaled to `0..=255`, fully opaque.
pub fn vector_to_color(vector: &Vector) -> (r: raster::Color)
    ensures
        r == color_of(*vector),
{
    let clamped = vector.clamp();
    let r = channel_of(clamped.x);
    let g = channel_of(clamped.y);
    let b = channel_of(clamped.z);
    raster::Color { r, g, b, a: 255 }
}

/// `v` mirrored about the unit normal `n`: `v - 2 (n . v) n`.
pub open spec fn mirrored(v: Vector, n: Vector) -> Vector {
    v.diff(n.scaled(Fixed::int_value(2)).scaled(n.dot_with(v)))
}

/// A pinhole camera looking along `eye.dir` from `eye.origin`.
#[derive(Clone, Copy, Debug, PartialEq, Eq, Structural)]
pub struct Camera {
    pub up: Vector,
    pub near_dist: Fixed,
    pub far_dist: Fixed,
    pub eye: Ray,
    pub frust_width: Fixed,
    pub frust_height: Fixed,
}

impl Camera {
    /// The eye ray rescaled to reach the middle of the near plane.
    pub open spec fn to_center(self) -> Ray {
        Ray { origin: self.eye.origin, dir: self.eye.dir.resized(self.near_dist) }
    }

    /// The middle of the near plane.
    pub open spec fn view_center(self) -> Vector {
        self.to_center().origin.sum(self.to_center().dir)
    }

    /// The near plane's horizontal edge: across the view, `frust_width` long.
    pub open spec fn right_side(self) -> Vector {
        self.to_center().dir.cross_with(self.up).resized(self.frust_width)
    }

    /// The near plane's vertical edge: square to the view and to the
    /// horizontal edge, `frust_height` long.
    pub open spec fn up_side(self) -> Vector {
        self.right_side().cross_with(self.to_center().dir).resized(self.frust_height)
    }

    /// The near plane, anchored at its bottom-left corner.
    pub open spec fn view_plane(self) -> Plane {
        let two = Fixed::int_value(2);
        Plane {
            origin: self.view_center().diff(self.right_side().shrunk(two)).diff(
                self.up_side().shrunk(two),
            ),
            u: self.right_side(),
            v: self.up_side(),
        }
    }

    /// The rectangle that rays are cast through: `near_dist` ahead of the eye,
    /// `frust_width` by `frust_height`, from its bottom-left corner.
    pub fn near_plane(&self) -> (r: Plane)
        ensures
            r == self.view_plane(),
    {
        let eye_to_center = self.eye.to_len(self.near_dist);
        let right_dir = eye_to_center.dir.cross(&self.up).to_len(self.frust_width);
        let up_dir = right_dir.cross(&eye_to_center.dir).to_len(self.frust_height);
        let center = eye_to_center.end();
        let two = Fixed::from_int(2);
        let bottom_left = center - (right_dir / two) - (up_dir / two);
        Plane::new(bottom_left, right_dir, up_dir)
    }

    /// Turns the camera toward `point`: the eye's direction becomes
    /// `point - eye.origin`, not rescaled; nothing else changes.
    pub fn look_at(&mut self, point: Vector)
        ensures
            final(self).eye.origin == old(self).eye.origin,
            final(self).eye.dir == point.diff(old(self).eye.origin),
            *final(self) == (Camera { eye: final(self).eye, ..*old(self) }),
    {
        let origin = self.eye.origin;
        self.eye = Ray::new(origin, point - origin);
    }
}

/// Every raw coordinate of `v` lies in `[-m, m]`.
pub open spec fn within(v: Vector, m: int) -> bool {
    -m <= v.x.raw <= m && -m <= v.y.raw <= m && -m <= v.z.raw <= m
}

/// The middle of the near plane, at `(1/2, 1/2)`, is the point `near_dist`
/// ahead of the eye along its direction, whatever the frustum's width and
/// height, so long as no coordinate on the way saturates.
pub proof fn lemma_near_plane_middle(cam: Camera)
    requires
        within(cam.view_center(), 0x2000_0000_0000_0000),
        within(cam.right_side().shrunk(Fixed::int_value(2)), 0x2000_0000_0000_0000),
        within(cam.up_side().shrunk(Fixed::int_value(2)), 0x2000_0000_0000_0000),
    ensures
        cam.view_plane().at(half(), half()) == cam.view_center(),
{
    assert(Fixed::int_value(2).raw == 2097152);
    assert(1099511627776int / 2097152int == 524288int);
    assert(one().over(Fixed::int_value(2)) == half());
}

/// A point light.
#[derive(Clone, Copy, Debug, PartialEq, Eq, Structural)]
pub struct Light {
    pub position: Vector,
    pub color: Vector,
    /// Intensity at unit distance; it falls off with the square of distance.
    pub brightness: Fixed,
}

/// What the light sheds on the hit: its colour weighted by the cosine of the
/// angle of incidence and clipped to `[0, 1]`, divided by the squared
/// distance, times the brightness.
pub open spec fn diffuse(light: Light, hit: Intersection) -> Vector {
    let to_light = light.position.diff(hit.position);
    let cos = hit.normal.unit().dot_with(to_light.unit());
    light.color.scaled(cos).clamped().scaled(one().over(to_light.len_sq())).scaled(
        light.brightness,
    )
}

/// The light's highlight as seen along `ray`: its colour times the cosine
/// between the view and the mirrored light direction raised to the surface's
/// exponent, times the surface's reflectivity.
pub open spec fn specular(light: Light, hit: Intersection, ray: Ray) -> Vector {
    let to_light = light.position.diff(hit.position);
    let bounce = mirrored(to_light.unit().opposite(), hit.normal.unit()).unit();
    let cos = ray.dir.unit().opposite().dot_with(bounce);
    light.color.scaled(cos.power(hit.exponent as nat)).scaled(hit.reflectivity)
}

/// The nearest hit of `ray` among `shapes`: smallest `t`, the earlier shape
/// on a tie.
pub open spec fn nearest_hit(shapes: Seq<Shape>, ray: Ray) -> Option<Intersection>
    decreases shapes.len(),
{
    if shapes.len() == 0 {
        None
    } else {
        let prev = nearest_hit(shapes.drop_last(), ray);
        match shapes.last().hit(ray) {
            None => prev,
            Some(h) => match prev {
                None => Some(h),
                Some(c) => if h.t.raw < c.t.raw {
                    Some(h)
                } else {
                    prev
                },
            },
        }
    }
}

/// Some shape is hit by `ray`.
pub open spec fn blocked(shapes: Seq<Shape>, ray: Ray) -> bool {
    exists|i: int| 0 <= i < shapes.len() && (#[trigger] shapes[i].hit(ray)) is Some
}

/// Everything a frame shows, with the colours it uses where nothing is hit.
#[derive(Debug)]
pub struct Scene {
    pub color_background: Vector,
    pub color_ambient: Vector,
    pub camera: Camera,
    pub shapes: Vec<Shape>,
    pub lights: Vec<Light>,
    /// How many times a ray may be reflected.
    pub bounce_limit: u32,
}

impl Scene {
    /// The diffuse and specular sums over the first `n` lights, skipping each
    /// light that some shape hides from the hit; the specular sum is clipped
    /// to `[0, 1]` after each light.
    pub open spec fn shine(self, ray: Ray, hit: Intersection, n: nat) -> (Vector, Vector)
        decreases n,
    {
        if n == 0 {
            (zero_vector(), zero_vector())
        } else {
            let (tl, ts) = self.shine(ray, hit, (n - 1) as nat);
            let light = self.lights@[n - 1];
            if blocked(
                self.shapes@,
                Ray { origin: hit.position, dir: light.position.diff(hit.position) },
            ) {
                (tl, ts)
            } else {
                (tl.sum(diffuse(light, hit)), ts.sum(specular(light, hit, ray)).clamped())
            }
        }
    }

    /// The surface colour `base` under the ambient and the lights, plus the
    /// highlights.
    pub open spec fn lit(self, ray: Ray, hit: Intersection, base: Vector) -> Vector {
        let (tl, ts) = self.shine(ray, hit, self.lights@.len());
        base.prod(self.color_ambient.sum(tl)).sum(ts)
    }

    /// The ray reflected at the hit, `far_dist` long.
    pub open spec fn bounce_ray(self, ray: Ray, hit: Intersection) -> Ray {
        Ray {
            origin: hit.position,
            dir: mirrored(ray.dir.unit(), hit.normal.unit()).scaled(self.camera.far_dist),
        }
    }

    /// The colour seen along `ray` with at most `bounces` reflections: the
    /// background where nothing is hit; else the lit surface, whose colour
    /// is first blended toward what the reflected ray sees by the surface's
    /// reflectivity, where a bounce is left and the surface reflects.
    pub open spec fn trace(self, ray: Ray, bounces: nat) -> Vector
        decreases bounces,
    {
        match nearest_hit(self.shapes@, ray) {
            None => self.color_background,
            Some(h) => if bounces > 0 && h.reflectivity.raw > 0 {
                let seen = self.trace(self.bounce_ray(ray, h), (bounces - 1) as nat);
                self.lit(ray, h, h.color.sum(seen.diff(h.color).scaled(h.reflectivity)))
            } else {
                self.lit(ray, h, h.color)
            },
        }
    }

    /// The colour seen along `ray` by its own hit and lights alone.
    pub open spec fn direct(self, ray: Ray) -> Vector {
        match nearest_hit(self.shapes@, ray) {
            None => self.color_background,
            Some(h) => self.lit(ray, h, h.color),
        }
    }

    /// The ray through the middle of pixel `(x, y)` of a `w` by `h` grid laid
    /// on `plane`, from the plane on, `far_dist` long, away from the eye.
    pub open spec fn pixel_ray(self, plane: Plane, x: int, y: int, w: int, h: int) -> Ray {
        let xr = Fixed::int_value(x).plus(half()).over(Fixed::int_value(w));
        let yr = Fixed::int_value(y).plus(half()).over(Fixed::int_value(h));
        let plane_pos = plane.at(xr, yr);
        let eye_dir = plane_pos.diff(self.camera.eye.origin);
        Ray { origin: plane_pos, dir: eye_dir.scaled(self.camera.far_dist.over(eye_dir.length())) }
    }

    /// The colour of sample `(x, y)`, counted from the bottom-left, of a `w`
    /// by `h` rendering.
    pub open spec fn pixel_color(self, x: int, y: int, w: int, h: int) -> raster::Color {
        color_of(
            self.trace(
                self.pixel_ray(self.camera.view_plane(), x, y, w, h),
                self.bounce_limit as nat,
            ),
        )
    }

    /// With no bounce left the colour is the direct one, whatever the
    /// surfaces' reflectivity: the reflected ray is never traced.
    pub proof fn lemma_no_bounce_is_direct(self, ray: Ray)
        ensures
            self.trace(ray, 0) == self.direct(ray),
    {
    }

    /// The nearest hit of `ray` among the shapes.
    fn closest_hit(&self, ray: &Ray) -> (r: Option<Intersection>)
        ensures
            r == nearest_hit(self.shapes@, *ray),
    {
        let mut maybe_closest: Option<Intersection> = None;
        let n = self.shapes.len();
        let mut i: usize = 0;
        while i < n
            invariant
                n == self.shapes@.len(),
                i <= n,
                maybe_closest == nearest_hit(self.shapes@.subrange(0, i as int), *ray),
            decreases n - i,
        {
            let maybe_inter = self.shapes[i].intersect(ray);
            if let Some(new_inter) = maybe_inter {
                if let Some(closest) = maybe_closest {
                    if new_inter.t.raw < closest.t.raw {
                        maybe_closest = maybe_inter;
                    }
                } else {
                    maybe_closest = maybe_inter;
                }
            }
            proof {
                assert(self.shapes@.subrange(0, i + 1).drop_last() =~= self.shapes@.subrange(
                    0,
                    i as int,
                ));
            }
            i += 1;
        }
        proof {
            assert(self.shapes@.subrange(0, n as int) =~= self.shapes@);
        }
        maybe_closest
    }

    /// The diffuse and specular sums of all the lights at `closest`.
    fn light_sums(&self, ray: &Ray, closest: &Intersection) -> (r: (Vector, Vector))
        ensures
            r == self.shine(*ray, *closest, self.lights@.len()),
    {
        let two = Fixed::from_int(2);
        let zero = Fixed::from_raw(0);
        let mut total_light_color = Vector::new(zero, zero, zero);
        let mut total_specular_color = Vector::new(zero, zero, zero);
        let inter_pos = closest.position;
        let surface_normal_unit = closest.normal.to_unit();
        let mut k: usize = 0;
        while k < self.lights.len()
            invariant
                k <= self.lights@.len(),
                inter_pos == closest.position,
                surface_normal_unit == closest.normal.unit(),
                two == Fixed::int_value(2),
                (total_light_color, total_specular_color) == self.shine(*ray, *closest, k as nat),
            decreases self.lights@.len() - k,
        {
            let light = self.lights[k];
            let light_dir = light.position - inter_pos;
            let inter_to_light = Ray { origin: inter_pos, dir: light_dir };
            if !self.intersects(&inter_to_light) {
                let light_dir_unit = light_dir.to_unit();
                let cos_angle = surface_normal_unit.dot(&light_dir_unit);
                let delta_color = (light.color * cos_angle).clamp();
                let intensity = Fixed::from_raw(SCALE) / light_dir.len_squared();
                total_light_color = total_light_color + delta_color * intensity * light.brightness;

                let light_dir_unit = light_dir_unit.neg();
                let bounce = light_dir_unit - surface_normal_unit * two * surface_normal_unit.dot(
                    &light_dir_unit,
                );
                let bounce_unit = bounce.to_unit();
                let eye_dir_unit = ray.dir.to_unit().neg();
                let cos_angle = eye_dir_unit.dot(&bounce_unit);
                let specular = cos_angle.pow(closest.exponent);
                total_specular_color = (total_specular_color + light.color * specular
                    * closest.reflectivity).clamp();
            }
            k += 1;
        }
        (total_light_color, total_specular_color)
    }

    /// The colour seen along `ray` with at most `bounce_limit` reflections.
    pub fn trace_color(&self, ray: &Ray, bounce_limit: u32) -> (r: Vector)
        ensures
            r == self.trace(*ray, bounce_limit as nat),
        decreases bounce_limit,
    {
        if let Some(closest) = self.closest_hit(ray) {
            let ambient_color = self.color_ambient;
            let material_color = closest.color;
            let (total_light_color, total_specular_color) = self.light_sums(ray, &closest);
            let mut base_color = material_color;
            if bounce_limit != 0 && closest.reflectivity.raw > 0 {
                let two = Fixed::from_int(2);
                let surface_normal_unit = closest.normal.to_unit();
                let eye_dir_unit = ray.dir.to_unit();
                let bounce = eye_dir_unit - surface_normal_unit * two * surface_normal_unit.dot(
                    &eye_dir_unit,
                );
                let reflect_ray = Ray {
                    origin: closest.position,
                    dir: bounce * self.camera.far_dist,
                };
                let reflect_color = self.trace_color(&reflect_ray, bounce_limit - 1);
                let diff_color = reflect_color - base_color;
                base_color = base_color + diff_color * closest.reflectivity;
            }
            return base_color * (ambient_color + total_light_color) + total_specular_color;
        }
        self.color_background
    }

    /// Whether some shape is hit by `ray`.
    pub fn intersects(&self, ray: &Ray) -> (r: bool)
        ensures
            r == blocked(self.shapes@, *ray),
    {
        let mut i: usize = 0;
        while i < self.shapes.len()
            invariant
                i <= self.shapes@.len(),
                forall|j: int| 0 <= j < i ==> (#[trigger] self.shapes@[j].hit(*ray)) is None,
            decreases self.shapes@.len() - i,
        {
            if self.shapes[i].intersects(ray) {
                return true;
            }
            i += 1;
        }
        false
    }

    /// The colour of sample `(x, y)` of a `width` by `height` rendering.
    fn sample(&self, plane: &Plane, x: i32, y: i32, width: i32, height: i32) -> (r: raster::Color)
        requires
            *plane == self.camera.view_plane(),
        ensures
            r == self.pixel_color(x as int, y as int, width as int, height as int),
    {
        let one_half = Fixed::from_raw(SCALE / 2);
        let xr = (Fixed::from_int(x as i64) + one_half) / Fixed::from_int(width as i64);
        let yr = (Fixed::from_int(y as i64) + one_half) / Fixed::from_int(height as i64);
        let plane_pos = plane.interp(xr, yr);
        let eye_dir = plane_pos - self.camera.eye.origin;
        let z_diff = self.camera.far_dist / eye_dir.len();
        let eye_dir = eye_dir * z_diff;
        let ray = Ray { origin: plane_pos, dir: eye_dir };
        let color = self.trace_color(&ray, self.bounce_limit);
        vector_to_color(&color)
    }

    /// Renders the scene into `image`: pixel `(x, height - 1 - y)` gets the
    /// colour of sample `(x, y)`, so that the bottom sample row lands in the
    /// bottom image row.
    pub fn render(&self, image: &mut raster::Image)
        requires
            well_formed(*old(image)),
        ensures
            final(image).width == old(image).width,
            final(image).height == old(image).height,
            well_formed(*final(image)),
            forall|x: int, y: int|
                0 <= x < old(image).width && 0 <= y < old(image).height ==> pixel_at(
                    *final(image),
                    x,
                    old(image).height - 1 - y,
                ) == rgba(#[trigger] self.pixel_color(x, y, old(image).width as int, old(image).height as int)),
    {
        let width = image.width;
        let height = image.height;
        let plane = self.camera.near_plane();
        let mut y: i32 = 0;
        while y < height
            invariant
                0 <= y <= height,
                image.width == width,
                image.height == height,
                well_formed(*image),
                plane == self.camera.view_plane(),
                forall|px: int, py: int|
                    0 <= px < width && 0 <= py < y ==> pixel_at(*image, px, height - 1 - py) == rgba(
                        #[trigger] self.pixel_color(px, py, width as int, height as int),
                    ),
            decreases height - y,
        {
            let mut x: i32 = 0;
            while x < width
                invariant
                    0 <= y < height,
                    0 <= x <= width,
                    image.width == width,
                    image.height == height,
                    well_formed(*image),
                    plane == self.camera.view_plane(),
                    forall|px: int, py: int|
                        (0 <= px < width && 0 <= py < y) || (0 <= px < x && py == y) ==> pixel_at(
                            *image,
                            px,
                            height - 1 - py,
                        ) == rgba(
                            #[trigger] self.pixel_color(px, py, width as int, height as int),
                        ),
                decreases width - x,
            {
                let y2 = height - y - 1;
                let c = self.sample(&plane, x, y, width, height);
                proof {
                    lemma_pixel_in_image(width as int, height as int, x as int, y2 as int);
                }
                let ghost before = *image;
                // Cannot fail: the pixel lies inside the image.
                let _ = image.set_pixel(x, y2, c);
                proof {
                    lemma_write_pixel(before, *image, x as int, y2 as int, c);
                    assert forall|px: int, py: int|
                        (0 <= px < width && 0 <= py < y) || (0 <= px < x + 1 && py == y) implies
                        pixel_at(*image, px, height - 1 - py) == rgba(
                            #[trigger] self.pixel_color(px, py, width as int, height as int),
                        ) by {
                        if px != x || py != y {
                            assert(pixel_at(*image, px, height - 1 - py) == pixel_at(
                                before,
                                px,
                                height - 1 - py,
                            ));
                        }
                    }
                }
                x += 1;
            }
            y += 1;
        }
    }
}

/// Pixel `(x, y)` of a `w` by `h` image has its four bytes inside the buffer.
proof fn lemma_pixel_in_image(w: int, h: int, x: int, y: int)
    requires
        0 <= x < w,
        0 <= y < h,
    ensures
        0 <= pixel_start(w, x, y),
        pixel_start(w, x, y) + 4 <= 4 * (w * h),
{
    assert(0 <= y * w + x < w * h) by (nonlinear_arith)
        requires
            0 <= x < w,
            0 <= y < h,
    ;
}

/// Writing one pixel sets its four bytes and leaves every other pixel alone.
proof fn lemma_write_pixel(
    before: raster::Image,
    after: raster::Image,
    x: int,
    y: int,
    c: raster::Color,
)
    requires
        well_formed(before),
        0 <= x < before.width,
        0 <= y < before.height,
        after.width == before.width,
        after.height == before.height,
        after.bytes@ == before.bytes@.update(pixel_start(before.width as int, x, y), c.r).update(
            pixel_start(before.width as int, x, y) + 1,
            c.g,
        ).update(pixel_start(before.width as int, x, y) + 2, c.b).update(
            pixel_start(before.width as int, x, y) + 3,
            c.a,
        ),
    ensures
        well_formed(after),
        pixel_at(after, x, y) == rgba(c),
        forall|px: int, py: int|
            0 <= px < before.width && 0 <= py < before.height && (px != x || py != y)
                ==> #[trigger] pixel_at(after, px, py) == pixel_at(before, px, py),
{
    lemma_pixel_in_image(before.width as int, before.height as int, x, y);
    assert forall|px: int, py: int|
        0 <= px < before.width && 0 <= py < before.height && (px != x || py != y) implies
        #[trigger] pixel_at(after, px, py) == pixel_at(before, px, py) by {
        lemma_pixels_apart(before.width as int, before.height as int, px, py, x, y);
        lemma_pixel_in_image(before.width as int, before.height as int, px, py);
    }
}

/// The bytes of two different pixels do not overlap.
proof fn lemma_pixels_apart(w: int, h: int, x1: int, y1: int, x2: int, y2: int)
    requires
        0 <= x1 < w,
        0 <= y1 < h,
        0 <= x2 < w,
        0 <= y2 < h,
        x1 != x2 || y1 != y2,
    ensures
        pixel_start(w, x1, y1) + 4 <= pixel_start(w, x2, y2) || pixel_start(w, x2, y2) + 4
            <= pixel_start(w, x1, y1),
{
    if y1 < y2 {
        assert(y1 * w + x1 < y2 * w + x2) by (nonlinear_arith)
            requires
                0 <= x1 < w,
                0 <= x2,
                y1 < y2,
        ;
    } else if y2 < y1 {
        assert(y2 * w + x2 < y1 * w + x1) by (nonlinear_arith)
            requires
                0 <= x2 < w,
                0 <= x1,
                y2 < y1,
        ;
    }
}

} // verus!
