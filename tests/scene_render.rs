use rand::{SeedableRng, StdRng};
use ray_tracer::fixed::{Fixed, SCALE};
use ray_tracer::geom::{Ray, Vector};
use ray_tracer::random::{rand_sphere, rand_vector};
use ray_tracer::scene::{vector_to_color, Camera, Light, Scene};
use ray_tracer::shape::{Floor, Shape, Sphere};

fn whole(n: i64) -> Fixed {
    Fixed::from_int(n)
}

fn ratio(n: i64, d: i64) -> Fixed {
    Fixed::from_ratio(n, d)
}

fn vec3(x: i64, y: i64, z: i64) -> Vector {
    Vector::new(whole(x), whole(y), whole(z))
}

fn grey(n: i64, d: i64) -> Vector {
    Vector::new(ratio(n, d), ratio(n, d), ratio(n, d))
}

fn camera(frust: Fixed) -> Camera {
    Camera {
        up: vec3(0, 1, 0),
        near_dist: whole(1),
        far_dist: whole(100),
        eye: Ray::new(vec3(0, 0, 10), vec3(0, 0, -1)),
        frust_width: frust,
        frust_height: frust,
    }
}

fn ball(reflectivity: Fixed) -> Sphere {
    Sphere {
        center: vec3(0, 0, 0),
        radius: whole(5),
        color: Vector::new(ratio(1, 2), ratio(1, 4), whole(1)),
        reflectivity,
        exponent: 30,
    }
}

fn scene(frust: Fixed, shapes: Vec<Shape>, lights: Vec<Light>, bounce_limit: u32) -> Scene {
    Scene {
        color_background: grey(1, 5),
        color_ambient: grey(1, 10),
        camera: camera(frust),
        shapes,
        lights,
        bounce_limit,
    }
}

fn pixel(image: &raster::Image, x: i32, y: i32) -> (u8, u8, u8, u8) {
    let c = image.get_pixel(x, y).unwrap();
    (c.r, c.g, c.b, c.a)
}

#[test]
fn colours_are_clipped_and_scaled() {
    let c = vector_to_color(&Vector::new(ratio(1, 2), ratio(3, 2), whole(-1)));
    assert_eq!((c.r, c.g, c.b, c.a), (127, 255, 0, 255));
    let c = vector_to_color(&grey(1, 5));
    assert_eq!((c.r, c.g, c.b, c.a), (50, 50, 50, 255));
}

#[test]
fn near_plane_middle_is_ahead_of_the_eye() {
    for &(w, h) in [(16, 9), (3, 7), (1, 1)].iter() {
        let cam = Camera {
            up: vec3(0, 1, 0),
            near_dist: whole(4),
            far_dist: whole(1000),
            eye: Ray::new(vec3(1, 2, 3), vec3(0, 0, -2)),
            frust_width: whole(w),
            frust_height: whole(h),
        };
        let plane = cam.near_plane();
        assert_eq!(plane.interp(ratio(1, 2), ratio(1, 2)), vec3(1, 2, -1));
        assert_eq!(plane.interp(ratio(1, 2), ratio(1, 2)), cam.eye.to_len(cam.near_dist).end());
        // The edges have the frustum's size, up to rounding.
        assert!((plane.u.x.raw - w * SCALE).abs() < 16 && plane.u.y.raw == 0 && plane.u.z.raw == 0);
        assert!((plane.v.y.raw - h * SCALE).abs() < 16 && plane.v.x.raw == 0 && plane.v.z.raw == 0);
    }
}

#[test]
fn look_at_aims_without_moving() {
    let mut cam = camera(whole(1));
    cam.look_at(vec3(3, 4, 5));
    assert_eq!(cam.eye.origin, vec3(0, 0, 10));
    assert_eq!(cam.eye.dir, vec3(3, 4, -5));
    assert_eq!(cam.near_dist, whole(1));
    assert_eq!(cam.up, vec3(0, 1, 0));
}

#[test]
fn trace_without_bounces_shows_only_the_surface() {
    let s = scene(ratio(1, 10), vec![Shape::Sphere(ball(ratio(1, 2)))], Vec::new(), 3);
    let ray = Ray::new(vec3(0, 0, 9), vec3(0, 0, -100));
    let direct = ball(ratio(1, 2)).color * grey(1, 10);
    assert_eq!(s.trace_color(&ray, 0), direct);
    assert_eq!(direct, Vector::new(Fixed::from_raw(52428), Fixed::from_raw(26214), Fixed::from_raw(104857)));
}

#[test]
fn trace_of_a_miss_is_the_background() {
    let s = scene(ratio(1, 10), vec![Shape::Sphere(ball(whole(0)))], Vec::new(), 2);
    let ray = Ray::new(vec3(0, 20, 9), vec3(0, 0, -100));
    assert_eq!(s.trace_color(&ray, 2), grey(1, 5));
}

#[test]
fn reflection_blends_toward_what_is_seen() {
    // Looking down at a half-reflective floor under a sky that is all background.
    let floor = Floor { position: vec3(0, 0, 0), color: vec3(1, 0, 0), reflectivity: ratio(1, 2), exponent: 15 };
    let s = scene(ratio(1, 10), vec![Shape::Floor(floor)], Vec::new(), 1);
    let ray = Ray::new(vec3(0, 5, 0), vec3(0, -10, 0));
    // base = red + (background - red) / 2 = (0.6, 0.1, 0.1), times ambient 0.1
    let base = vec3(1, 0, 0) + (grey(1, 5) - vec3(1, 0, 0)) * ratio(1, 2);
    assert_eq!(s.trace_color(&ray, 1), base * grey(1, 10));
    assert_eq!(s.trace_color(&ray, 0), vec3(1, 0, 0) * grey(1, 10));
}

#[test]
fn a_light_brightens_and_a_blocker_shadows() {
    let floor = Floor { position: vec3(0, 0, 0), color: vec3(1, 1, 1), reflectivity: whole(0), exponent: 1 };
    let light = Light { position: vec3(0, 2, 0), color: vec3(1, 1, 1), brightness: whole(4) };
    let ray = Ray::new(vec3(0, 1, 0), vec3(0, -2, 0));
    let lit = scene(whole(1), vec![Shape::Floor(floor)], vec![light], 0);
    // cosine 1, distance 2: 1 * 1/4 * 4 = 1 added to the ambient 0.1
    let expected = vec3(1, 1, 1) * (grey(1, 10) + vec3(1, 1, 1));
    assert_eq!(lit.trace_color(&ray, 0), expected);
    let blocker = Sphere {
        center: vec3(0, 1, 0),
        radius: ratio(1, 4),
        color: vec3(0, 0, 1),
        reflectivity: whole(0),
        exponent: 1,
    };
    let shaded = scene(whole(1), vec![Shape::Floor(floor), Shape::Sphere(blocker)], vec![light], 0);
    // This ray passes beside the blocker and meets the floor at the origin,
    // right under the blocker, which hides the light.
    let slanted = Ray::new(vec3(1, 1, 0), vec3(-1, -1, 0));
    let unlit = vec3(1, 1, 1) * grey(1, 10);
    assert_eq!(shaded.trace_color(&slanted, 0), unlit);
    // Without the blocker the same hit is lit.
    assert!(lit.trace_color(&slanted, 0).x.raw > unlit.x.raw);
}

#[test]
fn render_paints_the_sphere_with_ambient_light() {
    let s = scene(ratio(1, 10), vec![Shape::Sphere(ball(whole(0)))], Vec::new(), 2);
    let mut image = raster::Image::blank(2, 2);
    s.render(&mut image);
    let expected = vector_to_color(&(ball(whole(0)).color * grey(1, 10)));
    let want = (expected.r, expected.g, expected.b, expected.a);
    assert_eq!(want, (12, 6, 25, 255));
    for y in 0..2 {
        for x in 0..2 {
            assert_eq!(pixel(&image, x, y), want);
        }
    }
}

#[test]
fn render_paints_misses_with_the_background() {
    let s = scene(whole(40), vec![Shape::Sphere(ball(whole(0)))], Vec::new(), 2);
    let mut image = raster::Image::blank(2, 2);
    s.render(&mut image);
    for y in 0..2 {
        for x in 0..2 {
            assert_eq!(pixel(&image, x, y), (50, 50, 50, 255));
        }
    }
}

#[test]
fn render_puts_the_bottom_row_at_the_bottom() {
    // A floor under the eye fills only the lower half of the view.
    let floor = Floor { position: vec3(0, -2, 0), color: vec3(1, 1, 1), reflectivity: whole(0), exponent: 1 };
    let s = scene(whole(4), vec![Shape::Floor(floor)], Vec::new(), 0);
    let mut image = raster::Image::blank(1, 2);
    s.render(&mut image);
    assert_eq!(pixel(&image, 0, 0), (50, 50, 50, 255));
    assert_eq!(pixel(&image, 0, 1), (25, 25, 25, 255));
}

#[test]
fn random_draws_stay_in_range() {
    let seed: &[usize] = &[1, 2, 3, 4];
    let mut rng: StdRng = SeedableRng::from_seed(seed);
    let mut seen = Vec::new();
    for _ in 0..20 {
        let v = rand_vector(vec3(-5, -5, -10), vec3(5, 5, 10), &mut rng);
        assert!(v.x.raw >= -5 * SCALE && v.x.raw < 5 * SCALE);
        assert!(v.y.raw >= -5 * SCALE && v.y.raw < 5 * SCALE);
        assert!(v.z.raw >= -10 * SCALE && v.z.raw < 10 * SCALE);
        seen.push(v);
        let s = rand_sphere(ratio(3, 10), whole(2), &mut rng);
        assert!(s.radius.raw >= ratio(3, 10).raw && s.radius.raw < 2 * SCALE);
        for c in [s.color.x, s.color.y, s.color.z].iter() {
            assert!(c.raw >= ratio(1, 5).raw && c.raw < SCALE);
        }
        assert_eq!(s.center, vec3(0, 0, 0));
        assert_eq!(s.exponent, 30);
        let u = Vector::rand(&mut rng);
        let len = u.len().raw;
        assert!(len > SCALE - SCALE / 100 && len < SCALE + SCALE / 100, "not a unit vector: {:?}", u);
    }
    assert!(seen.iter().any(|v| *v != seen[0]));
}
