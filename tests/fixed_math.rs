use ray_tracer::fixed::{Fixed, SCALE};
use ray_tracer::geom::{clamp, Plane, Ray, Vector};

fn whole(n: i64) -> Fixed {
    Fixed::from_int(n)
}

fn vec3(x: i64, y: i64, z: i64) -> Vector {
    Vector::new(whole(x), whole(y), whole(z))
}

#[test]
fn products_and_quotients_are_exact_on_whole_numbers() {
    assert_eq!(whole(2) * whole(3), whole(6));
    assert_eq!(whole(7) / whole(2), Fixed::from_raw(7 * SCALE / 2));
    assert_eq!(whole(-7) / whole(2), Fixed::from_raw(-7 * SCALE / 2));
    assert_eq!(whole(5) - whole(8), whole(-3));
    assert_eq!(-whole(4), whole(-4));
}

#[test]
fn fractions_round_toward_zero() {
    assert_eq!(Fixed::from_ratio(1, 10).raw, 104857);
    assert_eq!(Fixed::from_ratio(-1, 10).raw, -104857);
    assert_eq!(Fixed::from_ratio(1, 2).raw, SCALE / 2);
    assert_eq!((Fixed::from_ratio(1, 2) * Fixed::from_ratio(1, 10)).raw, 52428);
}

#[test]
fn arithmetic_saturates_instead_of_overflowing() {
    let max = Fixed::from_raw(i64::MAX);
    let min = Fixed::from_raw(i64::MIN);
    assert_eq!(max + whole(1), max);
    assert_eq!(min - whole(1), min);
    assert_eq!(-min, max);
    assert_eq!(max * whole(2), max);
    assert_eq!(whole(1) / whole(0), max);
    assert_eq!(whole(-1) / whole(0), min);
    assert_eq!(whole(0) / whole(0), whole(0));
}

#[test]
fn square_roots_round_down() {
    assert_eq!(whole(4).sqrt(), whole(2));
    assert_eq!(whole(40000).sqrt(), whole(200));
    assert_eq!(whole(2).sqrt().raw, 1482910);
    assert_eq!(whole(-9).sqrt(), whole(0));
    assert_eq!(whole(0).sqrt(), whole(0));
}

#[test]
fn powers_by_squaring() {
    assert_eq!(whole(2).pow(10), whole(1024));
    assert_eq!(whole(-3).pow(3), whole(-27));
    assert_eq!(Fixed::from_ratio(1, 2).pow(2), Fixed::from_raw(SCALE / 4));
    assert_eq!(whole(5).pow(0), whole(1));
}

#[test]
fn clamp_keeps_the_unit_interval() {
    assert_eq!(clamp(whole(-2)), whole(0));
    assert_eq!(clamp(whole(3)), whole(1));
    assert_eq!(clamp(Fixed::from_ratio(1, 2)), Fixed::from_ratio(1, 2));
    let v = Vector::new(whole(-1), Fixed::from_ratio(1, 4), whole(2)).clamp();
    assert_eq!(v, Vector::new(whole(0), Fixed::from_ratio(1, 4), whole(1)));
}

#[test]
fn vector_operators_work_component_wise() {
    let a = vec3(1, 2, 3);
    let b = vec3(4, -5, 6);
    assert_eq!(a + b, vec3(5, -3, 9));
    assert_eq!(a - b, vec3(-3, 7, -3));
    assert_eq!(a * b, vec3(4, -10, 18));
    assert_eq!(vec3(8, 9, -6) / vec3(2, 3, 3), vec3(4, 3, -2));
    assert_eq!(a * whole(2), vec3(2, 4, 6));
    assert_eq!(vec3(2, 4, 6) / whole(2), vec3(1, 2, 3));
    assert_eq!(-a, vec3(-1, -2, -3));
}

#[test]
fn dot_cross_and_length() {
    let a = vec3(1, 2, 3);
    let b = vec3(4, -5, 6);
    assert_eq!(a.dot(&b), whole(12));
    assert_eq!(vec3(1, 0, 0).cross(&vec3(0, 1, 0)), vec3(0, 0, 1));
    assert_eq!(a.cross(&b), vec3(27, 6, -13));
    assert_eq!(vec3(3, 4, 0).len_squared(), whole(25));
    assert_eq!(vec3(3, 4, 0).len(), whole(5));
    assert_eq!(vec3(0, 0, -2).to_unit(), vec3(0, 0, -1));
    assert_eq!(vec3(0, 3, 4).to_len(whole(10)), vec3(0, 6, 8));
}

#[test]
fn rays_and_planes_interpolate() {
    let ray = Ray::new(vec3(1, 1, 1), vec3(0, 0, -4));
    assert_eq!(ray.interp(Fixed::from_ratio(1, 4)), vec3(1, 1, 0));
    assert_eq!(ray.end(), vec3(1, 1, -3));
    assert_eq!(ray.len(), whole(4));
    assert_eq!(ray.len_squared(), whole(16));
    assert_eq!(ray.to_unit(), Ray::new(vec3(1, 1, 1), vec3(0, 0, -1)));
    assert_eq!(ray.to_len(whole(2)), Ray::new(vec3(1, 1, 1), vec3(0, 0, -2)));
    let plane = Plane::new(vec3(0, 0, 0), vec3(2, 0, 0), vec3(0, 4, 0));
    assert_eq!(plane.interp(Fixed::from_ratio(1, 2), Fixed::from_ratio(1, 4)), vec3(1, 1, 0));
}
