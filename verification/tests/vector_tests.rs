//! Vector algebra through the public interface.

use rust_ray_tracer::color::Color;
use rust_ray_tracer::fix::Fix;
use rust_ray_tracer::simd_vec3::SimdVec3;
use rust_ray_tracer::vec3::{
    Cross, Dot, Length, LengthSquared, RandomUnitSphere, Unit, Vec3,
};

fn fi(n: i32) -> Fix {
    Fix::from_int(n)
}

#[test]
fn test_reduce_sum() {
    let v = SimdVec3::new(fi(1), fi(2), fi(3));
    let res = v.reduce_sum();
    assert_eq!(res, fi(6));
}

#[test]
fn simd_vec3_test_mul() {
    let v = SimdVec3::new(fi(1), fi(2), fi(3));
    let res = v.mul(v);
    let expected = SimdVec3::new(fi(1), fi(4), fi(9));

    assert_eq!(expected, res);
}

#[test]
fn test_length_squared() {
    let v = SimdVec3::new(fi(1), fi(2), fi(3));
    let res = v.length_squared();

    assert_eq!(fi(14), res);
}

#[test]
fn vec3_test_mul() {
    let v = Vec3::default();
    let f: Fix = Fix::one();
    let _res = v.scale(f);
}

#[test]
fn test_mul_bis() {
    let v = Vec3::default();
    let f: Fix = Fix::one();
    let _res = v.scale(f);
}

#[test]
fn test_dot() {
    let u = Vec3::new(fi(1), fi(2), fi(3));
    let v = Vec3::new(fi(3), fi(2), fi(1));

    let res = u.dot(v);
    assert_eq!(res, fi(10));
}

#[test]
fn test_cross() {
    let u = Vec3::new(fi(1), fi(2), fi(3));
    let v = Vec3::new(fi(3), fi(2), fi(1));

    let res = u.cross(v);
    assert_eq!(res, Vec3::new(fi(-4), fi(8), fi(-4)));
}

#[test]
fn test_random_unit_sphere() {
    let mut rng = rust_ray_tracer::rng::rng_with_seed(7);
    let mut s = rust_ray_tracer::rng::fill_sampler(&mut rng, 4096);
    for _ in 0..100 {
        let sphere = Vec3::random_unit_sphere(&mut s);
        let x = sphere.x().to_micros();
        let y = sphere.y().to_micros();
        let z = sphere.z().to_micros();
        assert!(-1_000_000 <= x && x <= 1_000_000, "{}", x);
        assert!(-1_000_000 <= y && y <= 1_000_000, "{}", y);
        assert!(-1_000_000 <= z && z <= 1_000_000, "{}", z);
    }
}

#[test]
fn unit_of_axis_vector_has_length_one() {
    let v = Vec3::new(fi(3), fi(0), fi(0));
    let unit = v.unit();
    assert_eq!(unit.length(), Fix::one());
    assert_eq!(unit, Vec3::new(Fix::one(), Fix::zero(), Fix::zero()));
}

#[test]
fn unit_length_is_one_within_tolerance() {
    let v = Vec3::new(fi(1), fi(2), fi(3));
    let unit = v.unit();
    let lsq = unit.length_squared().to_micros();
    assert!(999_000 <= lsq && lsq <= 1_001_000, "{}", lsq);

    let w = Vec3::new(fi(-5), fi(7), fi(11));
    let wu = w.unit();
    let wl = wu.length().to_micros();
    assert!(999_000 <= wl && wl <= 1_001_000, "{}", wl);
}

#[test]
fn cross_is_orthogonal_and_dot_symmetric() {
    let u = Vec3::new(fi(2), fi(-7), fi(5));
    let v = Vec3::new(fi(4), fi(1), fi(-3));
    let c = u.cross(v);
    assert_eq!(c.dot(u), Fix::zero());
    assert_eq!(c.dot(v), Fix::zero());
    assert_eq!(u.dot(v), v.dot(u));
}

#[test]
fn scaling_white_by_half_gives_half_gray() {
    let half = Fix::from_micros(500_000);
    let c = rust_ray_tracer::color::white().scale(half);
    assert_eq!(c, Color::new(half, half, half));
}
