//! Vector algebra on raw fixed-point values (one unit is 1_000_000).

use raytracer::vec3::{cross, dot, reflect, unit, Vec3};

const S: i128 = 1_000_000;

#[test]
fn unit_of_axis_unit_vector_is_itself() {
    let v = Vec3::new(600_000, 800_000, 0);
    // |v| is exactly one, so normalization returns v bit for bit.
    assert_eq!(v.length(), S);
    assert_eq!(unit(v), v);
    assert_eq!(unit(v).length(), S);
}

#[test]
fn unit_vector_length_is_one_within_tolerance() {
    let v = Vec3::new(S, 2 * S, 2 * S);
    let u = unit(v);
    assert_eq!(u, Vec3::new(333_333, 666_666, 666_666));
    let err = (u.length() - S).abs();
    assert!(err <= 10, "length error {} exceeds 1e-5", err);
}

#[test]
fn dot_of_vector_with_itself_is_length_squared() {
    let samples = [
        Vec3::new(0, 0, 0),
        Vec3::new(S, -2 * S, 3 * S),
        Vec3::new(123_456, 654_321, -999_999),
        Vec3::new(-1, 1, 2),
    ];
    for v in samples {
        assert_eq!(dot(v, v), v.length_squared());
    }
}

#[test]
fn arithmetic_components() {
    let a = Vec3::new(S, 2 * S, -3 * S);
    let b = Vec3::new(500_000, -500_000, S);
    assert_eq!(a.add(b), Vec3::new(1_500_000, 1_500_000, -2_000_000));
    assert_eq!(a.sub(b), Vec3::new(500_000, 2_500_000, -4_000_000));
    assert_eq!(a.neg(), Vec3::new(-S, -2 * S, 3 * S));
    assert_eq!(a.mul(b), Vec3::new(500_000, -1_000_000, -3_000_000));
    assert_eq!(a.scale(2 * S), Vec3::new(2 * S, 4 * S, -6 * S));
    assert_eq!(a.div(2 * S), Vec3::new(500_000, S, -1_500_000));
}

#[test]
fn cross_of_axes() {
    let x = Vec3::new(S, 0, 0);
    let y = Vec3::new(0, S, 0);
    let z = Vec3::new(0, 0, S);
    assert_eq!(cross(x, y), z);
    assert_eq!(cross(y, z), x);
    assert_eq!(cross(y, x), z.neg());
}

#[test]
fn near_zero_is_a_per_axis_test() {
    assert!(Vec3::new(0, 0, 0).near_zero());
    // One tiny and two zero components still pass only when all are zero.
    assert!(!Vec3::new(1, 0, 0).near_zero());
    assert!(!Vec3::new(0, -1, 0).near_zero());
    assert!(!Vec3::new(S, S, S).near_zero());
}

#[test]
fn reflect_flips_the_normal_component_exactly() {
    let v = Vec3::new(S, -S, 0);
    let n = Vec3::new(0, S, 0);
    assert_eq!(reflect(v, n), Vec3::new(S, S, 0));
    let w = Vec3::new(123_456, -777_777, 42);
    assert_eq!(reflect(w, n), Vec3::new(123_456, 777_777, 42));
}

#[test]
fn random_samplers_stay_in_range() {
    for _ in 0..32 {
        let p = raytracer::vec3::random_in_unit_sphere();
        assert!(p.length_squared() < S);
        let d = raytracer::vec3::random_in_unit_disk();
        assert_eq!(d.z(), 0);
        assert!(d.length_squared() < S);
        let u = raytracer::vec3::random_unit_vector();
        // Quantization error grows for draws close to the origin, so the
        // tolerance here is looser than for well-scaled inputs.
        let err = (u.length() - S).abs();
        assert!(err <= 5_000);
        let r = raytracer::rtweekend::random_float(-5, 7);
        assert!((-5..7).contains(&r));
    }
}
