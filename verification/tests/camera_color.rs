//! Camera construction, ray generation and color quantization.

use raytracer::camera::Camera;
use raytracer::color::quantize_color;
use raytracer::scene::{random_scene, test_scene};
use raytracer::sphere::Sphere;
use raytracer::vec3::Vec3;

const S: i128 = 1_000_000;

fn book_camera() -> Camera {
    Camera::new(
        Vec3::new(13 * S, 2 * S, 3 * S),
        Vec3::new(0, 0, 0),
        Vec3::new(0, S, 0),
        20 * S,
        1_500_000,
        100_000,
        10 * S,
    )
}

#[test]
fn identical_parameters_give_bit_identical_cameras() {
    let first = book_camera();
    let second = book_camera();
    assert_eq!(first, second);
    assert_eq!(first.origin, second.origin);
    assert_eq!(first.lower_left_corner, second.lower_left_corner);
    assert_eq!(first.horizontal, second.horizontal);
    assert_eq!(first.vertical, second.vertical);
    assert_eq!(first.u, second.u);
    assert_eq!(first.v, second.v);
    assert_eq!(first.w, second.w);
    assert_eq!(first.lens_radius, second.lens_radius);
}

#[test]
fn camera_derived_fields() {
    let cam = book_camera();
    assert_eq!(cam.origin, Vec3::new(13 * S, 2 * S, 3 * S));
    // Half the aperture.
    assert_eq!(cam.lens_radius, 50_000);
    // The basis is orthogonal to within quantization error.
    assert!(raytracer::vec3::dot(cam.u, cam.w).abs() <= 10);
    assert!(raytracer::vec3::dot(cam.u, cam.v).abs() <= 10);
    assert!(raytracer::vec3::dot(cam.v, cam.w).abs() <= 10);
    // w points from the target toward the eye.
    assert!(cam.w.x() > 0);
}

#[test]
fn lens_samples_vary_but_the_plane_point_is_fixed() {
    let cam = book_camera();
    let center = cam.get_ray_with(500_000, 500_000, Vec3::new(0, 0, 0));
    // A zero lens sample leaves the origin at the eye.
    assert_eq!(center.origin(), cam.origin);
    let again = cam.get_ray_with(500_000, 500_000, Vec3::new(0, 0, 0));
    assert_eq!(center, again);
    // With a zero aperture every sampled ray is the central one.
    let pinhole = Camera::new(
        Vec3::new(13 * S, 2 * S, 3 * S),
        Vec3::new(0, 0, 0),
        Vec3::new(0, S, 0),
        20 * S,
        1_500_000,
        0,
        10 * S,
    );
    for _ in 0..8 {
        assert_eq!(
            pinhole.get_ray(250_000, 750_000),
            pinhole.get_ray_with(250_000, 750_000, Vec3::new(0, 0, 0))
        );
    }
}

#[test]
fn tangent_matches_known_values() {
    // Half of 20 degrees in raw radians; tan(10 deg) is about 0.176327.
    let t20 = raytracer::trig::tan_fx(174_532);
    assert!((t20 - 176_327).abs() <= 5, "tan half of 20 deg gave {}", t20);
    // Half of a right angle: tan(45 deg) is one.
    let t90 = raytracer::trig::tan_fx(785_398);
    assert!((t90 - S).abs() <= 10, "tan of a quarter turn gave {}", t90);
}

#[test]
fn quantization_applies_gamma_and_clamps() {
    // An accumulated quarter-intensity pixel over 100 samples:
    // sqrt(0.25) = 0.5, and 256 * 0.5 truncates to 128.
    let accumulated = Vec3::new(25 * S, 0, 100 * S * 4);
    let (r, g, b) = quantize_color(accumulated, 100);
    assert_eq!(r, 128);
    assert_eq!(g, 0);
    // Channels at or above full intensity clamp to 255.
    assert_eq!(b, 255);

    let negative = Vec3::new(-5 * S, 0, 0);
    let (r2, _, _) = quantize_color(negative, 1);
    assert_eq!(r2, 0);
}

#[test]
fn fixed_scene_shape() {
    let world = test_scene();
    assert_eq!(world.objects.len(), 4);
    let ground: Sphere = world.objects[0];
    assert_eq!(ground.center, Vec3::new(0, -1000 * S, 0));
    assert_eq!(ground.radius, 1000 * S);
}

#[test]
fn random_scene_shape() {
    let world = random_scene();
    let n = world.objects.len();
    assert!((4..=488).contains(&n));
    assert_eq!(world.objects[0].center, Vec3::new(0, -1000 * S, 0));
    // The three feature spheres close the list.
    assert_eq!(world.objects[n - 3].center, Vec3::new(0, S, 0));
    assert_eq!(world.objects[n - 2].center, Vec3::new(-4 * S, S, 0));
    assert_eq!(world.objects[n - 1].center, Vec3::new(4 * S, S, 0));
    for s in &world.objects {
        assert!(s.radius > 0);
    }
}
