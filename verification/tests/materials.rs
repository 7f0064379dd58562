//! Scattering behavior of the three material models.

use raytracer::hittable::HitRecord;
use raytracer::material::{Dielectric, Lambertian, Material, Metal};
use raytracer::ray::Ray;
use raytracer::vec3::Vec3;

const S: i128 = 1_000_000;

fn flat_hit(normal: Vec3, material: Material, front_face: bool) -> HitRecord {
    HitRecord { p: Vec3::new(0, 0, 0), normal, material, t: S, front_face }
}

#[test]
fn lambertian_always_scatters_with_its_albedo() {
    let albedo = Vec3::new(120_000, 450_000, 780_000);
    let material = Lambertian::new(albedo);
    let rec = flat_hit(Vec3::new(0, S, 0), Material::Lambertian(material), true);
    let ray = Ray::new(Vec3::new(0, 2 * S, 0), Vec3::new(0, -S, 0));
    for _ in 0..16 {
        let (attenuation, scattered) = material.scatter(ray, rec).expect("never absorbs");
        assert_eq!(attenuation, albedo);
        assert_eq!(scattered.origin(), rec.p);
        // The degenerate-direction fallback keeps the direction nonzero.
        assert!(!scattered.direction().near_zero());
    }
}

#[test]
fn metal_with_zero_fuzz_is_an_exact_mirror() {
    let albedo = Vec3::new(800_000, 800_000, 800_000);
    let material = Metal::new(albedo, 0);
    let rec = flat_hit(Vec3::new(0, S, 0), Material::Metal(material), true);
    let ray = Ray::new(Vec3::new(-S, S, 0), Vec3::new(S, -S, 0));
    let (attenuation, scattered) = material.scatter(ray, rec).expect("reflects");
    assert_eq!(attenuation, albedo);
    // unit((1,-1,0)) quantizes to (0.707107, -0.707107, 0); the mirror
    // exactly reverses the normal component.
    assert_eq!(scattered.direction(), Vec3::new(707_107, 707_107, 0));
}

#[test]
fn metal_absorbs_rays_scattered_into_the_surface() {
    let material = Metal::new(Vec3::new(S, S, S), 0);
    let rec = flat_hit(Vec3::new(0, S, 0), Material::Metal(material), true);
    // The incoming ray leaves the surface from below: its reflection
    // points away from the normal and is absorbed.
    let ray = Ray::new(Vec3::new(0, 0, 0), Vec3::new(S, S, 0));
    assert!(material.scatter(ray, rec).is_none());
}

#[test]
fn metal_fuzz_is_clamped_above_only() {
    let over = Metal::new(Vec3::new(S, S, S), 3 * S);
    assert_eq!(over.fuzz, S);
    let negative = Metal::new(Vec3::new(S, S, S), -250_000);
    assert_eq!(negative.fuzz, -250_000);
}

#[test]
fn index_matched_dielectric_passes_rays_through_unchanged() {
    let material = Dielectric::new(S);
    let rec = flat_hit(Vec3::new(0, 0, S), Material::Dielectric(material), true);
    let ray = Ray::new(Vec3::new(0, 0, 5 * S), Vec3::new(0, 0, -S));
    for _ in 0..16 {
        let (attenuation, scattered) = material.scatter(ray, rec).expect("always scatters");
        assert_eq!(attenuation, Vec3::new(S, S, S));
        assert_eq!(scattered.direction(), Vec3::new(0, 0, -S));
        assert_eq!(scattered.origin(), rec.p);
    }
}

#[test]
fn dielectric_attenuation_is_always_white() {
    let material = Dielectric::new(1_500_000);
    let rec = flat_hit(Vec3::new(0, 0, S), Material::Dielectric(material), true);
    let ray = Ray::new(Vec3::new(0, 0, 5 * S), Vec3::new(0, 0, -S));
    for _ in 0..16 {
        let (attenuation, _) = material.scatter(ray, rec).expect("always scatters");
        assert_eq!(attenuation, Vec3::new(S, S, S));
    }
}

#[test]
fn total_internal_reflection_reflects() {
    // A back-face hit inside glass at a grazing angle: the refraction
    // ratio times the sine exceeds one, forcing reflection.
    let material = Dielectric::new(2_000_000);
    let rec = flat_hit(Vec3::new(0, S, 0), Material::Dielectric(material), false);
    let ray = Ray::new(Vec3::new(0, 0, 0), Vec3::new(S, -300_000, 0));
    let (_, scattered) = material.scatter(ray, rec).expect("always scatters");
    // The reflected direction flips the sign of the normal component.
    assert!(scattered.direction().y() > 0);
}
