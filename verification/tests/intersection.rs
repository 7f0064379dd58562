//! Sphere and scene intersection behavior.

use raytracer::hittable_list::HittableList;
use raytracer::material::{Lambertian, Material};
use raytracer::ray::Ray;
use raytracer::sphere::Sphere;
use raytracer::vec3::Vec3;

const S: i128 = 1_000_000;
const FAR: i128 = 0x10_0000_0000_0000;

fn gray() -> Material {
    Material::Lambertian(Lambertian::new(Vec3::new(500_000, 500_000, 500_000)))
}

#[test]
fn head_on_hit_takes_the_nearest_root() {
    let sphere = Sphere::new(Vec3::new(0, 0, -5 * S), S, gray());
    let ray = Ray::new(Vec3::new(0, 0, 0), Vec3::new(0, 0, -S));
    let rec = sphere.hit(ray, 1000, FAR).expect("must hit");
    assert_eq!(rec.t, 4 * S);
    assert_eq!(rec.p, Vec3::new(0, 0, -4 * S));
    assert_eq!(rec.normal, Vec3::new(0, 0, S));
    assert!(rec.front_face);
}

#[test]
fn ray_from_the_center_takes_the_larger_root() {
    let sphere = Sphere::new(Vec3::new(0, 0, 0), 2 * S, gray());
    let ray = Ray::new(Vec3::new(0, 0, 0), Vec3::new(0, 0, S));
    // The smaller root is negative, so the larger one must be chosen.
    let rec = sphere.hit(ray, 1000, FAR).expect("must hit");
    assert_eq!(rec.t, 2 * S);
    assert_eq!(rec.p, Vec3::new(0, 0, 2 * S));
    assert!(!rec.front_face);
    assert_eq!(rec.normal, Vec3::new(0, 0, -S));
}

#[test]
fn negative_discriminant_misses() {
    let sphere = Sphere::new(Vec3::new(0, 10 * S, 0), S, gray());
    let ray = Ray::new(Vec3::new(0, 0, 0), Vec3::new(S, 0, 0));
    assert!(sphere.hit(ray, 1000, FAR).is_none());
}

#[test]
fn out_of_window_roots_miss() {
    let sphere = Sphere::new(Vec3::new(0, 0, -5 * S), S, gray());
    let ray = Ray::new(Vec3::new(0, 0, 0), Vec3::new(0, 0, -S));
    // Both roots (4 and 6) lie beyond the window.
    assert!(sphere.hit(ray, 1000, 3 * S).is_none());
    // A window that admits only the far root selects it.
    let rec = sphere.hit(ray, 5 * S, FAR).expect("far root");
    assert_eq!(rec.t, 6 * S);
    assert!(!rec.front_face);
}

#[test]
fn scene_returns_the_nearest_hit() {
    let mut world = HittableList::new();
    world.add(Sphere::new(Vec3::new(0, 0, -9 * S), S, gray()));
    world.add(Sphere::new(Vec3::new(0, 0, -5 * S), S, gray()));
    world.add(Sphere::new(Vec3::new(0, 0, -20 * S), S, gray()));
    let ray = Ray::new(Vec3::new(0, 0, 0), Vec3::new(0, 0, -S));
    let rec = world.hit(ray, 1000, FAR).expect("must hit");
    assert_eq!(rec.t, 4 * S);

    let empty = HittableList::new();
    assert!(empty.hit(ray, 1000, FAR).is_none());
}

#[test]
fn clear_empties_the_scene() {
    let mut world = HittableList::new();
    world.add(Sphere::new(Vec3::new(0, 0, -5 * S), S, gray()));
    assert_eq!(world.objects.len(), 1);
    world.clear();
    assert_eq!(world.objects.len(), 0);
}
