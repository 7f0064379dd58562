//! The recursive and iterative integrators.

use raytracer::hittable_list::HittableList;
use raytracer::ray::Ray;
use raytracer::ray_color::{ray_color, ray_color_default, ray_color_iter};
use raytracer::scene::test_scene;
use raytracer::vec3::Vec3;

const S: i128 = 1_000_000;

const BLACK: (i128, i128, i128) = (0, 0, 0);

fn v(c: (i128, i128, i128)) -> Vec3 {
    Vec3::new(c.0, c.1, c.2)
}

#[test]
fn exhausted_depth_budget_is_black() {
    let worlds = [HittableList::new(), test_scene()];
    let ray = Ray::new(Vec3::new(0, 0, 0), Vec3::new(0, 0, -S));
    for world in &worlds {
        assert_eq!(ray_color_default(ray, world, 0, false), v(BLACK));
        assert_eq!(ray_color_default(ray, world, -3, false), v(BLACK));
        assert_eq!(ray_color_iter(ray, world, 0, false), v(BLACK));
    }
}

#[test]
fn exhausted_depth_budget_is_red_in_debug_mode() {
    let world = HittableList::new();
    let ray = Ray::new(Vec3::new(0, 0, 0), Vec3::new(0, S, 0));
    assert_eq!(ray_color_default(ray, &world, 0, true), Vec3::new(S, 0, 0));
    assert_eq!(ray_color_iter(ray, &world, 0, true), Vec3::new(S, 0, 0));
}

#[test]
fn empty_scene_renders_the_sky_gradient() {
    let world = HittableList::new();
    // Straight up: the zenith color.
    let up = Ray::new(Vec3::new(0, 0, 0), Vec3::new(0, S, 0));
    let zenith = Vec3::new(500_000, 700_000, S);
    assert_eq!(ray_color_default(up, &world, 10, false), zenith);
    assert_eq!(ray_color_iter(up, &world, 10, false), zenith);
    // Straight down: white.
    let down = Ray::new(Vec3::new(0, 0, 0), Vec3::new(0, -S, 0));
    let white = Vec3::new(S, S, S);
    assert_eq!(ray_color_default(down, &world, 10, false), white);
    assert_eq!(ray_color_iter(down, &world, 10, false), white);
    // Along the horizon: the midpoint of the blend.
    let level = Ray::new(Vec3::new(0, 0, 0), Vec3::new(S, 0, 0));
    let mid = Vec3::new(750_000, 850_000, S);
    assert_eq!(ray_color_default(level, &world, 10, false), mid);
    assert_eq!(ray_color_iter(level, &world, 10, false), mid);
}

#[test]
fn one_bounce_budget_terminates_black_on_a_hit() {
    // The ray strikes the ground sphere; the single allowed bounce uses
    // up the budget, so no more light is gathered.
    let world = test_scene();
    let ray = Ray::new(Vec3::new(10 * S, 2 * S, 10 * S), Vec3::new(0, -S, 0));
    assert_eq!(ray_color_default(ray, &world, 1, false), v(BLACK));
    assert_eq!(ray_color_iter(ray, &world, 1, false), v(BLACK));
}

#[test]
fn missed_rays_render_the_sky_even_in_a_populated_scene() {
    let world = test_scene();
    // Straight up from above every sphere: nothing is hit.
    let up = Ray::new(Vec3::new(0, 5 * S, 0), Vec3::new(0, S, 0));
    let zenith = Vec3::new(500_000, 700_000, S);
    assert_eq!(ray_color_default(up, &world, 10, false), zenith);
    assert_eq!(ray_color_iter(up, &world, 10, false), zenith);
}

#[test]
fn batch_form_matches_the_single_ray_clauses() {
    let world = HittableList::new();
    let rays = vec![
        Ray::new(Vec3::new(0, 0, 0), Vec3::new(0, S, 0)),
        Ray::new(Vec3::new(0, 0, 0), Vec3::new(0, -S, 0)),
        Ray::new(Vec3::new(0, 0, 0), Vec3::new(S, 0, 0)),
    ];
    let colors = ray_color(rays.clone(), &world, 8, false);
    assert_eq!(colors.len(), 3);
    assert_eq!(colors[0], Vec3::new(500_000, 700_000, S));
    assert_eq!(colors[1], Vec3::new(S, S, S));
    assert_eq!(colors[2], Vec3::new(750_000, 850_000, S));

    let exhausted = ray_color(rays, &world, 0, false);
    assert_eq!(exhausted, vec![v(BLACK), v(BLACK), v(BLACK)]);
}
