//! Fixed and randomized demonstration scenes, built through the public
//! constructors only.

use vstd::prelude::*;

verus! {

use crate::fixed::SCALE;
use crate::fixed::mul_fx;
use crate::hittable_list::HittableList;
use crate::hittable_list::list_wf;
use crate::material::Dielectric;
use crate::material::Lambertian;
use crate::material::Material;
use crate::material::Metal;
use crate::rtweekend::random_float;
use crate::sphere::Sphere;
use crate::vec3::Color;
use crate::vec3::Vec3;
use crate::vec3::lemma_vmul_bound;
use crate::vec3::bounded;
use crate::vec3::vlen;
use crate::vec3::vsub;

/// The ground sphere shared by both scenes.
pub open spec fn ground_sphere(albedo: Color) -> Sphere {
    Sphere {
        center: Vec3 { x: 0, y: -1000000000i128, z: 0 },
        radius: 1000000000,
        material: Material::Lambertian(Lambertian { albedo }),
    }
}

/// One coordinate of the jittered grid: at most 0.9 beyond the cell corner.
pub open spec fn grid_coord(g: int, x: int) -> bool {
    g * (SCALE as int) <= x <= g * (SCALE as int) + 900000
}

/// A member of the randomized grid: a small sphere on the jittered grid,
/// clear of the front feature sphere, with one of the three material kinds
/// drawn in its configured parameter range.
pub open spec fn grid_sphere(s: Sphere) -> bool {
    &&& s.radius == 200000
    &&& s.center.y == 200000
    &&& exists|ga: int, gb: int|
        -11 <= ga < 11 && -11 <= gb < 11 && #[trigger] grid_coord(ga, s.center.x as int)
            && #[trigger] grid_coord(gb, s.center.z as int)
    &&& vlen(vsub(s.center, Vec3 { x: 4000000, y: 200000, z: 0 })) > 900000
    &&& match s.material {
        Material::Lambertian(l) => bounded(l.albedo, SCALE as int),
        Material::Metal(m) => 500000 <= m.albedo.x < 1000000 && 500000 <= m.albedo.y < 1000000
            && 500000 <= m.albedo.z < 1000000 && 0 <= m.fuzz < 500000,
        Material::Dielectric(d) => d.ir == 1500000,
    }
}

/// A small fixed scene: gray ground and three matching diffuse spheres.
pub fn test_scene() -> (world: HittableList)
    ensures
        list_wf(world),
        world.objects@.len() == 4,
        world.objects@[0] == ground_sphere(Vec3 { x: 500000, y: 500000, z: 500000 }),
        world.objects@[1] == (Sphere {
            center: Vec3 { x: 0, y: 1000000, z: 0 },
            radius: 1000000,
            material: Material::Lambertian(
                Lambertian { albedo: Vec3 { x: 700000, y: 600000, z: 500000 } },
            ),
        }),
        world.objects@[2] == (Sphere {
            center: Vec3 { x: -4000000i128, y: 1000000, z: 0 },
            radius: 1000000,
            material: Material::Lambertian(
                Lambertian { albedo: Vec3 { x: 700000, y: 600000, z: 500000 } },
            ),
        }),
        world.objects@[3] == (Sphere {
            center: Vec3 { x: 4000000, y: 1000000, z: 0 },
            radius: 1000000,
            material: Material::Lambertian(
                Lambertian { albedo: Vec3 { x: 700000, y: 600000, z: 500000 } },
            ),
        }),
{
    let mut world = HittableList::new();
    let ground_material = Lambertian::new(Vec3::new(500000, 500000, 500000));
    world.add(
        Sphere::new(
            Vec3::new(0, -1000000000, 0),
            1000000000,
            Material::Lambertian(ground_material),
        ),
    );

    let material = Lambertian::new(Vec3::new(700000, 600000, 500000));
    world.add(Sphere::new(Vec3::new(0, 1000000, 0), 1000000, Material::Lambertian(material)));
    let material = Lambertian::new(Vec3::new(700000, 600000, 500000));
    world.add(Sphere::new(Vec3::new(-4000000, 1000000, 0), 1000000, Material::Lambertian(material)));
    let material = Lambertian::new(Vec3::new(700000, 600000, 500000));
    world.add(Sphere::new(Vec3::new(4000000, 1000000, 0), 1000000, Material::Lambertian(material)));

    world
}

/// The randomized cover scene: a gray ground, a grid of small spheres with
/// randomly chosen materials, and three large feature spheres.
pub fn random_scene() -> (world: HittableList)
    ensures
        list_wf(world),
        4 <= world.objects@.len() <= 488,
        world.objects@[0] == ground_sphere(Vec3 { x: 500000, y: 500000, z: 500000 }),
        world.objects@[world.objects@.len() - 3] == (Sphere {
            center: Vec3 { x: 0, y: 1000000, z: 0 },
            radius: 1000000,
            material: Material::Dielectric(Dielectric { ir: 1500000 }),
        }),
        world.objects@[world.objects@.len() - 2] == (Sphere {
            center: Vec3 { x: -4000000i128, y: 1000000, z: 0 },
            radius: 1000000,
            material: Material::Lambertian(
                Lambertian { albedo: Vec3 { x: 400000, y: 200000, z: 100000 } },
            ),
        }),
        world.objects@[world.objects@.len() - 1] == (Sphere {
            center: Vec3 { x: 4000000, y: 1000000, z: 0 },
            radius: 1000000,
            material: Material::Metal(
                Metal { albedo: Vec3 { x: 700000, y: 600000, z: 500000 }, fuzz: 0 },
            ),
        }),
        forall|i: int|
            1 <= i < world.objects@.len() - 3 ==> grid_sphere(#[trigger] world.objects@[i]),
{
    let mut world = HittableList::new();

    let ground_material = Lambertian::new(Vec3::new(500000, 500000, 500000));
    world.add(
        Sphere::new(
            Vec3::new(0, -1000000000, 0),
            1000000000,
            Material::Lambertian(ground_material),
        ),
    );

    let mut a: i128 = -11;
    while a < 11
        invariant
            -11 <= a <= 11,
            list_wf(world),
            1 <= world.objects@.len() <= 1 + 22 * (a + 11),
            world.objects@[0] == ground_sphere(Vec3 { x: 500000, y: 500000, z: 500000 }),
            forall|i: int| 1 <= i < world.objects@.len() ==> grid_sphere(#[trigger] world.objects@[i]),
        decreases 11 - a,
    {
        let mut b: i128 = -11;
        while b < 11
            invariant
                -11 <= a < 11,
                -11 <= b <= 11,
                list_wf(world),
                1 <= world.objects@.len() <= 1 + 22 * (a + 11) + (b + 11),
                world.objects@[0] == ground_sphere(Vec3 { x: 500000, y: 500000, z: 500000 }),
                forall|i: int|
                    1 <= i < world.objects@.len() ==> grid_sphere(#[trigger] world.objects@[i]),
            decreases 11 - b,
        {
            let choose_mat: i128 = random_float(0, SCALE);
            let jx: i128 = random_float(0, SCALE);
            let jz: i128 = random_float(0, SCALE);
            proof {
                crate::fixed::lemma_fmul_bound(900000, jx as int, 900000, 1000000, 900000);
                crate::fixed::lemma_fmul_bound(900000, jz as int, 900000, 1000000, 900000);
                vstd::arithmetic::mul::lemma_mul_nonnegative(900000, jx as int);
                vstd::arithmetic::mul::lemma_mul_nonnegative(900000, jz as int);
                vstd::arithmetic::div_mod::lemma_div_pos_is_pos(900000 * jx as int, SCALE as int);
                vstd::arithmetic::div_mod::lemma_div_pos_is_pos(900000 * jz as int, SCALE as int);
            }
            let center = Vec3::new(
                a * SCALE + mul_fx(900000, jx),
                200000,
                b * SCALE + mul_fx(900000, jz),
            );
            proof {
                assert(grid_coord(a as int, center.x as int));
                assert(grid_coord(b as int, center.z as int));
            }

            if center.sub(Vec3::new(4000000, 200000, 0)).length() > 900000 {
                if choose_mat < 800000 {
                    // diffuse
                    let c1 = Color::random();
                    let c2 = Color::random();
                    proof {
                        lemma_vmul_bound(c1, c2, SCALE as int, SCALE as int, SCALE as int);
                    }
                    let albedo = c1.mul(c2);
                    let sphere_material = Lambertian::new(albedo);
                    world.add(
                        Sphere::new(center, 200000, Material::Lambertian(sphere_material)),
                    );
                } else if choose_mat < 950000 {
                    // metal
                    let albedo = Color::random_in_range(500000, 1000000);
                    let fuzz: i128 = random_float(0, 500000);
                    let sphere_material = Metal::new(albedo, fuzz);
                    world.add(Sphere::new(center, 200000, Material::Metal(sphere_material)));
                } else {
                    // glass
                    let sphere_material = Dielectric::new(1500000);
                    world.add(
                        Sphere::new(center, 200000, Material::Dielectric(sphere_material)),
                    );
                }
            }
            b = b + 1;
        }
        a = a + 1;
    }

    let material1 = Dielectric::new(1500000);
    world.add(Sphere::new(Vec3::new(0, 1000000, 0), 1000000, Material::Dielectric(material1)));

    let material2 = Lambertian::new(Vec3::new(400000, 200000, 100000));
    world.add(Sphere::new(Vec3::new(-4000000, 1000000, 0), 1000000, Material::Lambertian(material2)));

    let material3 = Metal::new(Vec3::new(700000, 600000, 500000), 0);
    world.add(Sphere::new(Vec3::new(4000000, 1000000, 0), 1000000, Material::Metal(material3)));

    world
}

} // verus!
