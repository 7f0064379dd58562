//! The light-transport integrator, in a recursive and an iterative form.

use vstd::prelude::*;

verus! {

use crate::fixed::HALF_SCALE;
use crate::fixed::SCALE;
use crate::fixed::fmul;
use crate::fixed::lemma_fmul_bound;
use crate::fixed::mul_fx;
use crate::hittable_list::HittableList;
use crate::hittable::HitRecord;
use crate::material::scatter_post;
use crate::sphere::Sphere;
use crate::hittable_list::list_hit_spec;
use crate::hittable_list::list_wf;
use crate::ray::Ray;
use crate::vec3::Color;
use crate::vec3::Vec3;
use crate::vec3::bounded;
use crate::vec3::is_zero;
use crate::vec3::lemma_vmul_bound;
use crate::vec3::vmul;
use crate::vec3::lemma_vmul_white_identity;
use crate::vec3::lemma_vscale_bound;
use crate::vec3::unit;
use crate::vec3::vadd;
use crate::vec3::vscale;
use crate::vec3::vunit;

/// Minimum hit distance: the shadow-acne epsilon, one thousandth.
pub const T_NEAR: i128 = 1000;

/// Stand-in for an unbounded upper hit distance.
pub const T_FAR: i128 = 0x10_0000_0000_0000;

/// Magnitude cap on every color an integrator returns.
pub const COLOR_LIMIT: i128 = 3000000;

/// Directions beyond this cap, like zero directions, cannot be normalized
/// and render as black.
pub const SKY_DIR_LIMIT: i128 = 0x1000_0000_0000_0000;

pub open spec fn black() -> Color {
    Vec3 { x: 0, y: 0, z: 0 }
}

pub open spec fn red() -> Color {
    Vec3 { x: SCALE, y: 0, z: 0 }
}

pub open spec fn white() -> Color {
    Vec3 { x: SCALE, y: SCALE, z: SCALE }
}

/// The color returned when the bounce budget runs out.
pub open spec fn exhaust_color(debug_depth: bool) -> Color {
    if debug_depth {
        red()
    } else {
        black()
    }
}

/// The vertical sky gradient: white at the bottom blended toward
/// light blue with the normalized direction's height.
pub open spec fn sky_color(d: Vec3) -> Color {
    let ud = vunit(d);
    let t = fmul(HALF_SCALE as int, (ud.y as int) + SCALE as int);
    vadd(
        vscale(SCALE as int - t, white()),
        vscale(t, Vec3 { x: HALF_SCALE, y: 700000, z: SCALE }),
    )
}

/// What a missed ray contributes: the sky gradient where the direction
/// can be normalized, black otherwise.
pub open spec fn sky_of(r: Ray) -> Color {
    if is_zero(r.direction) || !bounded(r.direction, SKY_DIR_LIMIT as int) {
        black()
    } else {
        sky_color(r.direction)
    }
}

/// The full light-transport relation of the recursive integrator: what the
/// returned color can be, for every outcome of the random scatter draws.
/// An exhausted budget pins the sentinel, a miss pins the sky gradient,
/// and a hit relates the color to the attenuation times some color the
/// relation admits one bounce deeper.
pub open spec fn ray_color_rel(
    r: Ray,
    objs: Seq<Sphere>,
    depth: int,
    debug_depth: bool,
    c: Color,
) -> bool
    decreases depth,
{
    if depth <= 0 {
        c == exhaust_color(debug_depth)
    } else if list_hit_spec(objs, r, T_NEAR as int, T_FAR as int) is None {
        c == sky_of(r)
    } else {
        (exists|hrec: HitRecord, res: Option<(Color, Ray)>|
            list_hit_spec(objs, r, T_NEAR as int, T_FAR as int) == Some(hrec)
                && #[trigger] scatter_post(hrec.material, r, hrec, res) && res is None && c
                == black()) || (exists|hrec: HitRecord, att: Color, sc: Ray, c2: Color|
            list_hit_spec(objs, r, T_NEAR as int, T_FAR as int) == Some(hrec)
                && #[trigger] scatter_post(hrec.material, r, hrec, Some((att, sc)))
                && ray_color_rel(sc, objs, depth - 1, debug_depth, c2) && c == #[trigger] vmul(
                att,
                c2,
            ))
    }
}

/// The same relation for the iterative form, which multiplies the running
/// attenuation `acc` from the left, as the loop does. Fixed-point color
/// multiplication is not associative, so the two forms share formulas but
/// not the association order, like the two float evaluation strategies.
pub open spec fn ray_color_iter_rel(
    r: Ray,
    objs: Seq<Sphere>,
    depth: int,
    debug_depth: bool,
    acc: Color,
    c: Color,
) -> bool
    decreases depth,
{
    if depth <= 0 {
        c == vmul(acc, exhaust_color(debug_depth))
    } else if list_hit_spec(objs, r, T_NEAR as int, T_FAR as int) is None {
        c == vmul(acc, sky_of(r))
    } else {
        (exists|hrec: HitRecord, res: Option<(Color, Ray)>|
            list_hit_spec(objs, r, T_NEAR as int, T_FAR as int) == Some(hrec)
                && #[trigger] scatter_post(hrec.material, r, hrec, res) && res is None && c
                == vmul(acc, black())) || (exists|hrec: HitRecord, att: Color, sc: Ray|
            list_hit_spec(objs, r, T_NEAR as int, T_FAR as int) == Some(hrec)
                && #[trigger] scatter_post(hrec.material, r, hrec, Some((att, sc)))
                && ray_color_iter_rel(sc, objs, depth - 1, debug_depth, vmul(acc, att), c))
    }
}

/// Computes the sky contribution of a ray that hit nothing.
fn sky_for(r: Ray) -> (c: Color)
    ensures
        c == sky_of(r),
        bounded(c, COLOR_LIMIT as int),
{
    let d: Vec3 = r.direction();
    if (d.x() == 0 && d.y() == 0 && d.z() == 0) || !d.in_bounds(SKY_DIR_LIMIT) {
        return Vec3::new(0, 0, 0);
    }
    let unit_direction: Vec3 = unit(d);
    proof {
        lemma_fmul_bound(
            HALF_SCALE as int,
            (vunit(r.direction).y as int) + SCALE as int,
            HALF_SCALE as int,
            2 * SCALE as int,
            SCALE as int,
        );
        lemma_vscale_bound(
            SCALE as int - fmul(HALF_SCALE as int, (vunit(r.direction).y as int) + SCALE as int),
            white(),
            2 * SCALE as int,
            SCALE as int,
            2 * SCALE as int,
        );
        lemma_vscale_bound(
            fmul(HALF_SCALE as int, (vunit(r.direction).y as int) + SCALE as int),
            Vec3 { x: HALF_SCALE, y: 700000, z: SCALE },
            SCALE as int,
            SCALE as int,
            SCALE as int,
        );
    }
    let t: i128 = mul_fx(HALF_SCALE, unit_direction.y() + SCALE);
    let lo: Vec3 = Vec3::new(SCALE, SCALE, SCALE).scale(SCALE - t);
    let hi: Vec3 = Vec3::new(HALF_SCALE, 700000, SCALE).scale(t);
    lo.add(hi)
}

/// Single-ray integrator in recursive form: depth as call-stack recursion.
pub fn ray_color_default(r: Ray, world: &HittableList, depth: i32, debug_depth: bool) -> (color:
    Color)
    requires
        list_wf(*world),
    ensures
        depth <= 0 ==> color == exhaust_color(debug_depth),
        world.objects@.len() == 0 && depth > 0 ==> color == sky_of(r),
        list_hit_spec(world.objects@, r, T_NEAR as int, T_FAR as int) is None && depth > 0
            ==> color == sky_of(r),
        ray_color_rel(r, world.objects@, depth as int, debug_depth, color),
        bounded(color, COLOR_LIMIT as int),
    decreases depth,
{
    // If we've exceeded the ray bounce limit, no more light is gathered.
    if depth <= 0 {
        if debug_depth {
            return Vec3::new(SCALE, 0, 0);
        } else {
            return Vec3::new(0, 0, 0);
        }
    }
    if let Some(rec) = world.hit(r, T_NEAR, T_FAR) {
        let sres: Option<(Color, Ray)> = rec.material.scatter(r, rec);
        if let Some((attenuation, scattered)) = sres {
            let rest: Color = ray_color_default(scattered, world, depth - 1, debug_depth);
            proof {
                lemma_vmul_bound(
                    attenuation,
                    rest,
                    SCALE as int,
                    COLOR_LIMIT as int,
                    COLOR_LIMIT as int,
                );
            }
            let gathered = attenuation.mul(rest);
            proof {
                assert(gathered == vmul(attenuation, rest));
                assert(scatter_post(rec.material, r, rec, Some((attenuation, scattered))));
                assert(ray_color_rel(scattered, world.objects@, depth as int - 1, debug_depth,
                    rest,
                ));
                assert(ray_color_rel(r, world.objects@, depth as int, debug_depth, gathered));
            }
            return gathered;
        }
        let absorbed = Vec3::new(0, 0, 0);
        proof {
            assert(scatter_post(rec.material, r, rec, sres));
            assert(ray_color_rel(r, world.objects@, depth as int, debug_depth, absorbed));
        }
        return absorbed;
    }
    let sky = sky_for(r);
    proof {
        assert(ray_color_rel(r, world.objects@, depth as int, debug_depth, sky));
    }
    sky
}

/// Single-ray integrator in iterative form: attenuation accumulated in a
/// loop instead of the call stack.
pub fn ray_color_iter(r: Ray, world: &HittableList, depth: i32, debug_depth: bool) -> (color:
    Color)
    requires
        list_wf(*world),
    ensures
        depth <= 0 ==> color == exhaust_color(debug_depth),
        world.objects@.len() == 0 && depth > 0 ==> color == sky_of(r),
        list_hit_spec(world.objects@, r, T_NEAR as int, T_FAR as int) is None && depth > 0
            ==> color == sky_of(r),
        depth > 0 ==> ray_color_iter_rel(
            r,
            world.objects@,
            depth as int,
            debug_depth,
            white(),
            color,
        ),
        bounded(color, COLOR_LIMIT as int),
{
    // If we've exceeded the ray bounce limit, no more light is gathered.
    if depth <= 0 {
        if debug_depth {
            return Vec3::new(SCALE, 0, 0);
        } else {
            return Vec3::new(0, 0, 0);
        }
    }
    let mut final_color: Color = Vec3::new(SCALE, SCALE, SCALE);
    let mut remain_depth: i32 = depth;
    let mut cur_ray: Ray = r;
    let mut result: Color = Vec3::new(0, 0, 0);
    let mut done: bool = false;
    while !done
        invariant
            list_wf(*world),
            bounded(final_color, SCALE as int),
            !done ==> remain_depth >= 1,
            !done && world.objects@.len() == 0 ==> final_color == white() && cur_ray == r,
            !done && list_hit_spec(world.objects@, r, T_NEAR as int, T_FAR as int) is None
                ==> final_color == white() && cur_ray == r,
            depth > 0,
            !done ==> (forall|c2: Color|
                #[trigger] ray_color_iter_rel(
                    cur_ray,
                    world.objects@,
                    remain_depth as int,
                    debug_depth,
                    final_color,
                    c2,
                ) ==> ray_color_iter_rel(
                    r,
                    world.objects@,
                    depth as int,
                    debug_depth,
                    white(),
                    c2,
                )),
            done ==> ray_color_iter_rel(
                r,
                world.objects@,
                depth as int,
                debug_depth,
                white(),
                result,
            ),
            done ==> bounded(result, COLOR_LIMIT as int) && (world.objects@.len() == 0 ==> result
                == sky_of(r)) && (list_hit_spec(world.objects@, r, T_NEAR as int, T_FAR as int)
                is None ==> result == sky_of(r)),
        decreases (if done {
            0int
        } else {
            remain_depth + 1
        }),
    {
        match world.hit(cur_ray, T_NEAR, T_FAR) {
            None => {
                let sky: Color = sky_for(cur_ray);
                proof {
                    lemma_vmul_bound(
                        final_color,
                        sky,
                        SCALE as int,
                        COLOR_LIMIT as int,
                        COLOR_LIMIT as int,
                    );
                    if world.objects@.len() == 0 || list_hit_spec(
                        world.objects@,
                        r,
                        T_NEAR as int,
                        T_FAR as int,
                    ) is None {
                        lemma_vmul_white_identity(sky);
                    }
                }
                result = final_color.mul(sky);
                done = true;
                proof {
                    assert(ray_color_iter_rel(
                        cur_ray,
                        world.objects@,
                        remain_depth as int,
                        debug_depth,
                        final_color,
                        result,
                    ));
                }
            },
            Some(rec) => {
                let sres: Option<(Color, Ray)> = rec.material.scatter(cur_ray, rec);
                match sres {
                    Some((attenuation, scattered)) => {
                        let ghost cur0 = cur_ray;
                        let ghost rem0 = remain_depth as int;
                        let ghost acc0 = final_color;
                        proof {
                            lemma_vmul_bound(
                                final_color,
                                attenuation,
                                SCALE as int,
                                SCALE as int,
                                SCALE as int,
                            );
                        }
                        final_color = final_color.mul(attenuation);
                        cur_ray = scattered;
                        remain_depth = remain_depth - 1;
                        proof {
                            assert(scatter_post(rec.material, cur0, rec, Some((attenuation,
                            scattered))));
                            assert forall|c2: Color|
                                #[trigger] ray_color_iter_rel(
                                    cur_ray,
                                    world.objects@,
                                    remain_depth as int,
                                    debug_depth,
                                    final_color,
                                    c2,
                                ) implies ray_color_iter_rel(
                                r,
                                world.objects@,
                                depth as int,
                                debug_depth,
                                white(),
                                c2,
                            ) by {
                                assert(ray_color_iter_rel(cur0, world.objects@, rem0, debug_depth,
                                    acc0, c2,
                                ));
                            }
                        }
                        // If we've exceeded the ray bounce limit, no more
                        // light is gathered.
                        if remain_depth <= 0 {
                            let sentinel: Color = if debug_depth {
                                Vec3::new(SCALE, 0, 0)
                            } else {
                                Vec3::new(0, 0, 0)
                            };
                            proof {
                                lemma_vmul_bound(
                                    final_color,
                                    sentinel,
                                    SCALE as int,
                                    SCALE as int,
                                    SCALE as int,
                                );
                            }
                            result = final_color.mul(sentinel);
                            done = true;
                            proof {
                                assert(ray_color_iter_rel(
                                    cur_ray,
                                    world.objects@,
                                    remain_depth as int,
                                    debug_depth,
                                    final_color,
                                    result,
                                ));
                            }
                        }
                    },
                    None => {
                        proof {
                            lemma_vmul_bound(final_color, black(), SCALE as int, 0, 0);
                        }
                        result = final_color.mul(Vec3::new(0, 0, 0));
                        done = true;
                        proof {
                            assert(scatter_post(rec.material, cur_ray, rec, sres));
                            assert(ray_color_iter_rel(
                                cur_ray,
                                world.objects@,
                                remain_depth as int,
                                debug_depth,
                                final_color,
                                result,
                            ));
                        }
                    },
                }
            },
        }
    }
    result
}

/// Batched integrator: evaluates many independently sampled rays with the
/// iterative single-ray form.
pub fn ray_color(rays: Vec<Ray>, world: &HittableList, depth: i32, debug_depth: bool) -> (colors:
    Vec<Color>)
    requires
        list_wf(*world),
    ensures
        colors@.len() == rays@.len(),
        forall|i: int|
            0 <= i < rays@.len() ==> (depth <= 0 ==> #[trigger] colors@[i] == exhaust_color(
                debug_depth,
            )) && (world.objects@.len() == 0 && depth > 0 ==> colors@[i] == sky_of(rays@[i])) && (
            list_hit_spec(world.objects@, rays@[i], T_NEAR as int, T_FAR as int) is None && depth
                > 0 ==> colors@[i] == sky_of(rays@[i])) && (depth > 0 ==> ray_color_iter_rel(
                rays@[i],
                world.objects@,
                depth as int,
                debug_depth,
                white(),
                colors@[i],
            )) && bounded(colors@[i], COLOR_LIMIT as int),
{
    let mut colors: Vec<Color> = Vec::new();
    let n: usize = rays.len();
    let mut i: usize = 0;
    while i < n
        invariant
            list_wf(*world),
            n == rays@.len(),
            0 <= i <= n,
            colors@.len() == i,
            forall|j: int|
                0 <= j < i ==> (depth <= 0 ==> #[trigger] colors@[j] == exhaust_color(debug_depth))
                    && (world.objects@.len() == 0 && depth > 0 ==> colors@[j] == sky_of(rays@[j]))
                    && (list_hit_spec(world.objects@, rays@[j], T_NEAR as int, T_FAR as int)
                    is None && depth > 0 ==> colors@[j] == sky_of(rays@[j])) && (depth > 0
                    ==> ray_color_iter_rel(
                    rays@[j],
                    world.objects@,
                    depth as int,
                    debug_depth,
                    white(),
                    colors@[j],
                )) && bounded(colors@[j], COLOR_LIMIT as int),
        decreases n - i,
    {
        let c: Color = ray_color_iter(rays[i], world, depth, debug_depth);
        colors.push(c);
        i = i + 1;
    }
    colors
}

} // verus!
