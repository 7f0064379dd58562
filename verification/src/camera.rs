//! The pinhole-with-lens camera: viewing configuration in, jittered rays out.

use vstd::prelude::*;

verus! {

use crate::fixed::SCALE;
use crate::fixed::dtr;
use crate::fixed::fdiv;
use crate::fixed::fmul;
use crate::fixed::div_fx;
use crate::fixed::div_trunc;
use crate::fixed::lemma_dtr_mono;
use crate::fixed::lemma_fmul_bound;
use crate::fixed::mul_fx;
use crate::ray::Ray;
use crate::sphere::WORLD_LIMIT;
use crate::trig::lemma_trig_bounds;
use crate::trig::tan_fx;
use crate::trig::tan_fx_spec;
use crate::vec3::Point3;
use crate::vec3::Vec3;
use crate::vec3::bounded;
use crate::vec3::cross;
use crate::vec3::is_zero;
use crate::vec3::lemma_fdiv_vec_bound;
use crate::vec3::lemma_vscale_bound;
use crate::vec3::random_in_unit_disk;
use crate::vec3::unit;
use crate::vec3::vadd;
use crate::vec3::vcross;
use crate::vec3::vdivs;
use crate::vec3::vls;
use crate::vec3::vscale;
use crate::vec3::vsub;
use crate::vec3::vunit;
use vstd::arithmetic::div_mod::lemma_div_pos_is_pos;

/// Raw radians per raw degree times 360, i.e. pi at the working scale.
pub const PI_FX: i128 = 3141593;

/// The largest admitted vertical field of view: a right angle.
pub const VFOV_LIMIT: i128 = 90000000;

/// The largest admitted aspect ratio.
pub const ASPECT_LIMIT: i128 = 0x200_0000;

#[derive(Clone, Copy, PartialEq, Eq, Structural, Debug)]
pub struct Camera {
    pub origin: Point3,
    pub lower_left_corner: Point3,
    pub horizontal: Vec3,
    pub vertical: Vec3,
    pub u: Vec3,
    pub v: Vec3,
    pub w: Vec3,
    pub lens_radius: i128,
}

/// Half the field of view, converted from raw degrees to raw radians.
pub open spec fn camera_half_angle(vfov: int) -> int {
    dtr(vfov * PI_FX as int, 360 * SCALE as int)
}

/// Every derived field of the camera, as a function of the parameters alone.
pub open spec fn camera_spec(
    look_from: Point3,
    look_at: Point3,
    vup: Vec3,
    vfov: int,
    aspect_ratio: int,
    aperture: int,
    focus_dist: int,
) -> Camera {
    let h = tan_fx_spec(camera_half_angle(vfov));
    let viewport_height = fmul(2 * SCALE as int, h);
    let viewport_width = fmul(aspect_ratio, viewport_height);
    let w = vunit(vsub(look_from, look_at));
    let u = vunit(vcross(vup, w));
    let v = vcross(w, u);
    let horizontal = vscale(fmul(focus_dist, viewport_width), u);
    let vertical = vscale(fmul(focus_dist, viewport_height), v);
    let lower_left_corner = vsub(
        vsub(vsub(look_from, vdivs(horizontal, 2 * SCALE as int)), vdivs(vertical, 2 * SCALE as int)),
        vscale(focus_dist, w),
    );
    Camera {
        origin: look_from,
        lower_left_corner,
        horizontal,
        vertical,
        u,
        v,
        w,
        lens_radius: fdiv(aperture, 2 * SCALE as int) as i128,
    }
}

/// What the constructor accepts.
pub open spec fn camera_params_wf(
    look_from: Point3,
    look_at: Point3,
    vup: Vec3,
    vfov: int,
    aspect_ratio: int,
    aperture: int,
    focus_dist: int,
) -> bool {
    bounded(look_from, WORLD_LIMIT as int) && bounded(look_at, WORLD_LIMIT as int) && bounded(
        vup,
        WORLD_LIMIT as int,
    ) && !is_zero(vsub(look_from, look_at)) && !is_zero(
        vcross(vup, vunit(vsub(look_from, look_at))),
    ) && 0 < vfov <= VFOV_LIMIT as int && 0 < aspect_ratio <= ASPECT_LIMIT as int && 0 <= aperture
        <= WORLD_LIMIT as int && 0 < focus_dist <= WORLD_LIMIT as int
}

/// Field bounds that every constructed camera satisfies.
pub open spec fn camera_wf(c: Camera) -> bool {
    bounded(c.origin, 2000000000) && bounded(c.lower_left_corner, 60000000000) && bounded(
        c.horizontal,
        100000000000,
    ) && bounded(c.vertical, 100000000000) && bounded(c.u, SCALE as int) && bounded(
        c.v,
        2 * SCALE as int,
    ) && bounded(c.w, SCALE as int) && 0 <= c.lens_radius <= 600000000
}

/// The ray cast for plane coordinates `(s, t)` and lens sample `rd`.
pub open spec fn get_ray_spec(c: Camera, s: int, t: int, rd: Vec3) -> Ray {
    let rds = vscale(c.lens_radius as int, rd);
    let offset = vadd(vscale(rds.x as int, c.u), vscale(rds.y as int, c.v));
    Ray {
        origin: vadd(c.origin, offset),
        direction: vsub(
            vsub(
                vadd(vadd(c.lower_left_corner, vscale(s, c.horizontal)), vscale(t, c.vertical)),
                c.origin,
            ),
            offset,
        ),
    }
}

impl Camera {
    #[verifier::rlimit(100)]
    pub fn new(
        look_from: Point3,
        look_at: Point3,
        vup: Vec3,
        vfov: i128,
        aspect_ratio: i128,
        aperture: i128,
        focus_dist: i128,
    ) -> (cam: Camera)
        requires
            camera_params_wf(
                look_from,
                look_at,
                vup,
                vfov as int,
                aspect_ratio as int,
                aperture as int,
                focus_dist as int,
            ),
        ensures
            cam == camera_spec(
                look_from,
                look_at,
                vup,
                vfov as int,
                aspect_ratio as int,
                aperture as int,
                focus_dist as int,
            ),
            camera_wf(cam),
    {
        proof {
            crate::fixed::lemma_abs_mul_le(vfov as int, PI_FX as int, VFOV_LIMIT as int,
                PI_FX as int,
            );
            vstd::arithmetic::mul::lemma_mul_nonnegative(vfov as int, PI_FX as int);
            lemma_dtr_mono(vfov as int * PI_FX as int, 282743370000000, 360 * SCALE as int);
            assert(dtr(282743370000000, 360 * SCALE as int) == 785398) by {
                vstd::arithmetic::div_mod::lemma_fundamental_div_mod_converse(
                    282743370000000,
                    360000000,
                    785398,
                    90000000,
                );
            }
        }
        let theta_half: i128 = div_trunc(vfov * PI_FX, 360 * SCALE);
        let h: i128 = tan_fx(theta_half);
        proof {
            lemma_trig_bounds(theta_half as int);
            lemma_fmul_bound(2 * SCALE as int, h as int, 2 * SCALE as int, 1260000, 2520000);
            lemma_fmul_bound(
                aspect_ratio as int,
                fmul(2 * SCALE as int, h as int),
                ASPECT_LIMIT as int,
                2520000,
                90000000,
            );
        }
        let viewport_height: i128 = mul_fx(2 * SCALE, h);
        let viewport_width: i128 = mul_fx(aspect_ratio, viewport_height);

        let w: Vec3 = unit(look_from.sub(look_at));
        proof {
            crate::vec3::lemma_vcross_bound(
                vup,
                vunit(vsub(look_from, look_at)),
                WORLD_LIMIT as int,
                1160000000000,
            );
        }
        let u: Vec3 = unit(cross(vup, w));
        let v: Vec3 = cross(w, u);
        proof {
            assert(bounded(v, 2 * SCALE as int)) by {
                crate::vec3::lemma_vcross_bound(w, u, SCALE as int, SCALE as int);
            }
            lemma_fmul_bound(focus_dist as int, viewport_width as int, WORLD_LIMIT as int,
                90000000, 100000000000,
            );
            lemma_fmul_bound(focus_dist as int, viewport_height as int, WORLD_LIMIT as int,
                2520000, 2800000000,
            );
            lemma_vscale_bound(
                fmul(focus_dist as int, viewport_width as int),
                u,
                100000000000,
                SCALE as int,
                100000000000,
            );
            lemma_vscale_bound(
                fmul(focus_dist as int, viewport_height as int),
                v,
                2800000000,
                2 * SCALE as int,
                5600000000,
            );
        }
        let horizontal: Vec3 = u.scale(mul_fx(focus_dist, viewport_width));
        let vertical: Vec3 = v.scale(mul_fx(focus_dist, viewport_height));
        proof {
            lemma_fdiv_vec_bound(horizontal, 2 * SCALE as int, 100000000000, 50000000000);
            lemma_fdiv_vec_bound(vertical, 2 * SCALE as int, 5600000000, 2800000000);
            lemma_vscale_bound(focus_dist as int, w, WORLD_LIMIT as int, SCALE as int,
                WORLD_LIMIT as int,
            );
        }
        let lower_left_corner: Vec3 = look_from.sub(horizontal.div(2 * SCALE)).sub(
            vertical.div(2 * SCALE),
        ).sub(w.scale(focus_dist));
        proof {
            crate::fixed::lemma_fdiv_bound(aperture as int, 2 * SCALE as int, 600000000);
            lemma_div_pos_is_pos(aperture as int * SCALE as int, 2 * SCALE as int);
            vstd::arithmetic::mul::lemma_mul_nonnegative(aperture as int, SCALE as int);
        }
        let lens_radius: i128 = div_fx(aperture, 2 * SCALE);
        Camera { origin: look_from, lower_left_corner, horizontal, vertical, u, v, w, lens_radius }
    }

    /// The deterministic part of ray generation, for a given lens sample.
    pub fn get_ray_with(&self, s: i128, t: i128, rd: Vec3) -> (r: Ray)
        requires
            camera_wf(*self),
            0 <= s <= SCALE,
            0 <= t <= SCALE,
            bounded(rd, SCALE as int),
        ensures
            r == get_ray_spec(*self, s as int, t as int, rd),
            bounded(r.origin, crate::sphere::RAY_GUARD as int),
            bounded(r.direction, crate::sphere::RAY_GUARD as int),
    {
        proof {
            lemma_vscale_bound(self.lens_radius as int, rd, 600000000, SCALE as int, 600000000);
            lemma_vscale_bound(
                vscale(self.lens_radius as int, rd).x as int,
                self.u,
                600000000,
                SCALE as int,
                600000000,
            );
            lemma_vscale_bound(
                vscale(self.lens_radius as int, rd).y as int,
                self.v,
                600000000,
                2 * SCALE as int,
                1200000000,
            );
            lemma_vscale_bound(s as int, self.horizontal, SCALE as int, 100000000000, 100000000000);
            lemma_vscale_bound(t as int, self.vertical, SCALE as int, 100000000000, 100000000000);
        }
        let rds: Vec3 = rd.scale(self.lens_radius);
        let offset: Vec3 = self.u.scale(rds.x()).add(self.v.scale(rds.y()));

        Ray::new(
            self.origin.add(offset),
            self.lower_left_corner.add(self.horizontal.scale(s)).add(self.vertical.scale(t)).sub(
                self.origin,
            ).sub(offset),
        )
    }

    /// Casts the ray for plane coordinates `(s, t)` with a fresh lens sample.
    pub fn get_ray(&self, s: i128, t: i128) -> (r: Ray)
        requires
            camera_wf(*self),
            0 <= s <= SCALE,
            0 <= t <= SCALE,
        ensures
            exists|rd: Vec3|
                bounded(rd, SCALE as int) && vls(rd) < SCALE as int && rd.z == 0 && r
                    == #[trigger] get_ray_spec(*self, s as int, t as int, rd),
            bounded(r.origin, crate::sphere::RAY_GUARD as int),
            bounded(r.direction, crate::sphere::RAY_GUARD as int),
    {
        let rd: Vec3 = random_in_unit_disk();
        let r = self.get_ray_with(s, t, rd);
        proof {
            assert(r == get_ray_spec(*self, s as int, t as int, rd));
        }
        r
    }
}

/// Law: the derived fields are a function of the seven parameters alone,
/// so two cameras built from identical parameters are identical.
pub proof fn lemma_camera_deterministic(
    look_from: Point3,
    look_at: Point3,
    vup: Vec3,
    vfov: int,
    aspect_ratio: int,
    aperture: int,
    focus_dist: int,
    c1: Camera,
    c2: Camera,
)
    requires
        c1 == camera_spec(look_from, look_at, vup, vfov, aspect_ratio, aperture, focus_dist),
        c2 == camera_spec(look_from, look_at, vup, vfov, aspect_ratio, aperture, focus_dist),
    ensures
        c1 == c2,
{
}

} // verus!
