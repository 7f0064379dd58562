//! Ray-sphere intersection.

use vstd::prelude::*;

verus! {

use crate::fixed::SCALE;
use crate::fixed::fdiv;
use crate::fixed::fmul;
use crate::fixed::fsqrt;
use crate::fixed::iabs;
use crate::fixed::is_sqrt_floor;
use crate::fixed::lemma_fmul_bound;
use crate::fixed::mul_fx;
use crate::fixed::div_fx;
use crate::fixed::sqrt_fx;
use crate::hittable::HitRecord;
use crate::hittable::NORMAL_LIMIT;
use crate::hittable::P_LIMIT;
use crate::hittable::rec_wf;
use crate::material::Material;
use crate::material::mat_wf;
use crate::ray::Ray;
use crate::ray::ray_at;
use crate::vec3::Point3;
use crate::vec3::Vec3;
use crate::vec3::bounded;
use crate::vec3::dot;
use crate::vec3::is_zero;
use crate::vec3::lemma_vdot_bound;
use crate::vec3::lemma_vdot_neg;
use crate::vec3::sum_sq;
use crate::vec3::vdivs;
use crate::vec3::vdot;
use crate::vec3::vls;
use crate::vec3::vneg;
use crate::vec3::vscale;
use crate::vec3::vsub;

/// Magnitude cap on scene coordinates and radii.
pub const WORLD_LIMIT: i128 = 0x4000_0000;

/// Rays with larger components are treated as missing everything:
/// beyond this the quadratic's terms would not be representable.
pub const RAY_GUARD: i128 = 0x100_0000_0000;

/// Parametric window bound accepted by intersection tests.
pub const RANGE_GUARD: i128 = 0x10_0000_0000_0000;

/// Rounding tolerance on the squared length of a returned outward normal:
/// a hit whose quantized normal strays further from unit length than this
/// is treated as a miss.
pub const NORMAL_LS_TOL: i128 = 10000;

#[derive(Clone, Copy, PartialEq, Eq, Structural, Debug)]
pub struct Sphere {
    pub center: Point3,
    pub radius: i128,
    pub material: Material,
}

pub open spec fn sphere_wf(s: Sphere) -> bool {
    bounded(s.center, WORLD_LIMIT as int) && s.radius != 0 && iabs(s.radius as int)
        <= WORLD_LIMIT as int && mat_wf(s.material)
}

/// The record built for an accepted root, or nothing when the hit point
/// or outward normal falls outside the representable range.
pub open spec fn sphere_rec_at(s: Sphere, r: Ray, root: int) -> Option<HitRecord> {
    let p = ray_at(r, root);
    if !bounded(p, P_LIMIT as int) {
        None
    } else {
        let outward = vdivs(vsub(p, s.center), s.radius as int);
        if !(bounded(outward, NORMAL_LIMIT as int) && SCALE as int - NORMAL_LS_TOL as int <= vls(
            outward,
        ) <= SCALE as int + NORMAL_LS_TOL as int) {
            None
        } else {
            let ff = vdot(r.direction, outward) < 0;
            Some(
                HitRecord {
                    p,
                    normal: if ff {
                        outward
                    } else {
                        vneg(outward)
                    },
                    material: s.material,
                    t: root as i128,
                    front_face: ff,
                },
            )
        }
    }
}

/// The canonical two-root, nearest-in-range sphere intersection, with
/// range guards on the inputs mirrored exactly from the executable code.
pub open spec fn sphere_hit_spec(s: Sphere, r: Ray, t_min: int, t_max: int) -> Option<HitRecord> {
    if !(bounded(r.direction, RAY_GUARD as int) && bounded(r.origin, RAY_GUARD as int)
        && -(RANGE_GUARD as int) <= t_min <= RANGE_GUARD as int && -(RANGE_GUARD as int) <= t_max
        <= RANGE_GUARD as int) {
        None
    } else {
        let oc = vsub(r.origin, s.center);
        let a = vls(r.direction);
        let half_b = vdot(oc, r.direction);
        let c = vls(oc) - fmul(s.radius as int, s.radius as int);
        if a == 0 {
            None
        } else {
            let discriminant = fmul(half_b, half_b) - fmul(a, c);
            if discriminant < 0 {
                None
            } else {
                let sqrtd = fsqrt(discriminant);
                let root1 = fdiv(-half_b - sqrtd, a);
                let root2 = fdiv(-half_b + sqrtd, a);
                if !(root1 < t_min || t_max < root1) {
                    sphere_rec_at(s, r, root1)
                } else if !(root2 < t_min || t_max < root2) {
                    sphere_rec_at(s, r, root2)
                } else {
                    None
                }
            }
        }
    }
}

impl Sphere {
    pub fn new(center: Point3, radius: i128, material: Material) -> (s: Sphere)
        requires
            bounded(center, WORLD_LIMIT as int),
            radius != 0,
            iabs(radius as int) <= WORLD_LIMIT as int,
            mat_wf(material),
        ensures
            s == (Sphere { center, radius, material }),
            sphere_wf(s),
    {
        Sphere { center, radius, material }
    }

    /// Builds the hit record for an accepted root.
    fn rec_at(&self, r: Ray, root: i128) -> (res: Option<HitRecord>)
        requires
            sphere_wf(*self),
            bounded(r.direction, RAY_GUARD as int),
            bounded(r.origin, RAY_GUARD as int),
            iabs(root as int) <= RANGE_GUARD as int,
        ensures
            res == sphere_rec_at(*self, r, root as int),
            match res {
                Some(rec) => rec_wf(rec) && rec.material == self.material && rec.t == root && vdot(
                    r.direction,
                    rec.normal,
                ) <= 0 && SCALE as int - NORMAL_LS_TOL as int <= vls(rec.normal) <= SCALE as int
                    + NORMAL_LS_TOL as int,
                None => true,
            },
    {
        let p: Point3 = r.at(root);
        if !p.in_bounds(crate::hittable::P_LIMIT) {
            return None;
        }
        let po: Vec3 = p.sub(self.center);
        let outward_normal: Vec3 = po.div(self.radius);
        if !outward_normal.in_bounds(crate::hittable::NORMAL_LIMIT) {
            return None;
        }
        let nls: i128 = outward_normal.length_squared();
        if !(SCALE - NORMAL_LS_TOL <= nls && nls <= SCALE + NORMAL_LS_TOL) {
            return None;
        }
        let mut rec = HitRecord {
            p,
            t: root,
            material: self.material,
            normal: outward_normal,
            front_face: false,
        };
        rec.set_face_normal(r, outward_normal);
        proof {
            lemma_vdot_neg(r.direction, outward_normal);
            crate::vec3::lemma_vls_neg(outward_normal);
        }
        Some(rec)
    }

    /// Solves the quadratic for the nearest root inside `[t_min, t_max]`.
    pub fn hit(&self, r: Ray, t_min: i128, t_max: i128) -> (res: Option<HitRecord>)
        requires
            sphere_wf(*self),
        ensures
            res == sphere_hit_spec(*self, r, t_min as int, t_max as int),
            match res {
                Some(rec) => t_min <= rec.t <= t_max && rec_wf(rec) && rec.material
                    == self.material && vdot(r.direction, rec.normal) <= 0 && !is_zero(r.direction)
                    && bounded(r.direction, 0x1000_0000_0000_0000) && SCALE as int
                    - NORMAL_LS_TOL as int <= vls(rec.normal) <= SCALE as int
                    + NORMAL_LS_TOL as int,
                None => true,
            },
    {
        if !(r.direction().in_bounds(RAY_GUARD) && r.origin().in_bounds(RAY_GUARD) && -RANGE_GUARD
            <= t_min && t_min <= RANGE_GUARD && -RANGE_GUARD <= t_max && t_max <= RANGE_GUARD) {
            return None;
        }
        let oc: Vec3 = r.origin().sub(self.center);
        let a: i128 = r.direction().length_squared();
        proof {
            lemma_vdot_bound(r.direction, r.direction, 1200000000000, 4400000000000000000);
            crate::vec3::lemma_dot_self_is_length_squared(r.direction);
            lemma_vdot_bound(oc, r.direction, 1200000000000, 4400000000000000000);
            lemma_vdot_bound(oc, oc, 1200000000000, 4400000000000000000);
            crate::vec3::lemma_dot_self_is_length_squared(oc);
            lemma_fmul_bound(
                self.radius as int,
                self.radius as int,
                WORLD_LIMIT as int,
                WORLD_LIMIT as int,
                1200000000000,
            );
        }
        let half_b: i128 = dot(oc, r.direction());
        let c: i128 = oc.length_squared() - mul_fx(self.radius, self.radius);
        if a == 0 {
            return None;
        }
        proof {
            if is_zero(r.direction) {
                lemma_zero_direction_misses(r.direction);
            }
            lemma_fmul_bound(
                half_b as int,
                half_b as int,
                4400000000000000000,
                4400000000000000000,
                20000000000000000000000000000000,
            );
            lemma_fmul_bound(
                a as int,
                c as int,
                4400000000000000000,
                4401200000000000000,
                20000000000000000000000000000000,
            );
        }
        let discriminant: i128 = mul_fx(half_b, half_b) - mul_fx(a, c);
        if discriminant < 0 {
            return None;
        }
        let sqrtd: i128 = sqrt_fx(discriminant);
        proof {
            assert(iabs(sqrtd as int) <= 7000000000000000000) by (nonlinear_arith)
                requires
                    is_sqrt_floor((discriminant as int) * (SCALE as int), sqrtd as int) && 0
                        <= sqrtd && 0 <= (discriminant as int) * (SCALE as int)
                        <= 40000000000000000000000000000000 * 1000000,
            ;
            assert((discriminant as int) * (SCALE as int)
                <= 40000000000000000000000000000000 * 1000000);
        }

        // Find the nearest root that lies in the acceptable range.
        let root1: i128 = div_fx(-half_b - sqrtd, a);
        if !(root1 < t_min || t_max < root1) {
            return self.rec_at(r, root1);
        }
        let root2: i128 = div_fx(-half_b + sqrtd, a);
        if !(root2 < t_min || t_max < root2) {
            return self.rec_at(r, root2);
        }
        None
    }
}

/// The product of a direction component with the matching outward-normal
/// component is never negative when the ray starts at the center.
proof fn lemma_center_outward_component(root2: int, d: int, rad: int)
    requires
        0 <= root2 <= RANGE_GUARD as int,
        iabs(d) <= RAY_GUARD as int,
        1 <= rad,
    ensures
        d * fdiv(fmul(root2, d), rad) >= 0,
{
    let k = fmul(root2, d);
    let o = fdiv(k, rad);
    if d >= 0 {
        vstd::arithmetic::mul::lemma_mul_nonnegative(root2, d);
        crate::fixed::lemma_dtr_sign(root2 * d, SCALE as int);
        assert(k >= 0);
        crate::fixed::lemma_dtr_sign(k * (SCALE as int), rad);
        vstd::arithmetic::mul::lemma_mul_nonnegative(d, o);
    } else {
        assert(root2 * d <= 0) by (nonlinear_arith)
            requires
                root2 >= 0 && d < 0,
        ;
        crate::fixed::lemma_dtr_sign(root2 * d, SCALE as int);
        assert(k <= 0);
        crate::fixed::lemma_dtr_sign(k * (SCALE as int), rad);
        assert(o <= 0);
        assert(d * o >= 0) by (nonlinear_arith)
            requires
                d < 0 && o <= 0,
        ;
    }
}

/// Law: a ray cast from the sphere's center never accepts the smaller
/// root, which is never positive: only the larger root can fall inside a
/// positive window, and a hit built from it strikes a back face.
pub proof fn lemma_center_origin_selects_larger_root(s: Sphere, r: Ray, t_min: int, t_max: int)
    requires
        sphere_wf(s),
        r.origin == s.center,
        s.radius > 0,
        bounded(r.direction, RAY_GUARD as int),
        bounded(r.origin, RAY_GUARD as int),
        0 < t_min <= RANGE_GUARD as int,
        t_min <= t_max <= RANGE_GUARD as int,
        vls(r.direction) > 0,
    ensures
        ({
            let a = vls(r.direction);
            let sqrtd = fsqrt(fmul(a, fmul(s.radius as int, s.radius as int)));
            let root2 = fdiv(sqrtd, a);
            &&& fdiv(-sqrtd, a) <= 0
            &&& sphere_hit_spec(s, r, t_min, t_max) == (if t_min <= root2 <= t_max {
                sphere_rec_at(s, r, root2)
            } else {
                None::<HitRecord>
            })
            &&& (t_min <= root2 <= t_max ==> match sphere_rec_at(s, r, root2) {
                Some(rec) => rec.t == root2 as i128 && !rec.front_face,
                None => true,
            })
        }),
{
    let oc = vsub(r.origin, s.center);
    assert(is_zero(oc));
    lemma_zero_direction_misses(oc);
    let a = vls(r.direction);
    let dx = r.direction.x as int;
    let dy = r.direction.y as int;
    let dz = r.direction.z as int;
    assert((oc.x as int) * dx == 0 && (oc.y as int) * dy == 0 && (oc.z as int) * dz == 0)
        by (nonlinear_arith)
        requires
            oc.x == 0 && oc.y == 0 && oc.z == 0,
    ;
    vstd::arithmetic::div_mod::lemma_div_of0(SCALE as int);
    let half_b = vdot(oc, r.direction);
    assert(half_b == 0);
    let m = fmul(s.radius as int, s.radius as int);
    vstd::arithmetic::mul::lemma_mul_nonnegative(s.radius as int, s.radius as int);
    crate::fixed::lemma_dtr_sign((s.radius as int) * (s.radius as int), SCALE as int);
    assert(m >= 0);
    let c = vls(oc) - m;
    assert(c == -m);
    assert(half_b * half_b == 0) by (nonlinear_arith)
        requires
            half_b == 0,
    ;
    assert(fmul(half_b, half_b) == 0);
    assert(a * c == -(a * m)) by (nonlinear_arith)
        requires
            c == -m,
    ;
    crate::fixed::lemma_dtr_neg(a * m, SCALE as int);
    let discriminant = fmul(half_b, half_b) - fmul(a, c);
    vstd::arithmetic::mul::lemma_mul_nonnegative(a, m);
    crate::fixed::lemma_dtr_sign(a * m, SCALE as int);
    assert(discriminant == fmul(a, m));
    assert(discriminant >= 0);
    vstd::arithmetic::mul::lemma_mul_nonnegative(discriminant, SCALE as int);
    crate::vec3::lemma_sqrt_exists(discriminant * (SCALE as int));
    let w = choose|w: int| #[trigger] is_sqrt_floor(discriminant * (SCALE as int), w);
    let sqrtd = fsqrt(discriminant);
    assert(is_sqrt_floor(discriminant * (SCALE as int), sqrtd));
    assert(sqrtd >= 0);
    vstd::arithmetic::mul::lemma_mul_nonnegative(sqrtd, SCALE as int);
    crate::fixed::lemma_dtr_sign(sqrtd * (SCALE as int), a);
    crate::fixed::lemma_dtr_neg(sqrtd * (SCALE as int), a);
    assert((-sqrtd) * (SCALE as int) == -(sqrtd * (SCALE as int))) by (nonlinear_arith);
    let root1 = fdiv(-half_b - sqrtd, a);
    let root2 = fdiv(-half_b + sqrtd, a);
    assert(root1 == fdiv(-sqrtd, a));
    assert(root1 <= 0);
    assert(root2 == fdiv(sqrtd, a));
    assert(root2 >= 0);
    assert(root1 < t_min);
    if t_min <= root2 <= t_max {
        // The accepted record, if any, faces backward: every direction
        // component agrees in sign with the outward normal's.
        let k = vscale(root2, r.direction);
        let p = ray_at(r, root2);
        crate::fixed::lemma_fmul_bound(root2, dx, RANGE_GUARD as int, RAY_GUARD as int,
            10000000000000000000000,
        );
        crate::fixed::lemma_fmul_bound(root2, dy, RANGE_GUARD as int, RAY_GUARD as int,
            10000000000000000000000,
        );
        crate::fixed::lemma_fmul_bound(root2, dz, RANGE_GUARD as int, RAY_GUARD as int,
            10000000000000000000000,
        );
        assert(vsub(p, s.center) == k);
        let outward = vdivs(k, s.radius as int);
        lemma_center_outward_component(root2, dx, s.radius as int);
        lemma_center_outward_component(root2, dy, s.radius as int);
        lemma_center_outward_component(root2, dz, s.radius as int);
        assert(dx * (outward.x as int) + dy * (outward.y as int) + dz * (outward.z as int) >= 0);
        crate::fixed::lemma_dtr_sign(
            dx * (outward.x as int) + dy * (outward.y as int) + dz * (outward.z as int),
            SCALE as int,
        );
        assert(vdot(r.direction, outward) >= 0);
    }
}

/// A zero direction always has zero squared length, so it is never
/// accepted by the intersection test.
pub proof fn lemma_zero_direction_misses(v: Vec3)
    requires
        is_zero(v),
    ensures
        vls(v) == 0,
{
    assert(sum_sq(v) == 0) by (nonlinear_arith)
        requires
            v.x == 0 && v.y == 0 && v.z == 0,
    ;
    vstd::arithmetic::div_mod::lemma_div_of0(SCALE as int);
}

} // verus!
