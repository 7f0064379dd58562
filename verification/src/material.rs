//! The three scattering models: diffuse, metallic and refractive.

use vstd::prelude::*;

verus! {

use crate::fixed::SCALE;
use crate::fixed::dtr;
use crate::fixed::fdiv;
use crate::fixed::fmul;
use crate::fixed::fsqrt;
use crate::fixed::iabs;
use crate::fixed::is_sqrt_floor;
use crate::fixed::div_fx;
use crate::fixed::mul_fx;
use crate::fixed::sqrt_fx;
use crate::fixed::lemma_fdiv_bound;
use crate::fixed::lemma_fmul_bound;
use crate::hittable::HitRecord;
use crate::hittable::NORMAL_LIMIT;
use crate::hittable::P_LIMIT;
use crate::ray::Ray;
use crate::rtweekend::random_float;
use crate::vec3::Color;
use crate::vec3::ETA_LIMIT;
use crate::vec3::Vec3;
use crate::vec3::bounded;
use crate::vec3::is_normalized_sample;
use crate::vec3::is_zero;
use crate::vec3::lemma_vdot_bound;
use crate::vec3::lemma_vreflect_bound;
use crate::vec3::lemma_vscale_bound;
use crate::vec3::random_in_unit_sphere;
use crate::vec3::random_unit_vector;
use crate::vec3::reflect;
use crate::vec3::refract;
use crate::vec3::unit;
use crate::vec3::vadd;
use crate::vec3::vdot;
use crate::vec3::vls;
use crate::vec3::vnear_zero;
use crate::vec3::vneg;
use crate::vec3::vreflect;
use crate::vec3::vrefract;
use crate::vec3::vscale;
use crate::vec3::vunit;
use vstd::arithmetic::div_mod::lemma_div_pos_is_pos;

/// Magnitude cap on material parameters (albedo components, fuzz, index).
pub const MAT_LIMIT: i128 = 0x100_0000_0000;

/// Magnitude cap on any scattered ray direction.
pub const SCATTER_DIR_LIMIT: i128 = 250000000000000;

#[derive(Clone, Copy, PartialEq, Eq, Structural, Debug)]
pub struct Lambertian {
    pub albedo: Color,
}

#[derive(Clone, Copy, PartialEq, Eq, Structural, Debug)]
pub struct Metal {
    pub albedo: Color,
    pub fuzz: i128,
}

#[derive(Clone, Copy, PartialEq, Eq, Structural, Debug)]
pub struct Dielectric {
    pub ir: i128,
}

/// The closed set of scattering behaviors.
#[derive(Clone, Copy, PartialEq, Eq, Structural, Debug)]
pub enum Material {
    Lambertian(Lambertian),
    Metal(Metal),
    Dielectric(Dielectric),
}

pub open spec fn mat_wf(m: Material) -> bool {
    match m {
        Material::Lambertian(l) => bounded(l.albedo, SCALE as int),
        Material::Metal(mm) => bounded(mm.albedo, SCALE as int) && -(MAT_LIMIT as int) <= (
        mm.fuzz as int) <= SCALE as int,
        Material::Dielectric(d) => 0 < (d.ir as int) <= MAT_LIMIT as int,
    }
}

/// What a scatter call must accept: a well-formed record and a usable ray.
pub open spec fn scatter_pre(r_in: Ray, rec: HitRecord) -> bool {
    bounded(rec.p, P_LIMIT as int) && bounded(rec.normal, NORMAL_LIMIT as int) && !is_zero(
        r_in.direction,
    ) && bounded(r_in.direction, 0x1000_0000_0000_0000)
}

/// Diffuse bounce direction: normal plus a unit sample, with the normal
/// itself as fallback when the sum degenerates to near zero.
pub open spec fn lambertian_dir(n: Vec3, u: Vec3) -> Vec3 {
    if vnear_zero(vadd(n, u)) {
        n
    } else {
        vadd(n, u)
    }
}

/// Diffuse scatter always succeeds and hands back the albedo untouched.
pub open spec fn lambertian_scatter_post(
    l: Lambertian,
    rec: HitRecord,
    res: Option<(Color, Ray)>,
) -> bool {
    match res {
        Some((att, sc)) => att == l.albedo && sc.origin == rec.p && bounded(
            sc.direction,
            SCATTER_DIR_LIMIT as int,
        ) && (exists|u: Vec3|
            bounded(u, SCALE as int) && is_normalized_sample(u) && sc.direction
                == #[trigger] lambertian_dir(rec.normal, u)),
        None => false,
    }
}

/// Metallic scatter: the mirror direction plus fuzz, kept only when it
/// leaves the surface; with zero fuzz it is the exact mirror reflection.
pub open spec fn metal_scatter_post(
    m: Metal,
    r_in: Ray,
    rec: HitRecord,
    res: Option<(Color, Ray)>,
) -> bool {
    let refl = vreflect(vunit(r_in.direction), rec.normal);
    &&& match res {
        Some((att, sc)) => att == m.albedo && sc.origin == rec.p && vdot(sc.direction, rec.normal)
            > 0 && bounded(sc.direction, SCATTER_DIR_LIMIT as int) && (exists|s: Vec3|
            bounded(s, SCALE as int) && vls(s) < SCALE as int && sc.direction == vadd(
                refl,
                #[trigger] vscale(m.fuzz as int, s),
            )),
        None => true,
    }
    &&& (m.fuzz == 0 && vdot(refl, rec.normal) > 0 ==> res == Some(
        (m.albedo, Ray { origin: rec.p, direction: refl }),
    ))
    &&& (m.fuzz == 0 && vdot(refl, rec.normal) <= 0 ==> res is None)
}

/// Schlick's reflectance approximation, in fixed point.
pub open spec fn schlick(cosine: int, ref_idx: int) -> int {
    let r0 = fdiv(SCALE as int - ref_idx, SCALE as int + ref_idx);
    let r0sq = fmul(r0, r0);
    r0sq + fmul(SCALE as int - r0sq, pow5_fx(SCALE as int - cosine))
}

pub open spec fn pow5_fx(x: int) -> int {
    let p2 = fmul(x, x);
    let p4 = fmul(p2, p2);
    fmul(p4, x)
}

/// The refraction ratio a dielectric uses for a given hit side.
pub open spec fn diel_ratio(d: Dielectric, rec: HitRecord) -> int {
    if rec.front_face {
        fdiv(SCALE as int, d.ir as int)
    } else {
        d.ir as int
    }
}

/// Cosine of the incidence angle, capped at one.
pub open spec fn diel_cos(r_in: Ray, rec: HitRecord) -> int {
    if vdot(vneg(vunit(r_in.direction)), rec.normal) < SCALE as int {
        vdot(vneg(vunit(r_in.direction)), rec.normal)
    } else {
        SCALE as int
    }
}

pub open spec fn diel_sin(r_in: Ray, rec: HitRecord) -> int {
    let k = SCALE as int - fmul(diel_cos(r_in, rec), diel_cos(r_in, rec));
    if k > 0 {
        fsqrt(k)
    } else {
        0
    }
}

/// Total internal reflection test.
pub open spec fn diel_cannot_refract(d: Dielectric, r_in: Ray, rec: HitRecord) -> bool {
    fmul(diel_ratio(d, rec), diel_sin(r_in, rec)) > SCALE as int
}

/// Refractive scatter always succeeds with white attenuation; the outgoing
/// direction is the mirror reflection or the Snell refraction, reflection
/// being forced by total internal reflection and refraction whenever the
/// Schlick term vanishes.
pub open spec fn dielectric_scatter_post(
    d: Dielectric,
    r_in: Ray,
    rec: HitRecord,
    res: Option<(Color, Ray)>,
) -> bool {
    let ud = vunit(r_in.direction);
    let ratio = diel_ratio(d, rec);
    let cannot = diel_cannot_refract(d, r_in, rec);
    let rf = schlick(diel_cos(r_in, rec), ratio);
    match res {
        Some((att, sc)) => att == (Vec3 { x: SCALE, y: SCALE, z: SCALE }) && sc.origin == rec.p
            && bounded(sc.direction, SCATTER_DIR_LIMIT as int) && (sc.direction == vreflect(
            ud,
            rec.normal,
        ) || sc.direction == vrefract(ud, rec.normal, ratio)) && (cannot ==> sc.direction
            == vreflect(ud, rec.normal)) && (!cannot && rf <= 0 ==> sc.direction == vrefract(
            ud,
            rec.normal,
            ratio,
        )),
        None => false,
    }
}

/// What any scatter call guarantees, dispatched on the material kind.
pub open spec fn scatter_post(m: Material, r_in: Ray, rec: HitRecord, res: Option<(Color, Ray)>) -> bool {
    match m {
        Material::Lambertian(l) => lambertian_scatter_post(l, rec, res),
        Material::Metal(mm) => metal_scatter_post(mm, r_in, rec, res),
        Material::Dielectric(d) => dielectric_scatter_post(d, r_in, rec, res),
    }
}

impl Lambertian {
    pub fn new(albedo: Color) -> (r: Lambertian)
        requires
            bounded(albedo, SCALE as int),
        ensures
            r.albedo == albedo,
            mat_wf(Material::Lambertian(r)),
    {
        Lambertian { albedo }
    }

    pub fn scatter(&self, _r_in: Ray, rec: HitRecord) -> (res: Option<(Color, Ray)>)
        requires
            bounded(rec.normal, NORMAL_LIMIT as int),
        ensures
            lambertian_scatter_post(*self, rec, res),
    {
        let ruv: Vec3 = random_unit_vector();
        let mut scatter_direction: Vec3 = rec.normal.add(ruv);

        // Catch degenerate scatter direction
        if scatter_direction.near_zero() {
            scatter_direction = rec.normal;
        }
        proof {
            assert(scatter_direction == lambertian_dir(rec.normal, ruv));
        }
        let scattered = Ray::new(rec.p, scatter_direction);
        let attenuation = self.albedo;
        Some((attenuation, scattered))
    }
}

impl Metal {
    pub fn new(albedo: Color, fuzz: i128) -> (r: Metal)
        requires
            bounded(albedo, SCALE as int),
            iabs(fuzz as int) <= MAT_LIMIT as int,
        ensures
            r.albedo == albedo,
            r.fuzz == (if fuzz > SCALE {
                SCALE
            } else {
                fuzz
            }),
            mat_wf(Material::Metal(r)),
    {
        // Only the upper bound is clamped; a negative fuzz passes through.
        Metal {
            albedo,
            fuzz: if fuzz > SCALE {
                SCALE
            } else {
                fuzz
            },
        }
    }

    pub fn scatter(&self, r_in: Ray, rec: HitRecord) -> (res: Option<(Color, Ray)>)
        requires
            scatter_pre(r_in, rec),
            mat_wf(Material::Metal(*self)),
        ensures
            metal_scatter_post(*self, r_in, rec, res),
    {
        let reflected: Vec3 = reflect(unit(r_in.direction()), rec.normal);
        proof {
            lemma_vreflect_bound(vunit(r_in.direction), rec.normal);
        }
        let fz: Vec3 = random_in_unit_sphere();
        proof {
            lemma_vscale_bound(
                self.fuzz as int,
                fz,
                MAT_LIMIT as int,
                SCALE as int,
                MAT_LIMIT as int,
            );
        }
        let scattered = Ray::new(rec.p, reflected.add(fz.scale(self.fuzz)));
        let attenuation = self.albedo;
        let d: i128 = crate::vec3::dot(scattered.direction(), rec.normal);
        proof {
            if self.fuzz == 0 {
                vstd::arithmetic::div_mod::lemma_div_of0(SCALE as int);
                assert(dtr(0, SCALE as int) == 0);
                assert(0 * (fz.x as int) == 0);
                assert(0 * (fz.y as int) == 0);
                assert(0 * (fz.z as int) == 0);
                assert(fmul(0, fz.x as int) == 0);
                assert(fmul(0, fz.y as int) == 0);
                assert(fmul(0, fz.z as int) == 0);
                assert(vscale(0, fz) == (Vec3 { x: 0i128, y: 0i128, z: 0i128 }));
                assert(scattered.direction == vreflect(vunit(r_in.direction), rec.normal));
            }
            assert(bounded(scattered.direction, SCATTER_DIR_LIMIT as int));
        }
        if d > 0 {
            Some((attenuation, scattered))
        } else {
            None
        }
    }
}

impl Dielectric {
    pub fn new(index_of_refraction: i128) -> (r: Dielectric)
        requires
            0 < index_of_refraction <= MAT_LIMIT,
        ensures
            r.ir == index_of_refraction,
            mat_wf(Material::Dielectric(r)),
    {
        Dielectric { ir: index_of_refraction }
    }

    /// Schlick's approximation for reflectance.
    fn reflectance(cosine: i128, ref_idx: i128) -> (r: i128)
        requires
            0 <= ref_idx <= ETA_LIMIT,
            iabs(cosine as int) <= 12000000,
        ensures
            r == schlick(cosine as int, ref_idx as int),
    {
        proof {
            lemma_fdiv_bound(SCALE as int - ref_idx as int, SCALE as int + ref_idx as int,
                2000000000000,
            );
        }
        let r0: i128 = div_fx(SCALE - ref_idx, SCALE + ref_idx);
        proof {
            lemma_fmul_bound(r0 as int, r0 as int, 2000000000000, 2000000000000,
                4000000000000000000,
            );
        }
        let r0sq: i128 = mul_fx(r0, r0);
        let x: i128 = SCALE - cosine;
        proof {
            lemma_fmul_bound(x as int, x as int, 13000000, 13000000, 169000000);
            lemma_fmul_bound(
                fmul(x as int, x as int),
                fmul(x as int, x as int),
                169000000,
                169000000,
                28561000000,
            );
            lemma_fmul_bound(
                fmul(fmul(x as int, x as int), fmul(x as int, x as int)),
                x as int,
                28561000000,
                13000000,
                371293000000,
            );
            lemma_fmul_bound(
                SCALE as int - r0sq as int,
                pow5_fx(x as int),
                4000000000001000000,
                371293000000,
                1485173000000000000000000,
            );
        }
        let p2: i128 = mul_fx(x, x);
        let p4: i128 = mul_fx(p2, p2);
        let p5: i128 = mul_fx(p4, x);
        r0sq + mul_fx(SCALE - r0sq, p5)
    }

    pub fn scatter(&self, r_in: Ray, rec: HitRecord) -> (res: Option<(Color, Ray)>)
        requires
            scatter_pre(r_in, rec),
            mat_wf(Material::Dielectric(*self)),
        ensures
            dielectric_scatter_post(*self, r_in, rec, res),
    {
        let attenuation = Vec3::new(SCALE, SCALE, SCALE);
        let refraction_ratio: i128 = if rec.front_face {
            proof {
                lemma_fdiv_bound(SCALE as int, self.ir as int, 1000000000000);
                lemma_div_pos_is_pos((SCALE as int) * (SCALE as int), self.ir as int);
            }
            div_fx(SCALE, self.ir)
        } else {
            self.ir
        };
        proof {
            assert(refraction_ratio == diel_ratio(*self, rec));
            assert(0 <= refraction_ratio <= ETA_LIMIT);
        }
        let unit_direction: Vec3 = unit(r_in.direction());
        let minus_ud: Vec3 = unit_direction.neg();
        let dcos: i128 = crate::vec3::dot(minus_ud, rec.normal);
        proof {
            lemma_vdot_bound(vneg(vunit(r_in.direction)), rec.normal, 2000000, 12000000);
        }
        let cos_theta: i128 = if dcos < SCALE {
            dcos
        } else {
            SCALE
        };
        proof {
            lemma_fmul_bound(cos_theta as int, cos_theta as int, 12000000, 12000000, 144000000);
        }
        let c2: i128 = mul_fx(cos_theta, cos_theta);
        let k: i128 = SCALE - c2;
        let sin_theta: i128 = if k > 0 {
            sqrt_fx(k)
        } else {
            0
        };
        proof {
            assert(iabs(sin_theta as int) <= 13000000) by (nonlinear_arith)
                requires
                    sin_theta == 0 || (is_sqrt_floor((k as int) * (SCALE as int), sin_theta as int)
                        && 0 <= sin_theta && 0 <= (k as int) * (SCALE as int)
                        <= 145000000 * 1000000),
            ;
            lemma_fmul_bound(refraction_ratio as int, sin_theta as int, ETA_LIMIT as int, 13000000,
                14300000000000000000,
            );
        }
        let cannot_refract: bool = mul_fx(refraction_ratio, sin_theta) > SCALE;
        let refl_val: i128 = Self::reflectance(cos_theta, refraction_ratio);
        let draw: i128 = random_float(0, SCALE);
        let direction: Vec3 = if cannot_refract || refl_val > draw {
            let rd = reflect(unit_direction, rec.normal);
            proof {
                lemma_vreflect_bound(vunit(r_in.direction), rec.normal);
            }
            rd
        } else {
            refract(unit_direction, rec.normal, refraction_ratio)
        };
        let scattered = Ray::new(rec.p, direction);
        Some((attenuation, scattered))
    }
}

/// Law: a diffuse surface never absorbs; the attenuation is the
/// configured albedo, exactly.
pub proof fn lemma_lambertian_always_scatters(
    l: Lambertian,
    rec: HitRecord,
    res: Option<(Color, Ray)>,
)
    requires
        lambertian_scatter_post(l, rec, res),
    ensures
        res is Some,
        res matches Some((att, sc)) ==> att == l.albedo && sc.origin == rec.p,
{
}

/// Law: at an index-matched boundary met head on, a dielectric neither
/// reflects nor refracts observably: the scattered direction equals the
/// normalized incoming direction.
pub proof fn lemma_dielectric_index_matched(
    d: Dielectric,
    r_in: Ray,
    rec: HitRecord,
    res: Option<(Color, Ray)>,
)
    requires
        d.ir == SCALE,
        vdot(rec.normal, rec.normal) == SCALE as int,
        bounded(rec.normal, NORMAL_LIMIT as int),
        vunit(r_in.direction) == vneg(rec.normal),
        dielectric_scatter_post(d, r_in, rec, res),
    ensures
        res is Some,
        res matches Some((att, sc)) ==> att == (Vec3 { x: SCALE, y: SCALE, z: SCALE })
            && sc.direction == vunit(r_in.direction),
{
    let n = rec.normal;
    let ud = vunit(r_in.direction);
    crate::fixed::lemma_dtr_mul_exact(SCALE as int, SCALE as int);
    assert(fdiv(SCALE as int, SCALE as int) == SCALE as int);
    let ratio = diel_ratio(d, rec);
    assert(ratio == SCALE as int);
    assert(vneg(ud) == n);
    let cos = diel_cos(r_in, rec);
    assert(cos == SCALE as int);
    assert(fmul(SCALE as int, SCALE as int) == SCALE as int);
    vstd::arithmetic::div_mod::lemma_div_of0(SCALE as int);
    vstd::arithmetic::div_mod::lemma_div_of0(2 * SCALE as int);
    assert(diel_sin(r_in, rec) == 0);
    assert(fmul(ratio, 0) == 0);
    assert(!diel_cannot_refract(d, r_in, rec));
    assert(fdiv(0, 2 * SCALE as int) == 0);
    assert(fmul(0, 0) == 0);
    assert(pow5_fx(0) == 0);
    assert(fmul(SCALE as int - 0, 0) == 0);
    assert(schlick(cos, ratio) == 0);
    // The refraction of the head-on unit direction is itself.
    assert(vscale(SCALE as int, n) == n) by {
        crate::fixed::lemma_dtr_mul_exact(n.x as int, SCALE as int);
        crate::fixed::lemma_dtr_mul_exact(n.y as int, SCALE as int);
        crate::fixed::lemma_dtr_mul_exact(n.z as int, SCALE as int);
        assert((SCALE as int) * (n.x as int) == (n.x as int) * (SCALE as int))
            by (nonlinear_arith);
        assert((SCALE as int) * (n.y as int) == (n.y as int) * (SCALE as int))
            by (nonlinear_arith);
        assert((SCALE as int) * (n.z as int) == (n.z as int) * (SCALE as int))
            by (nonlinear_arith);
    }
    let inner = vadd(ud, vscale(SCALE as int, n));
    assert(inner == (Vec3 { x: 0i128, y: 0i128, z: 0i128 }));
    let perp = vscale(SCALE as int, inner);
    assert(perp == (Vec3 { x: 0i128, y: 0i128, z: 0i128 }));
    assert(vls(perp) == 0) by {
        crate::sphere::lemma_zero_direction_misses(perp);
    }
    assert(fsqrt(SCALE as int) == SCALE as int) by {
        crate::fixed::lemma_sqrt_floor_is(1000000000000, 1000000);
    }
    assert(vscale(-(SCALE as int), n) == vneg(n)) by {
        crate::fixed::lemma_dtr_mul_exact(-(n.x as int), SCALE as int);
        crate::fixed::lemma_dtr_mul_exact(-(n.y as int), SCALE as int);
        crate::fixed::lemma_dtr_mul_exact(-(n.z as int), SCALE as int);
        assert((-(SCALE as int)) * (n.x as int) == (-(n.x as int)) * (SCALE as int))
            by (nonlinear_arith);
        assert((-(SCALE as int)) * (n.y as int) == (-(n.y as int)) * (SCALE as int))
            by (nonlinear_arith);
        assert((-(SCALE as int)) * (n.z as int) == (-(n.z as int)) * (SCALE as int))
            by (nonlinear_arith);
    }
    assert(vrefract(ud, n, SCALE as int) == vneg(n));
}

impl Material {
    /// Dispatches to the variant's scattering rule.
    pub fn scatter(&self, r_in: Ray, rec: HitRecord) -> (res: Option<(Color, Ray)>)
        requires
            scatter_pre(r_in, rec),
            mat_wf(*self),
        ensures
            scatter_post(*self, r_in, rec, res),
            match res {
                Some((att, sc)) => sc.origin == rec.p && bounded(
                    sc.direction,
                    SCATTER_DIR_LIMIT as int,
                ) && bounded(att, SCALE as int),
                None => true,
            },
    {
        match self {
            Material::Lambertian(l) => l.scatter(r_in, rec),
            Material::Metal(m) => m.scatter(r_in, rec),
            Material::Dielectric(d) => d.scatter(r_in, rec),
        }
    }
}

} // verus!
