//! Three-component vectors over raw fixed-point scalars, used as points,
//! directions and RGB colors alike.

use vstd::prelude::*;

verus! {

use crate::fixed::OP_LIMIT;
use crate::fixed::SCALE;
use crate::fixed::dtr;
use crate::fixed::fdiv;
use crate::fixed::fmul;
use crate::fixed::fsqrt;
use crate::fixed::iabs;
use crate::fixed::is_sqrt_floor;
use crate::fixed::lemma_abs_mul_le;
use crate::fixed::lemma_dtr_abs_le;
use crate::fixed::lemma_fdiv_bound;
use crate::fixed::lemma_fmul_bound;
use crate::fixed::lemma_sqrt_floor_is;
use crate::fixed::sqrt_floor;
use crate::fixed::div_trunc;
use crate::fixed::mul_fx;
use crate::fixed::div_fx;
use crate::fixed::sqrt_fx;
use crate::rtweekend::random_float;
use vstd::arithmetic::mul::lemma_mul_inequality;

/// The per-axis magnitude below which a component counts as zero.
/// The classic epsilon lies under one raw quantum, so only an exact
/// zero component passes the test.
pub const NEAR_EPS: i128 = 1;

/// Magnitude cap on arguments of `reflect`.
pub const REFLECT_LIMIT: i128 = 0x1_0000_0000;

/// Magnitude cap on the refraction ratio argument of `refract`.
pub const ETA_LIMIT: i128 = 0x100_0000_0000;

/// Magnitude cap under which sums of components cannot overflow.
pub const ADD_LIMIT: i128 = 0x4_0000_0000_0000_0000_0000_0000_0000;

#[derive(Clone, Copy, PartialEq, Eq, Structural, Debug)]
pub struct Vec3 {
    pub x: i128,
    pub y: i128,
    pub z: i128,
}

pub type Point3 = Vec3;

pub type Color = Vec3;

/// Every component is at most `c` in magnitude.
pub open spec fn bounded(v: Vec3, c: int) -> bool {
    iabs(v.x as int) <= c && iabs(v.y as int) <= c && iabs(v.z as int) <= c
}

pub open spec fn is_zero(v: Vec3) -> bool {
    v.x == 0 && v.y == 0 && v.z == 0
}

pub open spec fn vadd(u: Vec3, v: Vec3) -> Vec3 {
    Vec3 { x: (u.x + v.x) as i128, y: (u.y + v.y) as i128, z: (u.z + v.z) as i128 }
}

pub open spec fn vsub(u: Vec3, v: Vec3) -> Vec3 {
    Vec3 { x: (u.x - v.x) as i128, y: (u.y - v.y) as i128, z: (u.z - v.z) as i128 }
}

pub open spec fn vneg(v: Vec3) -> Vec3 {
    Vec3 { x: (-v.x) as i128, y: (-v.y) as i128, z: (-v.z) as i128 }
}

/// Component-wise fixed-point product (color modulation).
pub open spec fn vmul(u: Vec3, v: Vec3) -> Vec3 {
    Vec3 {
        x: fmul(u.x as int, v.x as int) as i128,
        y: fmul(u.y as int, v.y as int) as i128,
        z: fmul(u.z as int, v.z as int) as i128,
    }
}

/// Scalar times vector, in fixed point.
pub open spec fn vscale(t: int, v: Vec3) -> Vec3 {
    Vec3 {
        x: fmul(t, v.x as int) as i128,
        y: fmul(t, v.y as int) as i128,
        z: fmul(t, v.z as int) as i128,
    }
}

/// Vector divided by a scalar, in fixed point.
pub open spec fn vdivs(v: Vec3, t: int) -> Vec3 {
    Vec3 {
        x: fdiv(v.x as int, t) as i128,
        y: fdiv(v.y as int, t) as i128,
        z: fdiv(v.z as int, t) as i128,
    }
}

pub open spec fn sum_sq(v: Vec3) -> int {
    (v.x as int) * (v.x as int) + (v.y as int) * (v.y as int) + (v.z as int) * (v.z as int)
}

/// Squared length in raw units.
pub open spec fn vls(v: Vec3) -> int {
    dtr(sum_sq(v), SCALE as int)
}

/// Length in raw units: the raw components' Euclidean norm, rounded down.
pub open spec fn vlen(v: Vec3) -> int {
    sqrt_floor(sum_sq(v))
}

pub open spec fn vdot(u: Vec3, v: Vec3) -> int {
    dtr(
        (u.x as int) * (v.x as int) + (u.y as int) * (v.y as int) + (u.z as int) * (v.z as int),
        SCALE as int,
    )
}

pub open spec fn vcross(u: Vec3, v: Vec3) -> Vec3 {
    Vec3 {
        x: (fmul(u.y as int, v.z as int) - fmul(u.z as int, v.y as int)) as i128,
        y: (fmul(u.z as int, v.x as int) - fmul(u.x as int, v.z as int)) as i128,
        z: (fmul(u.x as int, v.y as int) - fmul(u.y as int, v.x as int)) as i128,
    }
}

pub open spec fn vunit(v: Vec3) -> Vec3 {
    vdivs(v, vlen(v))
}

/// Per-axis near-zero test: an AND of three absolute comparisons.
pub open spec fn vnear_zero(v: Vec3) -> bool {
    iabs(v.x as int) < NEAR_EPS as int && iabs(v.y as int) < NEAR_EPS as int && iabs(
        v.z as int,
    ) < NEAR_EPS as int
}

/// `v - 2 * dot(v, n) * n`.
pub open spec fn vreflect(v: Vec3, n: Vec3) -> Vec3 {
    vsub(v, vscale(fmul(2 * SCALE as int, vdot(v, n)), n))
}

/// Snell refraction: perpendicular plus parallel component.
pub open spec fn vrefract(uv: Vec3, n: Vec3, etai_over_etat: int) -> Vec3 {
    let cos_theta = if vdot(vneg(uv), n) < SCALE as int {
        vdot(vneg(uv), n)
    } else {
        SCALE as int
    };
    let r_out_perp = vscale(etai_over_etat, vadd(uv, vscale(cos_theta, n)));
    let r_out_parallel = vscale(-fsqrt(iabs(SCALE as int - vls(r_out_perp))), n);
    vadd(r_out_perp, r_out_parallel)
}

impl Vec3 {
    pub fn new(x: i128, y: i128, z: i128) -> (r: Vec3)
        ensures
            r == (Vec3 { x, y, z }),
    {
        Vec3 { x, y, z }
    }

    pub fn x(&self) -> (r: i128)
        ensures
            r == self.x,
    {
        self.x
    }

    pub fn y(&self) -> (r: i128)
        ensures
            r == self.y,
    {
        self.y
    }

    pub fn z(&self) -> (r: i128)
        ensures
            r == self.z,
    {
        self.z
    }

    pub fn add(self, rhs: Vec3) -> (r: Vec3)
        requires
            bounded(self, ADD_LIMIT as int),
            bounded(rhs, ADD_LIMIT as int),
        ensures
            r == vadd(self, rhs),
    {
        Vec3 { x: self.x + rhs.x, y: self.y + rhs.y, z: self.z + rhs.z }
    }

    pub fn sub(self, rhs: Vec3) -> (r: Vec3)
        requires
            bounded(self, ADD_LIMIT as int),
            bounded(rhs, ADD_LIMIT as int),
        ensures
            r == vsub(self, rhs),
    {
        Vec3 { x: self.x - rhs.x, y: self.y - rhs.y, z: self.z - rhs.z }
    }

    pub fn neg(self) -> (r: Vec3)
        requires
            bounded(self, ADD_LIMIT as int),
        ensures
            r == vneg(self),
    {
        Vec3 { x: -self.x, y: -self.y, z: -self.z }
    }

    pub fn mul(self, rhs: Vec3) -> (r: Vec3)
        requires
            bounded(self, OP_LIMIT as int),
            bounded(rhs, OP_LIMIT as int),
        ensures
            r == vmul(self, rhs),
    {
        Vec3 {
            x: mul_fx(self.x, rhs.x),
            y: mul_fx(self.y, rhs.y),
            z: mul_fx(self.z, rhs.z),
        }
    }

    pub fn scale(self, t: i128) -> (r: Vec3)
        requires
            bounded(self, OP_LIMIT as int),
            iabs(t as int) <= OP_LIMIT as int,
        ensures
            r == vscale(t as int, self),
    {
        Vec3 { x: mul_fx(t, self.x), y: mul_fx(t, self.y), z: mul_fx(t, self.z) }
    }

    pub fn div(self, t: i128) -> (r: Vec3)
        requires
            t != 0,
            bounded(self, OP_LIMIT as int),
            iabs(t as int) <= OP_LIMIT as int,
        ensures
            r == vdivs(self, t as int),
    {
        Vec3 { x: div_fx(self.x, t), y: div_fx(self.y, t), z: div_fx(self.z, t) }
    }

    pub fn length_squared(&self) -> (r: i128)
        requires
            bounded(*self, OP_LIMIT as int),
        ensures
            r == vls(*self),
            iabs(r as int) <= sum_sq(*self),
    {
        proof {
            lemma_abs_mul_le(self.x as int, self.x as int, OP_LIMIT as int, OP_LIMIT as int);
            lemma_abs_mul_le(self.y as int, self.y as int, OP_LIMIT as int, OP_LIMIT as int);
            lemma_abs_mul_le(self.z as int, self.z as int, OP_LIMIT as int, OP_LIMIT as int);
            assert((self.x as int) * (self.x as int) >= 0) by (nonlinear_arith);
            assert((self.y as int) * (self.y as int) >= 0) by (nonlinear_arith);
            assert((self.z as int) * (self.z as int) >= 0) by (nonlinear_arith);
        }
        let s: i128 = self.x * self.x + self.y * self.y + self.z * self.z;
        let r = div_trunc(s, SCALE);
        r
    }

    pub fn length(&self) -> (r: i128)
        requires
            bounded(*self, OP_LIMIT as int),
        ensures
            r == vlen(*self),
            0 <= r < 0x8000_0000_0000_0000,
            is_sqrt_floor(sum_sq(*self), r as int),
    {
        proof {
            lemma_abs_mul_le(self.x as int, self.x as int, OP_LIMIT as int, OP_LIMIT as int);
            lemma_abs_mul_le(self.y as int, self.y as int, OP_LIMIT as int, OP_LIMIT as int);
            lemma_abs_mul_le(self.z as int, self.z as int, OP_LIMIT as int, OP_LIMIT as int);
            assert((self.x as int) * (self.x as int) >= 0) by (nonlinear_arith);
            assert((self.y as int) * (self.y as int) >= 0) by (nonlinear_arith);
            assert((self.z as int) * (self.z as int) >= 0) by (nonlinear_arith);
        }
        let s: i128 = self.x * self.x + self.y * self.y + self.z * self.z;
        let r: u128 = crate::fixed::isqrt(s as u128);
        proof {
            lemma_sqrt_floor_is(s as int, r as int);
        }
        r as i128
    }

    pub fn near_zero(&self) -> (r: bool)
        requires
            bounded(*self, OP_LIMIT as int),
        ensures
            r == vnear_zero(*self),
    {
        let ax: i128 = if self.x < 0 {
            -self.x
        } else {
            self.x
        };
        let ay: i128 = if self.y < 0 {
            -self.y
        } else {
            self.y
        };
        let az: i128 = if self.z < 0 {
            -self.z
        } else {
            self.z
        };
        ax < NEAR_EPS && ay < NEAR_EPS && az < NEAR_EPS
    }

    /// Run-time check that every component's magnitude is at most `c`.
    pub fn in_bounds(&self, c: i128) -> (r: bool)
        requires
            0 <= c,
        ensures
            r == bounded(*self, c as int),
    {
        -c <= self.x && self.x <= c && -c <= self.y && self.y <= c && -c <= self.z && self.z <= c
    }

    /// A vector with each component drawn uniformly from `[0, 1)`.
    pub fn random() -> (r: Vec3)
        ensures
            0 <= r.x < SCALE,
            0 <= r.y < SCALE,
            0 <= r.z < SCALE,
            bounded(r, SCALE as int),
    {
        Vec3 {
            x: random_float(0, SCALE),
            y: random_float(0, SCALE),
            z: random_float(0, SCALE),
        }
    }

    /// A vector with each component drawn uniformly from `[min, max)`.
    pub fn random_in_range(min: i128, max: i128) -> (r: Vec3)
        requires
            min < max,
            iabs(min as int) <= OP_LIMIT as int,
            iabs(max as int) <= OP_LIMIT as int,
        ensures
            min <= r.x < max,
            min <= r.y < max,
            min <= r.z < max,
    {
        Vec3 {
            x: random_float(min, max),
            y: random_float(min, max),
            z: random_float(min, max),
        }
    }
}

pub fn dot(u: Vec3, v: Vec3) -> (r: i128)
    requires
        bounded(u, OP_LIMIT as int),
        bounded(v, OP_LIMIT as int),
    ensures
        r == vdot(u, v),
{
    proof {
        lemma_abs_mul_le(u.x as int, v.x as int, OP_LIMIT as int, OP_LIMIT as int);
        lemma_abs_mul_le(u.y as int, v.y as int, OP_LIMIT as int, OP_LIMIT as int);
        lemma_abs_mul_le(u.z as int, v.z as int, OP_LIMIT as int, OP_LIMIT as int);
    }
    let s: i128 = u.x * v.x + u.y * v.y + u.z * v.z;
    div_trunc(s, SCALE)
}

/// Magnitude bound for a dot product of bounded vectors.
pub proof fn lemma_vdot_bound(u: Vec3, v: Vec3, c: int, cd: int)
    requires
        bounded(u, c),
        bounded(v, c),
        0 <= c,
        0 <= cd,
        3 * c * c <= cd * (SCALE as int),
    ensures
        iabs(vdot(u, v)) <= cd,
{
    lemma_abs_mul_le(u.x as int, v.x as int, c, c);
    lemma_abs_mul_le(u.y as int, v.y as int, c, c);
    lemma_abs_mul_le(u.z as int, v.z as int, c, c);
    assert(3 * c * c == (c * c) + (c * c) + (c * c)) by (nonlinear_arith);
    lemma_dtr_abs_le(
        (u.x as int) * (v.x as int) + (u.y as int) * (v.y as int) + (u.z as int) * (v.z as int),
        SCALE as int,
        cd,
    );
}

/// Magnitude bound for a component-wise product of bounded vectors.
pub proof fn lemma_vmul_bound(u: Vec3, v: Vec3, cu: int, cv: int, c: int)
    requires
        bounded(u, cu),
        bounded(v, cv),
        0 <= c,
        cu * cv <= c * (SCALE as int),
    ensures
        bounded(vmul(u, v), c),
{
    lemma_fmul_bound(u.x as int, v.x as int, cu, cv, c);
    lemma_fmul_bound(u.y as int, v.y as int, cu, cv, c);
    lemma_fmul_bound(u.z as int, v.z as int, cu, cv, c);
}

/// Magnitude bound for a cross product of bounded vectors.
pub proof fn lemma_vcross_bound(u: Vec3, v: Vec3, c: int, half: int)
    requires
        bounded(u, c),
        bounded(v, c),
        0 <= half,
        c * c <= half * (SCALE as int),
    ensures
        bounded(vcross(u, v), 2 * half),
{
    lemma_fmul_bound(u.y as int, v.z as int, c, c, half);
    lemma_fmul_bound(u.z as int, v.y as int, c, c, half);
    lemma_fmul_bound(u.z as int, v.x as int, c, c, half);
    lemma_fmul_bound(u.x as int, v.z as int, c, c, half);
    lemma_fmul_bound(u.x as int, v.y as int, c, c, half);
    lemma_fmul_bound(u.y as int, v.x as int, c, c, half);
}

/// Magnitude bound for a vector divided by a scalar.
pub proof fn lemma_fdiv_vec_bound(v: Vec3, t: int, cv: int, c: int)
    requires
        t >= 1,
        bounded(v, cv),
        0 <= c,
        cv * (SCALE as int) <= c * t,
    ensures
        bounded(vdivs(v, t), c),
{
    lemma_fdiv_bound(v.x as int, t, c);
    lemma_fdiv_bound(v.y as int, t, c);
    lemma_fdiv_bound(v.z as int, t, c);
}

/// Magnitude bound for a scalar product of a bounded scalar and vector.
pub proof fn lemma_vscale_bound(t: int, v: Vec3, ct: int, cv: int, c: int)
    requires
        iabs(t) <= ct,
        bounded(v, cv),
        0 <= c,
        ct * cv <= c * (SCALE as int),
    ensures
        bounded(vscale(t, v), c),
{
    lemma_fmul_bound(t, v.x as int, ct, cv, c);
    lemma_fmul_bound(t, v.y as int, ct, cv, c);
    lemma_fmul_bound(t, v.z as int, ct, cv, c);
}

pub fn cross(u: Vec3, v: Vec3) -> (r: Vec3)
    requires
        bounded(u, 0x1000_0000_0000_0000),
        bounded(v, 0x1000_0000_0000_0000),
    ensures
        r == vcross(u, v),
{
    proof {
        let c = 0x1000_0000_0000_0000 as int;
        let cp = 3000000000000000000000000000000 as int;
        lemma_fmul_bound(u.y as int, v.z as int, c, c, cp);
        lemma_fmul_bound(u.z as int, v.y as int, c, c, cp);
        lemma_fmul_bound(u.z as int, v.x as int, c, c, cp);
        lemma_fmul_bound(u.x as int, v.z as int, c, c, cp);
        lemma_fmul_bound(u.x as int, v.y as int, c, c, cp);
        lemma_fmul_bound(u.y as int, v.x as int, c, c, cp);
    }
    Vec3 {
        x: mul_fx(u.y, v.z) - mul_fx(u.z, v.y),
        y: mul_fx(u.z, v.x) - mul_fx(u.x, v.z),
        z: mul_fx(u.x, v.y) - mul_fx(u.y, v.x),
    }
}

pub fn unit(v: Vec3) -> (r: Vec3)
    requires
        !is_zero(v),
        bounded(v, 0x1000_0000_0000_0000),
    ensures
        r == vunit(v),
        bounded(r, SCALE as int),
{
    let len: i128 = v.length();
    proof {
        lemma_abs_mul_le(v.x as int, v.x as int, 0x1000_0000_0000_0000, 0x1000_0000_0000_0000);
        lemma_abs_mul_le(v.y as int, v.y as int, 0x1000_0000_0000_0000, 0x1000_0000_0000_0000);
        lemma_abs_mul_le(v.z as int, v.z as int, 0x1000_0000_0000_0000, 0x1000_0000_0000_0000);
        assert(sum_sq(v) >= 1) by (nonlinear_arith)
            requires
                !(v.x == 0 && v.y == 0 && v.z == 0),
        ;
        assert(len >= 1) by (nonlinear_arith)
            requires
                is_sqrt_floor(sum_sq(v), len as int) && sum_sq(v) >= 1,
        ;
        assert(len <= OP_LIMIT) by (nonlinear_arith)
            requires
                is_sqrt_floor(sum_sq(v), len as int) && sum_sq(v) <= 3 * 0x1000_0000_0000_0000
                    * 0x1000_0000_0000_0000,
        ;
        assert(iabs(v.x as int) <= len as int && iabs(v.y as int) <= len as int && iabs(
            v.z as int,
        ) <= len as int) by (nonlinear_arith)
            requires
                is_sqrt_floor(sum_sq(v), len as int),
        ;
        lemma_mul_inequality(iabs(v.x as int), len as int, SCALE as int);
        lemma_mul_inequality(iabs(v.y as int), len as int, SCALE as int);
        lemma_mul_inequality(iabs(v.z as int), len as int, SCALE as int);
        lemma_fdiv_bound(v.x as int, len as int, SCALE as int);
        lemma_fdiv_bound(v.y as int, len as int, SCALE as int);
        lemma_fdiv_bound(v.z as int, len as int, SCALE as int);
    }
    v.div(len)
}

pub fn reflect(v: Vec3, n: Vec3) -> (r: Vec3)
    requires
        bounded(v, REFLECT_LIMIT as int),
        bounded(n, REFLECT_LIMIT as int),
    ensures
        r == vreflect(v, n),
{
    let d: i128 = dot(v, n);
    proof {
        lemma_vdot_bound(v, n, REFLECT_LIMIT as int, 0x4000_0000_0000);
        lemma_fmul_bound(2 * SCALE as int, d as int, 2 * SCALE as int, 0x4000_0000_0000,
            0x8000_0000_0000,
        );
        lemma_vscale_bound(
            fmul(2 * SCALE as int, d as int),
            n,
            0x8000_0000_0000,
            REFLECT_LIMIT as int,
            0x2000_0000_0000_0000,
        );
    }
    let s1: i128 = mul_fx(2 * SCALE, d);
    let sn: Vec3 = n.scale(s1);
    v.sub(sn)
}

/// Magnitude bound for a reflection of near-unit vectors.
pub proof fn lemma_vreflect_bound(v: Vec3, n: Vec3)
    requires
        bounded(v, 2000000),
        bounded(n, 2000000),
    ensures
        bounded(vreflect(v, n), 50000000),
{
    lemma_vdot_bound(v, n, 2000000, 12000000);
    lemma_fmul_bound(2 * SCALE as int, vdot(v, n), 2 * SCALE as int, 12000000, 24000000);
    lemma_vscale_bound(fmul(2 * SCALE as int, vdot(v, n)), n, 24000000, 2000000, 48000000);
}

pub fn refract(uv: Vec3, n: Vec3, etai_over_etat: i128) -> (r: Vec3)
    requires
        bounded(uv, 2000000),
        bounded(n, 2000000),
        0 <= etai_over_etat <= ETA_LIMIT,
    ensures
        r == vrefract(uv, n, etai_over_etat as int),
        bounded(r, 200000000000000),
{
    let minus_uv: Vec3 = uv.neg();
    let d: i128 = dot(minus_uv, n);
    let cos_theta: i128 = if d < SCALE {
        d
    } else {
        SCALE
    };
    proof {
        lemma_vdot_bound(minus_uv, n, 2000000, 12000000);
        lemma_vscale_bound(cos_theta as int, n, 12000000, 2000000, 24000000);
        lemma_vscale_bound(
            etai_over_etat as int,
            vadd(uv, vscale(cos_theta as int, n)),
            ETA_LIMIT as int,
            26000000,
            30000000000000,
        );
    }
    let scaled_n: Vec3 = n.scale(cos_theta);
    let inner: Vec3 = uv.add(scaled_n);
    let r_out_perp: Vec3 = inner.scale(etai_over_etat);
    proof {
        lemma_abs_mul_le(r_out_perp.x as int, r_out_perp.x as int, 30000000000000, 30000000000000);
        lemma_abs_mul_le(r_out_perp.y as int, r_out_perp.y as int, 30000000000000, 30000000000000);
        lemma_abs_mul_le(r_out_perp.z as int, r_out_perp.z as int, 30000000000000, 30000000000000);
        lemma_dtr_abs_le(sum_sq(r_out_perp), SCALE as int, 3000000000000000000000);
    }
    let lsq: i128 = r_out_perp.length_squared();
    let diff: i128 = SCALE - lsq;
    let adiff: i128 = if diff < 0 {
        -diff
    } else {
        diff
    };
    let sq: i128 = sqrt_fx(adiff);
    proof {
        assert(iabs(sq as int) <= 70000000000000) by (nonlinear_arith)
            requires
                is_sqrt_floor((adiff as int) * (SCALE as int), sq as int) && 0 <= (adiff as int) * (
                SCALE as int) <= 4000000000000000000000 * 1000000,
        ;
        lemma_vscale_bound(-(sq as int), n, 70000000000000, 2000000, 150000000000000);
    }
    let r_out_parallel: Vec3 = n.scale(-sq);
    let r = r_out_perp.add(r_out_parallel);
    r
}

/// Magnitude bound for a refraction of near-unit vectors.
pub proof fn lemma_vrefract_in_range(uv: Vec3, n: Vec3, eta: int)
    requires
        bounded(uv, 2000000),
        bounded(n, 2000000),
        0 <= eta <= ETA_LIMIT as int,
    ensures
        bounded(vrefract(uv, n, eta), 200000000000000),
{
    let cos_theta = if vdot(vneg(uv), n) < SCALE as int {
        vdot(vneg(uv), n)
    } else {
        SCALE as int
    };
    lemma_vdot_bound(vneg(uv), n, 2000000, 12000000);
    lemma_vscale_bound(cos_theta, n, 12000000, 2000000, 24000000);
    let inner = vadd(uv, vscale(cos_theta, n));
    let perp = vscale(eta, inner);
    lemma_vscale_bound(eta, inner, ETA_LIMIT as int, 26000000, 30000000000000);
    lemma_abs_mul_le(perp.x as int, perp.x as int, 30000000000000, 30000000000000);
    lemma_abs_mul_le(perp.y as int, perp.y as int, 30000000000000, 30000000000000);
    lemma_abs_mul_le(perp.z as int, perp.z as int, 30000000000000, 30000000000000);
    lemma_dtr_abs_le(sum_sq(perp), SCALE as int, 3000000000000000000000);
    let k = iabs(SCALE as int - vls(perp));
    let sq = fsqrt(k);
    assert(exists|r: int| #[trigger] is_sqrt_floor(k * (SCALE as int), r)) by {
        lemma_sqrt_exists(k * (SCALE as int));
    }
    let w = choose|r: int| #[trigger] is_sqrt_floor(k * (SCALE as int), r);
    assert(sq == w) by {
        lemma_sqrt_floor_is(k * (SCALE as int), w);
    }
    assert(0 <= sq <= 70000000000000) by (nonlinear_arith)
        requires
            is_sqrt_floor(k * (SCALE as int), sq) && 0 <= k <= 4000000000000000000000,
    ;
    lemma_vscale_bound(-sq, n, 70000000000000, 2000000, 150000000000000);
}

/// Every nonnegative integer has a floor square root.
pub proof fn lemma_sqrt_exists(n: int)
    requires
        0 <= n,
    ensures
        exists|r: int| is_sqrt_floor(n, r),
    decreases n,
{
    if n == 0 {
        assert(is_sqrt_floor(0, 0));
    } else {
        lemma_sqrt_exists(n - 1);
        let r = choose|r: int| #[trigger] is_sqrt_floor(n - 1, r);
        if (r + 1) * (r + 1) <= n {
            assert(is_sqrt_floor(n, r + 1)) by (nonlinear_arith)
                requires
                    is_sqrt_floor(n - 1, r) && (r + 1) * (r + 1) <= n,
            ;
        } else {
            assert(is_sqrt_floor(n, r));
        }
    }
}

/// Law: normalizing a vector whose length is exactly one returns the
/// vector unchanged, so its length stays exactly one.
pub proof fn lemma_unit_of_unit_vector(v: Vec3)
    requires
        vlen(v) == SCALE as int,
    ensures
        vunit(v) == v,
        vlen(vunit(v)) == SCALE as int,
{
    crate::fixed::lemma_dtr_mul_exact(v.x as int, SCALE as int);
    crate::fixed::lemma_dtr_mul_exact(v.y as int, SCALE as int);
    crate::fixed::lemma_dtr_mul_exact(v.z as int, SCALE as int);
    assert(vunit(v) == v);
}

/// Negation preserves squared length.
pub proof fn lemma_vls_neg(v: Vec3)
    requires
        bounded(v, ADD_LIMIT as int),
    ensures
        sum_sq(vneg(v)) == sum_sq(v),
        vls(vneg(v)) == vls(v),
{
    assert((vneg(v).x as int) * (vneg(v).x as int) == (v.x as int) * (v.x as int) && (vneg(
        v,
    ).y as int) * (vneg(v).y as int) == (v.y as int) * (v.y as int) && (vneg(v).z as int) * (vneg(
        v,
    ).z as int) == (v.z as int) * (v.z as int)) by (nonlinear_arith)
        requires
            (vneg(v).x as int) == -(v.x as int) && (vneg(v).y as int) == -(v.y as int) && (vneg(
                v,
            ).z as int) == -(v.z as int),
    ;
}

/// Multiplying by exact white (one in every channel) changes nothing.
pub proof fn lemma_vmul_white_identity(v: Vec3)
    ensures
        vmul(Vec3 { x: SCALE, y: SCALE, z: SCALE }, v) == v,
{
    crate::fixed::lemma_dtr_mul_exact(v.x as int, SCALE as int);
    crate::fixed::lemma_dtr_mul_exact(v.y as int, SCALE as int);
    crate::fixed::lemma_dtr_mul_exact(v.z as int, SCALE as int);
}

/// Law: reflecting off the upward axis normal exactly reverses the
/// normal component of the incoming direction and keeps the others,
/// bit for bit.
pub proof fn lemma_reflect_mirrors_axis_normal(v: Vec3)
    requires
        bounded(v, 0x1000_0000_0000_0000),
    ensures
        vreflect(v, Vec3 { x: 0, y: SCALE, z: 0 }) == (Vec3 {
            x: v.x,
            y: (-v.y) as i128,
            z: v.z,
        }),
{
    let n = Vec3 { x: 0i128, y: SCALE, z: 0i128 };
    crate::fixed::lemma_dtr_mul_exact(v.y as int, SCALE as int);
    assert((v.x as int) * (n.x as int) == 0 && (v.z as int) * (n.z as int) == 0 && (v.y as int) * (
    n.y as int) == (v.y as int) * (SCALE as int)) by (nonlinear_arith)
        requires
            n.x == 0 && n.z == 0 && n.y == 1000000,
    ;
    assert(vdot(v, n) == v.y as int);
    assert(2 * SCALE as int * (v.y as int) == (2 * (v.y as int)) * SCALE as int)
        by (nonlinear_arith);
    crate::fixed::lemma_dtr_mul_exact(2 * (v.y as int), SCALE as int);
    let s1 = fmul(2 * SCALE as int, vdot(v, n));
    assert(s1 == 2 * (v.y as int));
    vstd::arithmetic::div_mod::lemma_div_of0(SCALE as int);
    crate::fixed::lemma_dtr_mul_exact(s1, SCALE as int);
    assert(vscale(s1, n) == (Vec3 { x: 0i128, y: (2 * (v.y as int)) as i128, z: 0i128 }));
}

/// Negating one argument negates a dot product.
pub proof fn lemma_vdot_neg(u: Vec3, v: Vec3)
    requires
        bounded(v, ADD_LIMIT as int),
    ensures
        vdot(u, vneg(v)) == -vdot(u, v),
{
    let s = (u.x as int) * (v.x as int) + (u.y as int) * (v.y as int) + (u.z as int) * (v.z as int);
    assert((u.x as int) * ((vneg(v).x) as int) == -((u.x as int) * (v.x as int))
        && (u.y as int) * ((vneg(v).y) as int) == -((u.y as int) * (v.y as int))
        && (u.z as int) * ((vneg(v).z) as int) == -((u.z as int) * (v.z as int)))
        by (nonlinear_arith)
        requires
            (vneg(v).x as int) == -(v.x as int) && (vneg(v).y as int) == -(v.y as int) && (vneg(
                v,
            ).z as int) == -(v.z as int),
    ;
    assert(iabs(-s) == iabs(s));
}

/// Law: the dot product of a vector with itself is its squared length.
pub proof fn lemma_dot_self_is_length_squared(v: Vec3)
    ensures
        vdot(v, v) == vls(v),
{
}

/// Rejection-samples the unit ball: draws from the bounding cube until the
/// squared length falls below one. The draw budget is far beyond what any
/// run can consume; if it ever ran out the center point would be returned,
/// which is itself inside the ball.
pub fn random_in_unit_sphere() -> (p: Vec3)
    ensures
        bounded(p, SCALE as int),
        vls(p) < SCALE as int,
{
    let mut fuel: u64 = 0xffff_ffff_ffff_ffff;
    while fuel > 0
        decreases fuel,
    {
        let p = Vec3::random_in_range(-SCALE, SCALE);
        let l2: i128 = p.length_squared();
        if l2 < SCALE {
            return p;
        }
        fuel = fuel - 1;
    }
    let origin = Vec3::new(0, 0, 0);
    proof {
        assert(vls(origin) == 0);
    }
    origin
}

/// Holds of every outcome of `random_unit_vector`: the normalization of
/// some nonzero sample from the bounding cube.
pub open spec fn is_normalized_sample(u: Vec3) -> bool {
    exists|q: Vec3| !is_zero(q) && bounded(q, SCALE as int) && u == #[trigger] vunit(q)
}

/// A random direction of unit length: a nonzero ball sample, normalized.
pub fn random_unit_vector() -> (p: Vec3)
    ensures
        bounded(p, SCALE as int),
        is_normalized_sample(p),
{
    let mut fuel: u64 = 0xffff_ffff_ffff_ffff;
    while fuel > 0
        decreases fuel,
    {
        let p = Vec3::random_in_range(-SCALE, SCALE);
        let l2: i128 = p.length_squared();
        if 0 < l2 && l2 < SCALE {
            proof {
                assert(!is_zero(p)) by {
                    if is_zero(p) {
                        assert(sum_sq(p) == 0) by (nonlinear_arith)
                            requires
                                p.x == 0 && p.y == 0 && p.z == 0,
                        ;
                    }
                }
            }
            let u = unit(p);
            proof {
                assert(u == vunit(p));
            }
            return u;
        }
        fuel = fuel - 1;
    }
    let fallback = Vec3::new(SCALE, 0, 0);
    proof {
        // The fallback lies on the unit sphere, so it normalizes to itself.
        assert(sum_sq(fallback) == 1000000000000) by (nonlinear_arith)
            requires
                fallback.x == 1000000 && fallback.y == 0 && fallback.z == 0,
        ;
        assert(is_sqrt_floor(1000000000000, 1000000)) by (nonlinear_arith);
        crate::fixed::lemma_sqrt_floor_is(1000000000000, 1000000);
        crate::fixed::lemma_dtr_mul_exact(SCALE as int, SCALE as int);
        vstd::arithmetic::div_mod::lemma_div_of0(SCALE as int);
        assert(fallback == vunit(fallback));
    }
    fallback
}

/// A unit-ball sample flipped into the hemisphere around `normal`.
pub fn random_in_hemisphere(normal: &Vec3) -> (r: Vec3)
    requires
        bounded(*normal, OP_LIMIT as int),
    ensures
        bounded(r, SCALE as int),
        exists|q: Vec3|
            bounded(q, SCALE as int) && vls(q) < SCALE as int && r == (if #[trigger] vdot(
                q,
                *normal,
            ) > 0 {
                q
            } else {
                vneg(q)
            }),
{
    let in_unit_sphere = random_in_unit_sphere();
    let d: i128 = dot(in_unit_sphere, *normal);
    proof {
        assert(vdot(in_unit_sphere, *normal) == d);
    }
    if d > 0 {
        // In the same hemisphere as the normal
        in_unit_sphere
    } else {
        in_unit_sphere.neg()
    }
}

/// Rejection-samples the unit disk in the `z == 0` plane.
pub fn random_in_unit_disk() -> (p: Vec3)
    ensures
        bounded(p, SCALE as int),
        p.z == 0,
        vls(p) < SCALE as int,
{
    let mut fuel: u64 = 0xffff_ffff_ffff_ffff;
    while fuel > 0
        decreases fuel,
    {
        let p = Vec3::new(random_float(-SCALE, SCALE), random_float(-SCALE, SCALE), 0);
        let l2: i128 = p.length_squared();
        if l2 < SCALE {
            return p;
        }
        fuel = fuel - 1;
    }
    let origin = Vec3::new(0, 0, 0);
    proof {
        assert(vls(origin) == 0);
    }
    origin
}

} // verus!
