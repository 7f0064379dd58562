//! Scaled-integer scalar arithmetic.
//!
//! Every real-valued quantity in this crate is represented as an `i128`
//! holding the value times `SCALE`, so one raw unit is one millionth.
//! Multiplication and division renormalize with truncating (round-toward-zero)
//! integer division, mirrored exactly by the spec functions below.

use vstd::prelude::*;

verus! {

use vstd::arithmetic::div_mod::lemma_div_is_ordered;
use vstd::arithmetic::div_mod::lemma_div_multiples_vanish;
use vstd::arithmetic::mul::lemma_mul_inequality;

/// Raw units per 1.0 of real value.
pub const SCALE: i128 = 1000000;

/// Raw value of 0.5.
pub const HALF_SCALE: i128 = 500000;

/// Per-operand magnitude cap under which a raw product cannot overflow `i128`.
pub const OP_LIMIT: i128 = 0x4000_0000_0000_0000;

pub open spec fn iabs(a: int) -> int {
    if a < 0 {
        -a
    } else {
        a
    }
}

/// Truncating (round-toward-zero) division, as Rust's `/` behaves on integers.
/// Meaningful only for `b != 0`.
pub open spec fn dtr(a: int, b: int) -> int {
    let q = iabs(a) / iabs(b);
    if (a < 0) == (b < 0) {
        q
    } else {
        -q
    }
}

/// Fixed-point product: `a * b` renormalized back to raw units.
pub open spec fn fmul(a: int, b: int) -> int {
    dtr(a * b, SCALE as int)
}

/// Fixed-point quotient: `a / b` in raw units.
pub open spec fn fdiv(a: int, b: int) -> int {
    dtr(a * (SCALE as int), b)
}

pub open spec fn is_sqrt_floor(n: int, r: int) -> bool {
    0 <= r && r * r <= n && n < (r + 1) * (r + 1)
}

/// The integer square root (floor) of `n`, for `n >= 0`.
pub open spec fn sqrt_floor(n: int) -> int {
    choose|r: int| is_sqrt_floor(n, r)
}

/// Fixed-point square root of a raw value: `sqrt(a / SCALE) * SCALE` rounded down.
pub open spec fn fsqrt(a: int) -> int {
    sqrt_floor(a * (SCALE as int))
}

pub proof fn lemma_abs_mul_le(a: int, b: int, ca: int, cb: int)
    by (nonlinear_arith)
    requires
        iabs(a) <= ca,
        iabs(b) <= cb,
    ensures
        iabs(a * b) <= ca * cb,
{
}

/// Dividing an exact multiple is exact: `dtr(a * b, b) == a`.
pub proof fn lemma_dtr_mul_exact(a: int, b: int)
    requires
        b >= 1,
    ensures
        dtr(a * b, b) == a,
{
    if a >= 0 {
        assert(a * b >= 0 && iabs(a * b) == a * b && a * b == b * a) by (nonlinear_arith)
            requires
                a >= 0 && b >= 1,
        ;
        lemma_div_multiples_vanish(a, b);
    } else {
        assert(a * b < 0 && iabs(a * b) == (-a) * b && (-a) * b == b * (-a)) by (nonlinear_arith)
            requires
                a < 0 && b >= 1,
        ;
        lemma_div_multiples_vanish(-a, b);
    }
}

/// Truncating division is monotone on nonnegative numerators.
pub proof fn lemma_dtr_mono(a1: int, a2: int, b: int)
    requires
        0 <= a1 <= a2,
        b >= 1,
    ensures
        0 <= dtr(a1, b) <= dtr(a2, b),
{
    lemma_div_is_ordered(a1, a2, b);
    lemma_div_is_ordered(0, a1, b);
}

/// If `|a| <= c * |b|` then `|dtr(a, b)| <= c`.
pub proof fn lemma_dtr_abs_le(a: int, b: int, c: int)
    requires
        b != 0,
        0 <= c,
        iabs(a) <= c * iabs(b),
    ensures
        iabs(dtr(a, b)) <= c,
{
    lemma_dtr_mul_exact(c, iabs(b));
    lemma_div_is_ordered(iabs(a), c * iabs(b), iabs(b));
}

/// Magnitude bound for a fixed-point product.
pub proof fn lemma_fmul_bound(a: int, b: int, ca: int, cb: int, c: int)
    requires
        iabs(a) <= ca,
        iabs(b) <= cb,
        0 <= c,
        ca * cb <= c * (SCALE as int),
    ensures
        iabs(fmul(a, b)) <= c,
{
    lemma_abs_mul_le(a, b, ca, cb);
    lemma_dtr_abs_le(a * b, SCALE as int, c);
}

/// Magnitude bound for a fixed-point quotient.
pub proof fn lemma_fdiv_bound(a: int, b: int, c: int)
    requires
        b != 0,
        0 <= c,
        iabs(a) * (SCALE as int) <= c * iabs(b),
    ensures
        iabs(fdiv(a, b)) <= c,
{
    lemma_abs_mul_le(a, SCALE as int, iabs(a), SCALE as int);
    lemma_dtr_abs_le(a * (SCALE as int), b, c);
}

/// Division by a positive divisor never grows the magnitude.
pub proof fn lemma_dtr_le_self(a: int, b: int)
    requires
        b >= 1,
    ensures
        iabs(dtr(a, b)) <= iabs(a),
{
    lemma_mul_inequality(1, b, iabs(a));
    assert(b * iabs(a) == iabs(a) * iabs(b)) by (nonlinear_arith)
        requires
            b >= 1,
    ;
    lemma_dtr_abs_le(a, b, iabs(a));
}

/// Truncating division preserves the numerator's sign.
pub proof fn lemma_dtr_sign(a: int, b: int)
    requires
        b >= 1,
    ensures
        a >= 0 ==> dtr(a, b) >= 0,
        a <= 0 ==> dtr(a, b) <= 0,
{
    lemma_div_is_ordered(0, iabs(a), iabs(b));
}

/// Negating the numerator negates a truncating quotient.
pub proof fn lemma_dtr_neg(a: int, b: int)
    requires
        b >= 1,
    ensures
        dtr(-a, b) == -dtr(a, b),
{
    assert(iabs(-a) == iabs(a));
}

/// A floor square root is unique, so it equals `sqrt_floor`.
pub proof fn lemma_sqrt_floor_is(n: int, r: int)
    requires
        is_sqrt_floor(n, r),
    ensures
        sqrt_floor(n) == r,
{
    assert(is_sqrt_floor(n, r));
    let w = choose|w: int| is_sqrt_floor(n, w);
    assert(is_sqrt_floor(n, w));
    assert(w == r) by (nonlinear_arith)
        requires
            is_sqrt_floor(n, w) && is_sqrt_floor(n, r),
    ;
}

/// Truncating division on `i128`, via nonnegative `u128` division.
pub fn div_trunc(a: i128, b: i128) -> (q: i128)
    requires
        b != 0,
        iabs(a as int) < 0x7fff_ffff_ffff_ffff_ffff_ffff_ffff_ffff,
        iabs(b as int) < 0x7fff_ffff_ffff_ffff_ffff_ffff_ffff_ffff,
    ensures
        q == dtr(a as int, b as int),
        iabs(q as int) <= iabs(a as int),
{
    let neg: bool = (a < 0) != (b < 0);
    let aa: u128 = if a < 0 {
        (-a) as u128
    } else {
        a as u128
    };
    let bb: u128 = if b < 0 {
        (-b) as u128
    } else {
        b as u128
    };
    proof {
        assert(aa == iabs(a as int));
        assert(bb == iabs(b as int));
    }
    let qq: u128 = aa / bb;
    proof {
        lemma_div_is_ordered(0, aa as int, bb as int);
        vstd::arithmetic::div_mod::lemma_div_nonincreasing(aa as int, bb as int);
        assert(qq == iabs(a as int) / iabs(b as int));
    }
    if neg {
        -(qq as i128)
    } else {
        qq as i128
    }
}

/// Fixed-point multiply.
pub fn mul_fx(a: i128, b: i128) -> (r: i128)
    requires
        iabs(a as int) <= OP_LIMIT as int,
        iabs(b as int) <= OP_LIMIT as int,
    ensures
        r == fmul(a as int, b as int),
        iabs(r as int) <= iabs(a as int) * iabs(b as int),
{
    proof {
        lemma_abs_mul_le(a as int, b as int, OP_LIMIT as int, OP_LIMIT as int);
    }
    let p: i128 = a * b;
    let r = div_trunc(p, SCALE);
    proof {
        lemma_abs_mul_le(a as int, b as int, iabs(a as int), iabs(b as int));
        lemma_dtr_le_self(p as int, SCALE as int);
    }
    r
}

/// Fixed-point divide.
pub fn div_fx(a: i128, b: i128) -> (r: i128)
    requires
        b != 0,
        iabs(a as int) <= 1000000000000000000000000000000,
        iabs(b as int) <= OP_LIMIT as int,
    ensures
        r == fdiv(a as int, b as int),
{
    proof {
        lemma_abs_mul_le(a as int, SCALE as int, 1000000000000000000000000000000, SCALE as int);
    }
    let p: i128 = a * SCALE;
    div_trunc(p, b)
}

/// Integer square root by bisection.
pub fn isqrt(n: u128) -> (r: u128)
    requires
        (n as int) < 0x4000_0000_0000_0000_0000_0000_0000_0000,
    ensures
        is_sqrt_floor(n as int, r as int),
        (r as int) < 0x8000_0000_0000_0000,
{
    let mut lo: u128 = 0;
    let mut hi: u128 = 0x8000_0000_0000_0000;
    proof {
        assert((hi as int) * (hi as int) == 0x4000_0000_0000_0000_0000_0000_0000_0000)
            by (nonlinear_arith)
            requires
                hi == 0x8000_0000_0000_0000u128,
        ;
    }
    while lo + 1 < hi
        invariant
            lo < hi,
            hi <= 0x8000_0000_0000_0000,
            (lo as int) * (lo as int) <= n as int,
            (n as int) < (hi as int) * (hi as int),
        decreases hi - lo,
    {
        let mid: u128 = lo + (hi - lo) / 2;
        proof {
            assert((mid as int) * (mid as int) < 0x4000_0000_0000_0000_0000_0000_0000_0000)
                by (nonlinear_arith)
                requires
                    (mid as int) < 0x8000_0000_0000_0000,
            ;
        }
        if mid * mid <= n {
            lo = mid;
        } else {
            hi = mid;
        }
    }
    lo
}

/// Fixed-point square root of a nonnegative raw value.
pub fn sqrt_fx(a: i128) -> (r: i128)
    requires
        0 <= a,
        (a as int) <= 50000000000000000000000000000000,
    ensures
        r == fsqrt(a as int),
        0 <= r < 0x8000_0000_0000_0000,
        is_sqrt_floor((a as int) * (SCALE as int), r as int),
{
    proof {
        lemma_abs_mul_le(
            a as int,
            SCALE as int,
            50000000000000000000000000000000,
            SCALE as int,
        );
    }
    let p: i128 = a * SCALE;
    let r: u128 = isqrt(p as u128);
    proof {
        lemma_sqrt_floor_is(p as int, r as int);
    }
    r as i128
}

} // verus!
