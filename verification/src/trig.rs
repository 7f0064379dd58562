//! Fixed-point tangent for half-angles up to a quarter turn, from
//! truncated Taylor series for sine and cosine with renormalized powers.

use vstd::prelude::*;

verus! {

use crate::fixed::SCALE;
use crate::fixed::dtr;
use crate::fixed::fdiv;
use crate::fixed::fmul;
use crate::fixed::iabs;
use crate::fixed::div_fx;
use crate::fixed::div_trunc;
use crate::fixed::lemma_abs_mul_le;
use crate::fixed::lemma_dtr_abs_le;
use crate::fixed::lemma_fmul_bound;
use crate::fixed::mul_fx;
use vstd::arithmetic::div_mod::lemma_div_pos_is_pos;
use vstd::arithmetic::mul::lemma_mul_nonnegative;

/// One quarter turn in raw radians, the largest admitted argument.
pub const QUARTER_TURN: i128 = 785398;

pub open spec fn sin_fx_spec(x: int) -> int {
    let x2 = fmul(x, x);
    let x3 = fmul(x2, x);
    let x5 = fmul(x3, x2);
    let x7 = fmul(x5, x2);
    x - dtr(x3, 6) + dtr(x5, 120) - dtr(x7, 5040)
}

pub open spec fn cos_fx_spec(x: int) -> int {
    let x2 = fmul(x, x);
    let x4 = fmul(x2, x2);
    let x6 = fmul(x4, x2);
    SCALE as int - dtr(x2, 2) + dtr(x4, 24) - dtr(x6, 720)
}

pub open spec fn tan_fx_spec(x: int) -> int {
    fdiv(sin_fx_spec(x), cos_fx_spec(x))
}

/// The power chain stays small and the cosine stays well above zero on
/// the admitted range.
pub proof fn lemma_trig_bounds(x: int)
    requires
        0 <= x <= QUARTER_TURN as int,
    ensures
        0 <= fmul(x, x) <= 616851,
        0 <= fmul(fmul(x, x), x) <= 484474,
        0 <= fmul(fmul(fmul(x, x), x), fmul(x, x)) <= 298850,
        0 <= fmul(fmul(fmul(fmul(x, x), x), fmul(x, x)), fmul(x, x)) <= 184347,
        0 <= fmul(fmul(x, x), fmul(x, x)) <= 380506,
        0 <= fmul(fmul(fmul(x, x), fmul(x, x)), fmul(x, x)) <= 234716,
        iabs(sin_fx_spec(x)) <= 870000,
        691248 <= cos_fx_spec(x) <= 1015855,
        iabs(tan_fx_spec(x)) <= 1260000,
{
    assert(0 <= x * x <= 616850018404) by (nonlinear_arith)
        requires
            0 <= x <= 785398,
    ;
    lemma_dtr_abs_le(x * x, SCALE as int, 616851);
    lemma_div_pos_is_pos(x * x, SCALE as int);
    let x2 = fmul(x, x);
    lemma_fmul_bound(x2, x, 616851, 785398, 484474);
    lemma_mul_nonnegative(x2, x);
    lemma_div_pos_is_pos(x2 * x, SCALE as int);
    let x3 = fmul(x2, x);
    lemma_fmul_bound(x3, x2, 484474, 616851, 298850);
    lemma_mul_nonnegative(x3, x2);
    lemma_div_pos_is_pos(x3 * x2, SCALE as int);
    let x5 = fmul(x3, x2);
    lemma_fmul_bound(x5, x2, 298850, 616851, 184347);
    lemma_mul_nonnegative(x5, x2);
    lemma_div_pos_is_pos(x5 * x2, SCALE as int);
    let x7 = fmul(x5, x2);
    lemma_fmul_bound(x2, x2, 616851, 616851, 380506);
    lemma_mul_nonnegative(x2, x2);
    lemma_div_pos_is_pos(x2 * x2, SCALE as int);
    let x4 = fmul(x2, x2);
    lemma_fmul_bound(x4, x2, 380506, 616851, 234716);
    lemma_mul_nonnegative(x4, x2);
    lemma_div_pos_is_pos(x4 * x2, SCALE as int);
    let x6 = fmul(x4, x2);

    lemma_dtr_abs_le(x3, 6, 80746);
    lemma_div_pos_is_pos(x3, 6);
    lemma_dtr_abs_le(x5, 120, 2491);
    lemma_div_pos_is_pos(x5, 120);
    lemma_dtr_abs_le(x7, 5040, 37);
    lemma_div_pos_is_pos(x7, 5040);
    lemma_dtr_abs_le(x2, 2, 308426);
    lemma_div_pos_is_pos(x2, 2);
    lemma_dtr_abs_le(x4, 24, 15855);
    lemma_div_pos_is_pos(x4, 24);
    lemma_dtr_abs_le(x6, 720, 326);
    lemma_div_pos_is_pos(x6, 720);

    let s = sin_fx_spec(x);
    let c = cos_fx_spec(x);
    assert(iabs(s) <= 870000);
    assert(691248 <= c <= 1015855);
    lemma_abs_mul_le(s, SCALE as int, 870000, SCALE as int);
    lemma_dtr_abs_le(s * (SCALE as int), c, 1260000);
}

/// The tangent of an angle in raw radians, at most a quarter turn.
pub fn tan_fx(x: i128) -> (t: i128)
    requires
        0 <= x <= QUARTER_TURN,
    ensures
        t == tan_fx_spec(x as int),
        iabs(t as int) <= 1260000,
{
    proof {
        lemma_trig_bounds(x as int);
    }
    let x2: i128 = mul_fx(x, x);
    let x3: i128 = mul_fx(x2, x);
    let x5: i128 = mul_fx(x3, x2);
    let x7: i128 = mul_fx(x5, x2);
    let x4: i128 = mul_fx(x2, x2);
    let x6: i128 = mul_fx(x4, x2);
    let s: i128 = x - div_trunc(x3, 6) + div_trunc(x5, 120) - div_trunc(x7, 5040);
    let c: i128 = SCALE - div_trunc(x2, 2) + div_trunc(x4, 24) - div_trunc(x6, 720);
    div_fx(s, c)
}

} // verus!
