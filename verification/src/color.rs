//! Gamma correction and quantization of an accumulated pixel color.

use vstd::prelude::*;

verus! {

use crate::fixed::SCALE;
use crate::fixed::dtr;
use crate::fixed::fdiv;
use crate::fixed::fmul;
use crate::fixed::fsqrt;
use crate::fixed::iabs;
use crate::fixed::div_fx;
use crate::fixed::div_trunc;
use crate::fixed::lemma_dtr_mono;
use crate::fixed::lemma_fdiv_bound;
use crate::fixed::lemma_fmul_bound;
use crate::fixed::mul_fx;
use crate::fixed::sqrt_fx;
use crate::vec3::Color;
use crate::vec3::bounded;
use vstd::arithmetic::div_mod::lemma_div_pos_is_pos;
use vstd::arithmetic::mul::lemma_mul_inequality;

/// The largest admitted sample count per pixel.
pub const SAMPLES_LIMIT: i128 = 1000000000;

/// Magnitude cap on an accumulated (summed over samples) channel.
pub const ACCUM_LIMIT: i128 = 0x1000_0000_0000_0000;

/// One channel: average over the samples, gamma-2 correct, clamp to
/// `[0, 0.999]` and quantize to an integer in `[0, 255]`.
pub open spec fn gamma_channel(x: int, samples: int) -> int {
    let scale = fdiv(SCALE as int, samples * SCALE as int);
    let v = fmul(scale, x);
    let g = if v > 0 {
        fsqrt(v)
    } else {
        0
    };
    let clamped = if g > 999000 {
        999000
    } else {
        g
    };
    dtr(256 * clamped, SCALE as int)
}

fn quantize_channel(x: i128, samples: i128) -> (c: i128)
    requires
        1 <= samples <= SAMPLES_LIMIT,
        iabs(x as int) <= ACCUM_LIMIT as int,
    ensures
        c == gamma_channel(x as int, samples as int),
        0 <= c <= 255,
{
    proof {
        lemma_mul_inequality(1, samples as int, SCALE as int);
        assert((samples as int) * (SCALE as int) == (SCALE as int) * (samples as int))
            by (nonlinear_arith);
        lemma_fdiv_bound(SCALE as int, (samples as int) * (SCALE as int), SCALE as int);
    }
    let scale: i128 = div_fx(SCALE, samples * SCALE);
    proof {
        lemma_fmul_bound(scale as int, x as int, SCALE as int, ACCUM_LIMIT as int,
            ACCUM_LIMIT as int,
        );
    }
    let v: i128 = mul_fx(scale, x);
    let g: i128 = if v > 0 {
        sqrt_fx(v)
    } else {
        0
    };
    let clamped: i128 = if g > 999000 {
        999000
    } else {
        g
    };
    proof {
        let q = dtr(256 * clamped as int, SCALE as int);
        lemma_div_pos_is_pos(256 * clamped as int, SCALE as int);
        lemma_dtr_mono(256 * clamped as int, 255744000, SCALE as int);
        assert(dtr(255744000, SCALE as int) == 255) by {
            vstd::arithmetic::div_mod::lemma_fundamental_div_mod_converse(
                255744000,
                1000000,
                255,
                744000,
            );
        }
    }
    div_trunc(256 * clamped, SCALE)
}

/// The three quantized channels of a pixel, averaged over its samples.
pub fn quantize_color(pixel_color: Color, samples_per_pixel: i128) -> (rgb: (i128, i128, i128))
    requires
        1 <= samples_per_pixel <= SAMPLES_LIMIT,
        bounded(pixel_color, ACCUM_LIMIT as int),
    ensures
        rgb.0 == gamma_channel(pixel_color.x as int, samples_per_pixel as int),
        rgb.1 == gamma_channel(pixel_color.y as int, samples_per_pixel as int),
        rgb.2 == gamma_channel(pixel_color.z as int, samples_per_pixel as int),
        0 <= rgb.0 <= 255,
        0 <= rgb.1 <= 255,
        0 <= rgb.2 <= 255,
{
    (
        quantize_channel(pixel_color.x, samples_per_pixel),
        quantize_channel(pixel_color.y, samples_per_pixel),
        quantize_channel(pixel_color.z, samples_per_pixel),
    )
}

} // verus!
