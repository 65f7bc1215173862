//! Palette colors in linear RGB, derived from a hue.
//!
//! A hue in micro-degrees is turned into a color at fixed saturation `0.7`
//! and lightness `0.5`, then each standard-RGB channel is mapped to linear
//! light with the exact integer form of the sRGB decoding curve (the
//! `2.4`-power branch uses an integer fifth root).

use crate::fixed::{
    abs_s, fp_mul, fp_mul_s, iroot5, lemma_fp_mul_fraction, lemma_root5_props, lemma_root5_upper,
    root5_s, tdiv64, tdiv_s, FP_ONE,
};
use vstd::arithmetic::div_mod::{lemma_div_is_ordered, lemma_div_pos_is_pos};
use vstd::prelude::*;

verus! {

/// A linear-RGB color with fixed-point channels in `[0, FP_ONE]`.
#[derive(Clone, Copy, PartialEq, Eq, Structural, Debug)]
pub struct ColorFp {
    pub red: i64,
    pub green: i64,
    pub blue: i64,
}

/// Chroma of every palette color: `(1 - |2 * 0.5 - 1|) * 0.7` in fixed point.
pub const HSL_CHROMA: i64 = 700_000;

/// Offset added to every channel: `0.5 - chroma / 2` in fixed point.
pub const HSL_FLOOR: i64 = 150_000;

/// The `2.4`-power of a fixed-point value in `[0, FP_ONE]`:
/// `FP_ONE * (y / FP_ONE)^2 * (y / FP_ONE)^(2/5)`, each factor floored.
pub open spec fn gamma_expand_s(y: int) -> int {
    fp_mul_s(fp_mul_s(y, y), root5_s(y * y * 1_000_000_000_000_000_000))
}

/// A standard-RGB channel value mapped to linear light.
pub open spec fn srgb_to_linear_s(v: int) -> int {
    if v <= 40_450 {
        tdiv_s(v * 25, 323)
    } else {
        gamma_expand_s(tdiv_s((v + 55_000) * 200, 211))
    }
}

/// The channel triple, before gamma decoding, of hue `h` (micro-degrees) at
/// saturation `0.7` and lightness `0.5`.
pub open spec fn hue_channels_s(h: int) -> (int, int, int) {
    let hh = tdiv_s(h, 60);
    let x = fp_mul_s(HSL_CHROMA as int, (FP_ONE as int) - abs_s(hh % 2_000_000 - 1_000_000));
    let sector = hh / 1_000_000;
    if sector == 0 {
        (HSL_CHROMA as int, x, 0int)
    } else if sector == 1 {
        (x, HSL_CHROMA as int, 0int)
    } else if sector == 2 {
        (0int, HSL_CHROMA as int, x)
    } else if sector == 3 {
        (0int, x, HSL_CHROMA as int)
    } else if sector == 4 {
        (x, 0int, HSL_CHROMA as int)
    } else {
        (HSL_CHROMA as int, 0int, x)
    }
}

/// The linear-RGB color of hue `h` in micro-degrees.
pub open spec fn hue_color_s(h: int) -> ColorFp {
    let c = hue_channels_s(h);
    ColorFp {
        red: srgb_to_linear_s(c.0 + HSL_FLOOR) as i64,
        green: srgb_to_linear_s(c.1 + HSL_FLOOR) as i64,
        blue: srgb_to_linear_s(c.2 + HSL_FLOOR) as i64,
    }
}

/// Every channel of a well-formed color lies in `[0, FP_ONE]`.
pub open spec fn color_wf_s(c: ColorFp) -> bool {
    0 <= c.red <= FP_ONE && 0 <= c.green <= FP_ONE && 0 <= c.blue <= FP_ONE
}

/// The gamma curve maps `[0, FP_ONE]` into itself.
pub proof fn lemma_gamma_expand_bounds(y: int)
    requires
        0 <= y <= FP_ONE as int,
    ensures
        0 <= gamma_expand_s(y) <= FP_ONE as int,
{
    lemma_fp_mul_fraction(y, y);
    assert(0 <= y * y <= 1_000_000_000_000) by (nonlinear_arith)
        requires
            0 <= y <= 1_000_000,
    ;
    let arg = y * y * 1_000_000_000_000_000_000;
    lemma_root5_props(arg);
    lemma_root5_upper(arg, 1_000_000);
    lemma_fp_mul_fraction(fp_mul_s(y, y), root5_s(arg));
}

/// The whole channel map stays within `[0, FP_ONE]` on that same range.
pub proof fn lemma_srgb_to_linear_bounds(v: int)
    requires
        0 <= v <= FP_ONE as int,
    ensures
        0 <= srgb_to_linear_s(v) <= FP_ONE as int,
{
    if v <= 40_450 {
        lemma_div_pos_is_pos(v * 25, 323);
        lemma_div_is_ordered(v * 25, 1_011_250, 323);
    } else {
        let y = tdiv_s((v + 55_000) * 200, 211);
        lemma_div_pos_is_pos((v + 55_000) * 200, 211);
        lemma_div_is_ordered((v + 55_000) * 200, 211_000_000, 211);
        lemma_gamma_expand_bounds(y);
    }
}

/// A standard-RGB channel mapped to linear light.
pub fn srgb_to_linear(v: i64) -> (r: i64)
    requires
        0 <= v <= FP_ONE,
    ensures
        r == srgb_to_linear_s(v as int),
        0 <= r <= FP_ONE,
{
    proof {
        lemma_srgb_to_linear_bounds(v as int);
    }
    if v <= 40_450 {
        tdiv64(v * 25, 323)
    } else {
        let y: i64 = tdiv64((v + 55_000) * 200, 211);
        proof {
            lemma_div_pos_is_pos((v as int + 55_000) * 200, 211);
            lemma_div_is_ordered((v as int + 55_000) * 200, 211_000_000, 211);
            assert((y as u128) * (y as u128) <= 1_000_000_000_000) by (nonlinear_arith)
                requires
                    0 <= y <= 1_000_000,
            ;
        }
        let y2raw: u128 = (y as u128) * (y as u128);
        let z: u128 = iroot5(y2raw * 1_000_000_000_000_000_000);
        let y2s: i64 = fp_mul(y, y);
        proof {
            lemma_fp_mul_fraction(y as int, y as int);
        }
        fp_mul(y2s, z as i64)
    }
}

/// The linear-RGB color of hue `h` in micro-degrees.
pub fn hue_color(h: i64) -> (r: ColorFp)
    requires
        0 <= h < 360_000_000,
    ensures
        r == hue_color_s(h as int),
        color_wf_s(r),
{
    let hh: u64 = (h as u64) / 60;
    let sector: u64 = hh / 1_000_000;
    let m2: u64 = hh % 2_000_000;
    let diff: i64 = (m2 as i64) - 1_000_000;
    let a: i64 = if diff < 0 {
        -diff
    } else {
        diff
    };
    let x: i64 = fp_mul(HSL_CHROMA, 1_000_000 - a);
    proof {
        lemma_fp_mul_fraction(HSL_CHROMA as int, 1_000_000 - a as int);
    }
    let c0: i64;
    let c1: i64;
    let c2: i64;
    if sector == 0 {
        c0 = HSL_CHROMA;
        c1 = x;
        c2 = 0;
    } else if sector == 1 {
        c0 = x;
        c1 = HSL_CHROMA;
        c2 = 0;
    } else if sector == 2 {
        c0 = 0;
        c1 = HSL_CHROMA;
        c2 = x;
    } else if sector == 3 {
        c0 = 0;
        c1 = x;
        c2 = HSL_CHROMA;
    } else if sector == 4 {
        c0 = x;
        c1 = 0;
        c2 = HSL_CHROMA;
    } else {
        c0 = HSL_CHROMA;
        c1 = 0;
        c2 = x;
    }
    ColorFp {
        red: srgb_to_linear(c0 + HSL_FLOOR),
        green: srgb_to_linear(c1 + HSL_FLOOR),
        blue: srgb_to_linear(c2 + HSL_FLOOR),
    }
}

} // verus!
