//! Fixed-point sine and cosine on `[-pi, pi]`.
//!
//! Both are defined as truncated alternating series, evaluated with the same
//! fixed-point steps the executable code takes, so the contracts are exact.
//! The results are clamped to `[-FP_ONE, FP_ONE]`.

use crate::fixed::{
    clamp64, clamp_s, fp_mul, fp_mul_s, lemma_fp_mul_bound, tdiv64, tdiv_s, FP_ONE,
};
use vstd::prelude::*;

verus! {

/// Fixed-point pi.
pub const PI_FP: i64 = 3_141_593;

/// Fixed-point sine of `x` (radians): the series
/// `x - x^3/6 + x^5/120 - x^7/5040 + x^9/362880`, clamped to one.
pub open spec fn sin_fp_s(x: int) -> int {
    let x2 = fp_mul_s(x, x);
    let x3 = fp_mul_s(x2, x);
    let x5 = fp_mul_s(x3, x2);
    let x7 = fp_mul_s(x5, x2);
    let x9 = fp_mul_s(x7, x2);
    let sum = x - tdiv_s(x3, 6) + tdiv_s(x5, 120) - tdiv_s(x7, 5040) + tdiv_s(x9, 362_880);
    clamp_s(sum, -(FP_ONE as int), FP_ONE as int)
}

/// Fixed-point cosine of `x` (radians): the series
/// `1 - x^2/2 + x^4/24 - x^6/720 + x^8/40320`, clamped to one.
pub open spec fn cos_fp_s(x: int) -> int {
    let x2 = fp_mul_s(x, x);
    let x4 = fp_mul_s(x2, x2);
    let x6 = fp_mul_s(x4, x2);
    let x8 = fp_mul_s(x6, x2);
    let sum = (FP_ONE as int) - tdiv_s(x2, 2) + tdiv_s(x4, 24) - tdiv_s(x6, 720) + tdiv_s(
        x8,
        40_320,
    );
    clamp_s(sum, -(FP_ONE as int), FP_ONE as int)
}

/// Fixed-point sine on `[-pi, pi]`.
pub fn sin_fp(x: i64) -> (r: i64)
    requires
        -PI_FP <= x <= PI_FP,
    ensures
        r == sin_fp_s(x as int),
        -FP_ONE <= r <= FP_ONE,
{
    proof {
        lemma_fp_mul_bound(x as int, x as int, 3_141_593, 3_141_593);
    }
    let x2: i64 = fp_mul(x, x);
    proof {
        lemma_fp_mul_bound(x2 as int, x as int, 9_900_000, 3_141_593);
    }
    let x3: i64 = fp_mul(x2, x);
    proof {
        lemma_fp_mul_bound(x3 as int, x2 as int, 31_200_000, 9_900_000);
    }
    let x5: i64 = fp_mul(x3, x2);
    proof {
        lemma_fp_mul_bound(x5 as int, x2 as int, 310_000_000, 9_900_000);
    }
    let x7: i64 = fp_mul(x5, x2);
    proof {
        lemma_fp_mul_bound(x7 as int, x2 as int, 3_100_000_000, 9_900_000);
    }
    let x9: i64 = fp_mul(x7, x2);
    let sum: i64 = x - tdiv64(x3, 6) + tdiv64(x5, 120) - tdiv64(x7, 5040) + tdiv64(x9, 362_880);
    clamp64(sum, -FP_ONE, FP_ONE)
}

/// Fixed-point cosine on `[-pi, pi]`.
pub fn cos_fp(x: i64) -> (r: i64)
    requires
        -PI_FP <= x <= PI_FP,
    ensures
        r == cos_fp_s(x as int),
        -FP_ONE <= r <= FP_ONE,
{
    proof {
        lemma_fp_mul_bound(x as int, x as int, 3_141_593, 3_141_593);
    }
    let x2: i64 = fp_mul(x, x);
    proof {
        lemma_fp_mul_bound(x2 as int, x2 as int, 9_900_000, 9_900_000);
    }
    let x4: i64 = fp_mul(x2, x2);
    proof {
        lemma_fp_mul_bound(x4 as int, x2 as int, 99_000_000, 9_900_000);
    }
    let x6: i64 = fp_mul(x4, x2);
    proof {
        lemma_fp_mul_bound(x6 as int, x2 as int, 990_000_000, 9_900_000);
    }
    let x8: i64 = fp_mul(x6, x2);
    let sum: i64 = FP_ONE - tdiv64(x2, 2) + tdiv64(x4, 24) - tdiv64(x6, 720) + tdiv64(x8, 40_320);
    clamp64(sum, -FP_ONE, FP_ONE)
}

} // verus!
