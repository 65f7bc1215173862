//! 3-D vectors with fixed-point components.

use crate::fixed::{
    fp_div, fp_div_s, fp_mul, fp_mul_s, fp_mul_wide, isqrt128, lemma_fp_div_unit,
    lemma_fp_mul_bound, lemma_sqrt_lower, lemma_sqrt_props, lemma_sqrt_upper, sqrt_s, FP_LIMIT,
    FP_ONE,
};
use vstd::prelude::*;

verus! {

/// A 3-D vector with fixed-point components.
#[derive(Clone, Copy, PartialEq, Eq, Structural, Debug)]
pub struct Vec3Fp {
    pub x: i64,
    pub y: i64,
    pub z: i64,
}

/// Every component of `v` lies within `m` in magnitude.
pub open spec fn v3_wf_s(v: Vec3Fp, m: int) -> bool {
    -m <= v.x <= m && -m <= v.y <= m && -m <= v.z <= m
}

/// Componentwise sum.
pub open spec fn v3_add_s(a: Vec3Fp, b: Vec3Fp) -> Vec3Fp {
    Vec3Fp { x: (a.x + b.x) as i64, y: (a.y + b.y) as i64, z: (a.z + b.z) as i64 }
}

/// Componentwise difference.
pub open spec fn v3_sub_s(a: Vec3Fp, b: Vec3Fp) -> Vec3Fp {
    Vec3Fp { x: (a.x - b.x) as i64, y: (a.y - b.y) as i64, z: (a.z - b.z) as i64 }
}

/// The vector scaled by a fixed-point factor.
pub open spec fn v3_scale_s(v: Vec3Fp, s: int) -> Vec3Fp {
    Vec3Fp {
        x: fp_mul_s(v.x as int, s) as i64,
        y: fp_mul_s(v.y as int, s) as i64,
        z: fp_mul_s(v.z as int, s) as i64,
    }
}

/// The cross product, at fixed-point scale.
pub open spec fn v3_cross_s(a: Vec3Fp, b: Vec3Fp) -> Vec3Fp {
    Vec3Fp {
        x: (fp_mul_s(a.y as int, b.z as int) - fp_mul_s(a.z as int, b.y as int)) as i64,
        y: (fp_mul_s(a.z as int, b.x as int) - fp_mul_s(a.x as int, b.z as int)) as i64,
        z: (fp_mul_s(a.x as int, b.y as int) - fp_mul_s(a.y as int, b.x as int)) as i64,
    }
}

/// The squared length, in raw (doubly scaled) units.
pub open spec fn v3_norm_raw_s(v: Vec3Fp) -> int {
    (v.x as int) * (v.x as int) + (v.y as int) * (v.y as int) + (v.z as int) * (v.z as int)
}

/// The vector scaled to unit length (fixed-point), by its integer norm.
pub open spec fn v3_normalize_s(v: Vec3Fp) -> Vec3Fp {
    let n = sqrt_s(v3_norm_raw_s(v));
    Vec3Fp {
        x: fp_div_s(v.x as int, n) as i64,
        y: fp_div_s(v.y as int, n) as i64,
        z: fp_div_s(v.z as int, n) as i64,
    }
}

/// Componentwise sum.
pub fn v3_add(a: Vec3Fp, b: Vec3Fp) -> (r: Vec3Fp)
    requires
        v3_wf_s(a, 2_000_000_000_000_000_000),
        v3_wf_s(b, 2_000_000_000_000_000_000),
    ensures
        r == v3_add_s(a, b),
{
    Vec3Fp { x: a.x + b.x, y: a.y + b.y, z: a.z + b.z }
}

/// Componentwise difference.
pub fn v3_sub(a: Vec3Fp, b: Vec3Fp) -> (r: Vec3Fp)
    requires
        v3_wf_s(a, 2_000_000_000_000_000_000),
        v3_wf_s(b, 2_000_000_000_000_000_000),
    ensures
        r == v3_sub_s(a, b),
{
    Vec3Fp { x: a.x - b.x, y: a.y - b.y, z: a.z - b.z }
}

/// The vector scaled by a fixed-point factor.
pub fn v3_scale(v: Vec3Fp, s: i64) -> (r: Vec3Fp)
    requires
        v3_wf_s(v, FP_LIMIT as int),
        -FP_LIMIT <= s <= FP_LIMIT,
    ensures
        r == v3_scale_s(v, s as int),
{
    Vec3Fp { x: fp_mul(v.x, s), y: fp_mul(v.y, s), z: fp_mul(v.z, s) }
}

/// The vector scaled by a small fixed-point factor (at most ten), allowing
/// wide components.
pub fn v3_scale_small(v: Vec3Fp, s: i64) -> (r: Vec3Fp)
    requires
        v3_wf_s(v, 900_000_000_000_000_000),
        -10_000_000 <= s <= 10_000_000,
    ensures
        r == v3_scale_s(v, s as int),
{
    Vec3Fp { x: fp_mul_wide(v.x, s), y: fp_mul_wide(v.y, s), z: fp_mul_wide(v.z, s) }
}

/// The cross product, at fixed-point scale.
pub fn v3_cross(a: Vec3Fp, b: Vec3Fp) -> (r: Vec3Fp)
    requires
        v3_wf_s(a, 1_000_000_000_000),
        v3_wf_s(b, 1_000_000_000_000),
    ensures
        r == v3_cross_s(a, b),
{
    proof {
        lemma_fp_mul_bound(a.y as int, b.z as int, 1_000_000_000_000, 1_000_000_000_000);
        lemma_fp_mul_bound(a.z as int, b.y as int, 1_000_000_000_000, 1_000_000_000_000);
        lemma_fp_mul_bound(a.z as int, b.x as int, 1_000_000_000_000, 1_000_000_000_000);
        lemma_fp_mul_bound(a.x as int, b.z as int, 1_000_000_000_000, 1_000_000_000_000);
        lemma_fp_mul_bound(a.x as int, b.y as int, 1_000_000_000_000, 1_000_000_000_000);
        lemma_fp_mul_bound(a.y as int, b.x as int, 1_000_000_000_000, 1_000_000_000_000);
    }
    Vec3Fp {
        x: fp_mul(a.y, b.z) - fp_mul(a.z, b.y),
        y: fp_mul(a.z, b.x) - fp_mul(a.x, b.z),
        z: fp_mul(a.x, b.y) - fp_mul(a.y, b.x),
    }
}

/// Components bounded by `am` and `bm` give cross-product components
/// bounded by twice their scaled product.
pub proof fn lemma_cross_bound(a: Vec3Fp, b: Vec3Fp, am: int, bm: int)
    requires
        v3_wf_s(a, am),
        v3_wf_s(b, bm),
    ensures
        v3_wf_s(v3_cross_s(a, b), 2 * ((am * bm) / (FP_ONE as int))),
{
    lemma_fp_mul_bound(a.y as int, b.z as int, am, bm);
    lemma_fp_mul_bound(a.z as int, b.y as int, am, bm);
    lemma_fp_mul_bound(a.z as int, b.x as int, am, bm);
    lemma_fp_mul_bound(a.x as int, b.z as int, am, bm);
    lemma_fp_mul_bound(a.x as int, b.y as int, am, bm);
    lemma_fp_mul_bound(a.y as int, b.x as int, am, bm);
}

/// Scaling a bounded vector keeps its components within the scaled bound.
pub proof fn lemma_scale_bound(v: Vec3Fp, s: int, vm: int, sm: int)
    requires
        v3_wf_s(v, vm),
        -sm <= s <= sm,
    ensures
        v3_wf_s(v3_scale_s(v, s), (vm * sm) / (FP_ONE as int)),
{
    lemma_fp_mul_bound(v.x as int, s, vm, sm);
    lemma_fp_mul_bound(v.y as int, s, vm, sm);
    lemma_fp_mul_bound(v.z as int, s, vm, sm);
}

/// The integer norm: the square root of the raw squared length.
pub fn v3_norm(v: Vec3Fp) -> (r: i64)
    requires
        v3_wf_s(v, FP_LIMIT as int),
    ensures
        r == sqrt_s(v3_norm_raw_s(v)),
        0 <= r <= 3_500_000_000_000,
{
    proof {
        lemma_norm_raw_bound(v, FP_LIMIT as int);
        assert((v.x as int) * (v.x as int) <= 4_000_000_000_000_000_000_000_000
            && (v.y as int) * (v.y as int) <= 4_000_000_000_000_000_000_000_000
            && (v.z as int) * (v.z as int) <= 4_000_000_000_000_000_000_000_000) by (nonlinear_arith)
            requires
                -2_000_000_000_000 <= v.x <= 2_000_000_000_000,
                -2_000_000_000_000 <= v.y <= 2_000_000_000_000,
                -2_000_000_000_000 <= v.z <= 2_000_000_000_000,
        ;
    }
    let xx: i128 = (v.x as i128) * (v.x as i128);
    let yy: i128 = (v.y as i128) * (v.y as i128);
    let zz: i128 = (v.z as i128) * (v.z as i128);
    let raw: u128 = (xx + yy + zz) as u128;
    let n: u128 = isqrt128(raw);
    proof {
        lemma_sqrt_upper(raw as int, 3_500_000_000_000);
    }
    n as i64
}

/// The raw squared length of a bounded vector is nonnegative and at most
/// three squared bounds.
pub proof fn lemma_norm_raw_bound(v: Vec3Fp, m: int)
    requires
        v3_wf_s(v, m),
    ensures
        0 <= v3_norm_raw_s(v) <= 3 * (m * m),
{
    assert(0 <= (v.x as int) * (v.x as int) <= m * m) by (nonlinear_arith)
        requires
            -m <= v.x <= m,
    ;
    assert(0 <= (v.y as int) * (v.y as int) <= m * m) by (nonlinear_arith)
        requires
            -m <= v.y <= m,
    ;
    assert(0 <= (v.z as int) * (v.z as int) <= m * m) by (nonlinear_arith)
        requires
            -m <= v.z <= m,
    ;
}

/// The vector scaled to unit length.  The components of the result lie in
/// `[-FP_ONE, FP_ONE]`.
pub fn v3_normalize(v: Vec3Fp) -> (r: Vec3Fp)
    requires
        v3_wf_s(v, FP_LIMIT as int),
        v3_norm_raw_s(v) > 0,
    ensures
        r == v3_normalize_s(v),
        v3_wf_s(r, FP_ONE as int),
{
    let n: i64 = v3_norm(v);
    proof {
        lemma_norm_raw_bound(v, FP_LIMIT as int);
        lemma_sqrt_props(v3_norm_raw_s(v));
        lemma_sqrt_lower(v3_norm_raw_s(v), 1);
        assert((v.x as int) * (v.x as int) <= v3_norm_raw_s(v)
            && (v.y as int) * (v.y as int) <= v3_norm_raw_s(v)
            && (v.z as int) * (v.z as int) <= v3_norm_raw_s(v)) by (nonlinear_arith);
        lemma_component_below_norm(v.x as int, v3_norm_raw_s(v));
        lemma_component_below_norm(v.y as int, v3_norm_raw_s(v));
        lemma_component_below_norm(v.z as int, v3_norm_raw_s(v));
        lemma_fp_div_unit(v.x as int, n as int);
        lemma_fp_div_unit(v.y as int, n as int);
        lemma_fp_div_unit(v.z as int, n as int);
    }
    Vec3Fp { x: fp_div(v.x, n), y: fp_div(v.y, n), z: fp_div(v.z, n) }
}

/// Each component of a vector is bounded in magnitude by the integer square
/// root of the raw squared length.
proof fn lemma_component_below_norm(c: int, raw: int)
    requires
        v3_component_sq_le(c, raw),
    ensures
        -sqrt_s(raw) <= c <= sqrt_s(raw),
{
    if c >= 0 {
        lemma_sqrt_lower(raw, c);
    } else {
        assert((-c) * (-c) == c * c) by (nonlinear_arith);
        lemma_sqrt_lower(raw, -c);
    }
}

/// `c * c` is part of the raw squared length `raw`.
pub open spec fn v3_component_sq_le(c: int, raw: int) -> bool {
    c * c <= raw
}

} // verus!
