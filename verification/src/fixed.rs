//! Signed fixed-point arithmetic: an `i64` counts millionths of a unit.
//!
//! The whole library states its contracts over these integers, so products,
//! quotients and roots all have exact mathematical definitions.

use vstd::arithmetic::div_mod::{
    lemma_div_is_ordered, lemma_div_multiples_vanish, lemma_div_nonincreasing,
    lemma_div_pos_is_pos,
};
use vstd::prelude::*;

verus! {

/// Fixed-point steps per whole unit: every value carries six decimal places.
pub const FP_ONE: i64 = 1_000_000;

/// Largest magnitude the arithmetic helpers accept.  The product of two such
/// values, divided by `FP_ONE`, still fits in an `i64`.
pub const FP_LIMIT: i64 = 2_000_000_000_000;

/// Division truncating toward zero (what the machine computes), for a
/// positive divisor.
pub open spec fn tdiv_s(n: int, d: int) -> int {
    if n >= 0 {
        n / d
    } else {
        -((-n) / d)
    }
}

/// Product of two fixed-point values, brought back to fixed-point scale.
pub open spec fn fp_mul_s(a: int, b: int) -> int {
    tdiv_s(a * b, FP_ONE as int)
}

/// Quotient of two fixed-point values at fixed-point scale; the divisor must
/// be positive.
pub open spec fn fp_div_s(a: int, b: int) -> int {
    tdiv_s(a * (FP_ONE as int), b)
}

/// `v` held to the closed interval `[lo, hi]`.
pub open spec fn clamp_s(v: int, lo: int, hi: int) -> int {
    if v < lo {
        lo
    } else if v > hi {
        hi
    } else {
        v
    }
}

/// `x` with its sign dropped.
pub open spec fn abs_s(x: int) -> int {
    if x < 0 {
        -x
    } else {
        x
    }
}

/// The integer square root: the largest `r >= 0` with `r * r <= n`.
pub open spec fn sqrt_s(n: int) -> int
    decreases n,
{
    if n < 1 {
        0
    } else {
        let r = sqrt_s(n - 1);
        if (r + 1) * (r + 1) <= n {
            r + 1
        } else {
            r
        }
    }
}

/// `r` raised to the fifth power.
pub open spec fn pow5_s(r: int) -> int {
    r * r * r * r * r
}

/// The integer fifth root: the largest `r >= 0` with `r^5 <= n`.
pub open spec fn root5_s(n: int) -> int
    decreases n,
{
    if n < 1 {
        0
    } else {
        let r = root5_s(n - 1);
        if pow5_s(r + 1) <= n {
            r + 1
        } else {
            r
        }
    }
}

/// Truncating division has the magnitude of ordinary division: if `|n| <= m`
/// then `|tdiv_s(n, d)| <= m / d`.
pub proof fn lemma_tdiv_bound(n: int, d: int, m: int)
    requires
        1 <= d,
        -m <= n <= m,
    ensures
        -(m / d) <= tdiv_s(n, d) <= m / d,
{
    if n >= 0 {
        lemma_div_is_ordered(n, m, d);
        lemma_div_pos_is_pos(n, d);
    } else {
        lemma_div_is_ordered(-n, m, d);
        lemma_div_pos_is_pos(-n, d);
    }
}

/// A fixed-point product of values bounded by `am` and `bm` is bounded by
/// `am * bm / FP_ONE`.
pub proof fn lemma_fp_mul_bound(a: int, b: int, am: int, bm: int)
    requires
        -am <= a <= am,
        -bm <= b <= bm,
    ensures
        -((am * bm) / (FP_ONE as int)) <= fp_mul_s(a, b) <= (am * bm) / (FP_ONE as int),
{
    assert(-(am * bm) <= a * b <= am * bm) by (nonlinear_arith)
        requires
            -am <= a <= am,
            -bm <= b <= bm,
    ;
    lemma_tdiv_bound(a * b, FP_ONE as int, am * bm);
}

/// Multiplying a nonnegative value by a factor in `[0, FP_ONE]` keeps it in
/// `[0, a]`.
pub proof fn lemma_fp_mul_fraction(a: int, b: int)
    requires
        0 <= a,
        0 <= b <= FP_ONE as int,
    ensures
        0 <= fp_mul_s(a, b) <= a,
{
    assert(0 <= a * b <= a * (FP_ONE as int)) by (nonlinear_arith)
        requires
            0 <= a,
            0 <= b <= FP_ONE as int,
    ;
    lemma_div_is_ordered(a * b, a * (FP_ONE as int), FP_ONE as int);
    lemma_div_multiples_vanish(a, FP_ONE as int);
    lemma_div_pos_is_pos(a * b, FP_ONE as int);
}

/// Dividing a value no larger in magnitude than the (positive) divisor gives
/// a result in `[-FP_ONE, FP_ONE]`.
pub proof fn lemma_fp_div_unit(a: int, b: int)
    requires
        1 <= b,
        -b <= a <= b,
    ensures
        -(FP_ONE as int) <= fp_div_s(a, b) <= FP_ONE as int,
{
    assert(-(b * (FP_ONE as int)) <= a * (FP_ONE as int) <= b * (FP_ONE as int)) by (nonlinear_arith)
        requires
            -b <= a <= b,
    ;
    lemma_tdiv_bound(a * (FP_ONE as int), b, b * (FP_ONE as int));
    assert((b * (FP_ONE as int)) / b == FP_ONE as int) by {
        lemma_div_multiples_vanish(FP_ONE as int, b);
    }
}

/// Fixed-point product.
pub fn fp_mul(a: i64, b: i64) -> (r: i64)
    requires
        -FP_LIMIT <= a <= FP_LIMIT,
        -FP_LIMIT <= b <= FP_LIMIT,
    ensures
        r == fp_mul_s(a as int, b as int),
{
    proof {
        assert((a as int) * (b as int) <= 4_000_000_000_000_000_000_000_000
            && (a as int) * (b as int) >= -4_000_000_000_000_000_000_000_000) by (nonlinear_arith)
            requires
                -2_000_000_000_000 <= a <= 2_000_000_000_000,
                -2_000_000_000_000 <= b <= 2_000_000_000_000,
        ;
    }
    let p: i128 = (a as i128) * (b as i128);
    if p >= 0 {
        let q: u128 = (p as u128) / 1_000_000;
        q as i64
    } else {
        let m: u128 = ((-p) as u128) / 1_000_000;
        -(m as i64)
    }
}

/// Fixed-point product of a wide value and a small factor (at most ten in
/// magnitude): together they still fit the `i64` result.
pub fn fp_mul_wide(a: i64, b: i64) -> (r: i64)
    requires
        -900_000_000_000_000_000 <= a <= 900_000_000_000_000_000,
        -10_000_000 <= b <= 10_000_000,
    ensures
        r == fp_mul_s(a as int, b as int),
{
    proof {
        assert((a as int) * (b as int) <= 9_000_000_000_000_000_000_000_000
            && (a as int) * (b as int) >= -9_000_000_000_000_000_000_000_000) by (nonlinear_arith)
            requires
                -900_000_000_000_000_000 <= a <= 900_000_000_000_000_000,
                -10_000_000 <= b <= 10_000_000,
        ;
    }
    let p: i128 = (a as i128) * (b as i128);
    if p >= 0 {
        let q: u128 = (p as u128) / 1_000_000;
        q as i64
    } else {
        let m: u128 = ((-p) as u128) / 1_000_000;
        -(m as i64)
    }
}

/// Fixed-point quotient by a positive divisor.
pub fn fp_div(a: i64, b: i64) -> (r: i64)
    requires
        1 <= b,
        -FP_LIMIT <= a <= FP_LIMIT,
    ensures
        r == fp_div_s(a as int, b as int),
{
    let p: i128 = (a as i128) * 1_000_000;
    if p >= 0 {
        let q: u128 = (p as u128) / (b as u128);
        proof {
            lemma_div_nonincreasing(p as int, b as int);
            lemma_div_pos_is_pos(p as int, b as int);
        }
        q as i64
    } else {
        let m: u128 = ((-p) as u128) / (b as u128);
        proof {
            lemma_div_nonincreasing(-(p as int), b as int);
            lemma_div_pos_is_pos(-(p as int), b as int);
        }
        -(m as i64)
    }
}

/// Truncating division of an `i64` by a positive divisor.
pub fn tdiv64(n: i64, d: i64) -> (r: i64)
    requires
        1 <= d,
        -0x7fff_ffff_ffff_ffff <= n,
    ensures
        r == tdiv_s(n as int, d as int),
{
    if n >= 0 {
        let q: u64 = (n as u64) / (d as u64);
        proof {
            lemma_div_nonincreasing(n as int, d as int);
            lemma_div_pos_is_pos(n as int, d as int);
        }
        q as i64
    } else {
        let m: u64 = ((-n) as u64) / (d as u64);
        proof {
            lemma_div_nonincreasing(-(n as int), d as int);
            lemma_div_pos_is_pos(-(n as int), d as int);
        }
        -(m as i64)
    }
}

/// `v` held to the closed interval `[lo, hi]`.
pub fn clamp64(v: i64, lo: i64, hi: i64) -> (r: i64)
    requires
        lo <= hi,
    ensures
        r == clamp_s(v as int, lo as int, hi as int),
{
    if v < lo {
        lo
    } else if v > hi {
        hi
    } else {
        v
    }
}

/// The defining bounds of the integer square root.
pub proof fn lemma_sqrt_props(n: int)
    requires
        0 <= n,
    ensures
        0 <= sqrt_s(n),
        sqrt_s(n) * sqrt_s(n) <= n,
        n < (sqrt_s(n) + 1) * (sqrt_s(n) + 1),
    decreases n,
{
    if n < 1 {
    } else {
        lemma_sqrt_props(n - 1);
        let r = sqrt_s(n - 1);
        if (r + 1) * (r + 1) <= n {
            assert(n < (r + 2) * (r + 2)) by (nonlinear_arith)
                requires
                    0 <= r,
                    n - 1 < (r + 1) * (r + 1),
                    (r + 1) * (r + 1) <= n,
            ;
        }
    }
}

/// A candidate meeting the square-root bounds is the square root.
pub proof fn lemma_sqrt_s_is(n: int, r: int)
    requires
        0 <= r,
        r * r <= n,
        n < (r + 1) * (r + 1),
    ensures
        sqrt_s(n) == r,
{
    lemma_sqrt_props(n);
    let q: int = sqrt_s(n);
    assert(q == r) by (nonlinear_arith)
        requires
            0 <= q,
            0 <= r,
            q * q <= n,
            n < (q + 1) * (q + 1),
            r * r <= n,
            n < (r + 1) * (r + 1),
    ;
}

/// Integer square root of values up to `10^28`.
pub fn isqrt128(n: u128) -> (r: u128)
    requires
        n <= 10_000_000_000_000_000_000_000_000_000,
    ensures
        r == sqrt_s(n as int),
        r * r <= n,
        n < (r + 1) * (r + 1),
        r <= 100_000_000_000_000,
{
    let mut lo: u128 = 0;
    let mut hi: u128 = 100_000_000_000_001;
    proof {
        assert(100_000_000_000_001 * 100_000_000_000_001 > 10_000_000_000_000_000_000_000_000_000int);
    }
    while hi - lo > 1
        invariant
            lo < hi,
            hi <= 100_000_000_000_001,
            lo * lo <= n,
            n < hi * hi,
        decreases hi - lo,
    {
        let mid: u128 = lo + (hi - lo) / 2;
        proof {
            assert(mid * mid <= 100_000_000_000_001 * 100_000_000_000_001) by (nonlinear_arith)
                requires
                    0 <= mid <= 100_000_000_000_001u128,
            ;
            assert(100_000_000_000_001 * 100_000_000_000_001 < u128::MAX);
        }
        let sq: u128 = mid * mid;
        if sq <= n {
            lo = mid;
        } else {
            hi = mid;
        }
    }
    proof {
        lemma_sqrt_s_is(n as int, lo as int);
    }
    lo
}

/// The fifth power is monotone on nonnegative values.
pub proof fn lemma_pow5_monotone(a: int, b: int)
    requires
        0 <= a <= b,
    ensures
        pow5_s(a) <= pow5_s(b),
{
    assert(a * a * a * a * a <= b * b * b * b * b) by (nonlinear_arith)
        requires
            0 <= a <= b,
    ;
}

/// The defining bounds of the integer fifth root.
pub proof fn lemma_root5_props(n: int)
    requires
        0 <= n,
    ensures
        0 <= root5_s(n),
        pow5_s(root5_s(n)) <= n,
        n < pow5_s(root5_s(n) + 1),
    decreases n,
{
    if n < 1 {
    } else {
        lemma_root5_props(n - 1);
        let r = root5_s(n - 1);
        if pow5_s(r + 1) <= n {
            assert(n == pow5_s(r + 1));
            assert(pow5_s(r + 1) < pow5_s(r + 2)) by (nonlinear_arith)
                requires
                    0 <= r,
            ;
        }
    }
}

proof fn lemma_root5_s_is(n: int, r: int)
    requires
        0 <= r,
        pow5_s(r) <= n,
        n < pow5_s(r + 1),
    ensures
        root5_s(n) == r,
{
    lemma_root5_props(n);
    let q: int = root5_s(n);
    if q < r {
        lemma_pow5_monotone(q + 1, r);
        assert(false);
    }
    if r < q {
        lemma_pow5_monotone(r + 1, q);
        assert(false);
    }
}

/// Integer fifth root of values up to `10^30`.
pub fn iroot5(n: u128) -> (r: u128)
    requires
        n <= 1_000_000_000_000_000_000_000_000_000_000,
    ensures
        r == root5_s(n as int),
        pow5_s(r as int) <= n,
        n < pow5_s(r as int + 1),
        r <= 1_000_000,
{
    let mut lo: u128 = 0;
    let mut hi: u128 = 1_000_001;
    proof {
        assert(pow5_s(1_000_001) > 1_000_000_000_000_000_000_000_000_000_000int);
    }
    while hi - lo > 1
        invariant
            lo < hi,
            hi <= 1_000_001,
            pow5_s(lo as int) <= n,
            n < pow5_s(hi as int),
        decreases hi - lo,
    {
        let mid: u128 = lo + (hi - lo) / 2;
        proof {
            assert(mid * mid <= 1_000_001 * 1_000_001
                && mid * mid * mid <= 1_000_001 * 1_000_001 * 1_000_001
                && mid * mid * mid * mid <= 1_000_001 * 1_000_001 * 1_000_001 * 1_000_001
                && mid * mid * mid * mid * mid
                    <= 1_000_001 * 1_000_001 * 1_000_001 * 1_000_001 * 1_000_001) by (nonlinear_arith)
                requires
                    0 <= mid <= 1_000_001u128,
            ;
        }
        let p5: u128 = mid * mid * mid * mid * mid;
        assert(p5 == pow5_s(mid as int));
        if p5 <= n {
            lo = mid;
        } else {
            hi = mid;
        }
    }
    proof {
        lemma_root5_s_is(n as int, lo as int);
    }
    lo
}

/// A value whose square is at most `n` is at most `sqrt_s(n)`.
pub proof fn lemma_sqrt_lower(n: int, m: int)
    requires
        0 <= m,
        m * m <= n,
    ensures
        m <= sqrt_s(n),
{
    assert(0 <= m * m) by (nonlinear_arith)
        requires
            0 <= m,
    ;
    lemma_sqrt_props(n);
    let r = sqrt_s(n);
    assert(m <= r) by (nonlinear_arith)
        requires
            0 <= m,
            m * m <= n,
            0 <= r,
            n < (r + 1) * (r + 1),
    ;
}

/// A value below `(b + 1) * (b + 1)` has square root at most `b`.
pub proof fn lemma_sqrt_upper(n: int, b: int)
    requires
        0 <= n,
        0 <= b,
        n < (b + 1) * (b + 1),
    ensures
        sqrt_s(n) <= b,
{
    lemma_sqrt_props(n);
    let r = sqrt_s(n);
    assert(r <= b) by (nonlinear_arith)
        requires
            0 <= r,
            0 <= b,
            r * r <= n,
            n < (b + 1) * (b + 1),
    ;
}

/// A value below `pow5_s(b + 1)` has fifth root at most `b`.
pub proof fn lemma_root5_upper(n: int, b: int)
    requires
        0 <= n,
        0 <= b,
        n < pow5_s(b + 1),
    ensures
        root5_s(n) <= b,
{
    lemma_root5_props(n);
    if root5_s(n) > b {
        lemma_pow5_monotone(b + 1, root5_s(n));
        assert(false);
    }
}

} // verus!
