//! Orientation quaternions with fixed-point components.
//!
//! A rotation about a local axis multiplies the orientation on the right by
//! a rotation quaternion built from the half-angle sine and cosine.  All
//! products follow the fixed-point rules exactly, so composed rotations are
//! fully specified.

use crate::fixed::{fp_mul, fp_mul_s, lemma_fp_mul_bound, tdiv64, tdiv_s, FP_ONE};
use crate::trig::{cos_fp, cos_fp_s, sin_fp, sin_fp_s};
use crate::vec3::{v3_cross_s, Vec3Fp};
use vstd::prelude::*;

verus! {

/// An orientation, stored as a quaternion with fixed-point components.
#[derive(Clone, Copy, PartialEq, Eq, Structural, Debug)]
pub struct QuatFp {
    pub w: i64,
    pub x: i64,
    pub y: i64,
    pub z: i64,
}

/// The bound the rotation routines ask of an orientation's components:
/// twice the unit scale, which leaves room for rounding drift.
pub const QUAT_LIMIT: i64 = 2_000_000;

/// The largest rotation angle a single step accepts: a full turn.
pub const ROT_ANGLE_LIMIT: i64 = 6_283_186;

/// Every component of `q` lies within `m` in magnitude.
pub open spec fn quat_wf_s(q: QuatFp, m: int) -> bool {
    -m <= q.w <= m && -m <= q.x <= m && -m <= q.y <= m && -m <= q.z <= m
}

/// The identity orientation.
pub open spec fn quat_identity_s() -> QuatFp {
    QuatFp { w: FP_ONE, x: 0, y: 0, z: 0 }
}

/// The Hamilton product, at fixed-point scale.
pub open spec fn quat_mul_s(a: QuatFp, b: QuatFp) -> QuatFp {
    QuatFp {
        w: (fp_mul_s(a.w as int, b.w as int) - fp_mul_s(a.x as int, b.x as int) - fp_mul_s(
            a.y as int,
            b.y as int,
        ) - fp_mul_s(a.z as int, b.z as int)) as i64,
        x: (fp_mul_s(a.w as int, b.x as int) + fp_mul_s(a.x as int, b.w as int) + fp_mul_s(
            a.y as int,
            b.z as int,
        ) - fp_mul_s(a.z as int, b.y as int)) as i64,
        y: (fp_mul_s(a.w as int, b.y as int) - fp_mul_s(a.x as int, b.z as int) + fp_mul_s(
            a.y as int,
            b.w as int,
        ) + fp_mul_s(a.z as int, b.x as int)) as i64,
        z: (fp_mul_s(a.w as int, b.z as int) + fp_mul_s(a.x as int, b.y as int) - fp_mul_s(
            a.y as int,
            b.x as int,
        ) + fp_mul_s(a.z as int, b.w as int)) as i64,
    }
}

/// The rotation quaternion for an angle about the local x axis.
pub open spec fn rot_x_s(angle: int) -> QuatFp {
    let half = tdiv_s(angle, 2);
    QuatFp { w: cos_fp_s(half) as i64, x: sin_fp_s(half) as i64, y: 0, z: 0 }
}

/// The rotation quaternion for an angle about the local y axis.
pub open spec fn rot_y_s(angle: int) -> QuatFp {
    let half = tdiv_s(angle, 2);
    QuatFp { w: cos_fp_s(half) as i64, x: 0, y: sin_fp_s(half) as i64, z: 0 }
}

/// The rotation quaternion for an angle about the local z axis.
pub open spec fn rot_z_s(angle: int) -> QuatFp {
    let half = tdiv_s(angle, 2);
    QuatFp { w: cos_fp_s(half) as i64, x: 0, y: 0, z: sin_fp_s(half) as i64 }
}

/// A vector rotated by a quaternion:
/// `v + w * t + q x t` with `t = 2 * (q x v)`.
pub open spec fn quat_rotate_s(q: QuatFp, v: Vec3Fp) -> Vec3Fp {
    let qv = Vec3Fp { x: q.x, y: q.y, z: q.z };
    let c1 = v3_cross_s(qv, v);
    let t = Vec3Fp { x: (2 * c1.x) as i64, y: (2 * c1.y) as i64, z: (2 * c1.z) as i64 };
    let u = v3_cross_s(qv, t);
    Vec3Fp {
        x: (v.x + fp_mul_s(q.w as int, t.x as int) + u.x) as i64,
        y: (v.y + fp_mul_s(q.w as int, t.y as int) + u.y) as i64,
        z: (v.z + fp_mul_s(q.w as int, t.z as int) + u.z) as i64,
    }
}

/// The local forward axis of an orientation (toward negative z).
pub open spec fn quat_forward_s(q: QuatFp) -> Vec3Fp {
    quat_rotate_s(q, Vec3Fp { x: 0, y: 0, z: -1_000_000i64 })
}

/// The local up axis of an orientation.
pub open spec fn quat_up_s(q: QuatFp) -> Vec3Fp {
    quat_rotate_s(q, Vec3Fp { x: 0, y: 1_000_000i64, z: 0 })
}

/// The local right axis of an orientation.
pub open spec fn quat_right_s(q: QuatFp) -> Vec3Fp {
    quat_rotate_s(q, Vec3Fp { x: 1_000_000i64, y: 0, z: 0 })
}

/// The identity orientation.
pub fn quat_identity() -> (r: QuatFp)
    ensures
        r == quat_identity_s(),
{
    QuatFp { w: FP_ONE, x: 0, y: 0, z: 0 }
}

/// The Hamilton product.  The factors must be bounded; the product's
/// components grow by at most a factor of four beyond their scaled product.
pub fn quat_mul(a: QuatFp, b: QuatFp) -> (r: QuatFp)
    requires
        quat_wf_s(a, 2_000_000_000),
        quat_wf_s(b, 2_000_000_000),
    ensures
        r == quat_mul_s(a, b),
{
    proof {
        lemma_quat_mul_products(a, b);
    }
    QuatFp {
        w: fp_mul(a.w, b.w) - fp_mul(a.x, b.x) - fp_mul(a.y, b.y) - fp_mul(a.z, b.z),
        x: fp_mul(a.w, b.x) + fp_mul(a.x, b.w) + fp_mul(a.y, b.z) - fp_mul(a.z, b.y),
        y: fp_mul(a.w, b.y) - fp_mul(a.x, b.z) + fp_mul(a.y, b.w) + fp_mul(a.z, b.x),
        z: fp_mul(a.w, b.z) + fp_mul(a.x, b.y) - fp_mul(a.y, b.x) + fp_mul(a.z, b.w),
    }
}

proof fn lemma_quat_mul_products(a: QuatFp, b: QuatFp)
    requires
        quat_wf_s(a, 2_000_000_000),
        quat_wf_s(b, 2_000_000_000),
    ensures
        forall|p: int, q: int|
            -2_000_000_000 <= p <= 2_000_000_000 && -2_000_000_000 <= q <= 2_000_000_000
                ==> -4_000_000_000_000 <= #[trigger] fp_mul_s(p, q) <= 4_000_000_000_000,
{
    assert forall|p: int, q: int|
        -2_000_000_000 <= p <= 2_000_000_000 && -2_000_000_000 <= q <= 2_000_000_000 implies
        -4_000_000_000_000 <= #[trigger] fp_mul_s(p, q) <= 4_000_000_000_000 by {
        lemma_fp_mul_bound(p, q, 2_000_000_000, 2_000_000_000);
    }
}

/// Components bounded by `am` and `bm` give product components bounded by
/// four times their scaled product.
pub proof fn lemma_quat_mul_bound(a: QuatFp, b: QuatFp, am: int, bm: int)
    requires
        quat_wf_s(a, am),
        quat_wf_s(b, bm),
    ensures
        quat_wf_s(quat_mul_s(a, b), 4 * ((am * bm) / (FP_ONE as int))),
{
    lemma_fp_mul_bound(a.w as int, b.w as int, am, bm);
    lemma_fp_mul_bound(a.w as int, b.x as int, am, bm);
    lemma_fp_mul_bound(a.w as int, b.y as int, am, bm);
    lemma_fp_mul_bound(a.w as int, b.z as int, am, bm);
    lemma_fp_mul_bound(a.x as int, b.w as int, am, bm);
    lemma_fp_mul_bound(a.x as int, b.x as int, am, bm);
    lemma_fp_mul_bound(a.x as int, b.y as int, am, bm);
    lemma_fp_mul_bound(a.x as int, b.z as int, am, bm);
    lemma_fp_mul_bound(a.y as int, b.w as int, am, bm);
    lemma_fp_mul_bound(a.y as int, b.x as int, am, bm);
    lemma_fp_mul_bound(a.y as int, b.y as int, am, bm);
    lemma_fp_mul_bound(a.y as int, b.z as int, am, bm);
    lemma_fp_mul_bound(a.z as int, b.w as int, am, bm);
    lemma_fp_mul_bound(a.z as int, b.x as int, am, bm);
    lemma_fp_mul_bound(a.z as int, b.y as int, am, bm);
    lemma_fp_mul_bound(a.z as int, b.z as int, am, bm);
}

/// The rotation quaternion for an angle about the local x axis.
pub fn rot_x(angle: i64) -> (r: QuatFp)
    requires
        -ROT_ANGLE_LIMIT <= angle <= ROT_ANGLE_LIMIT,
    ensures
        r == rot_x_s(angle as int),
        quat_wf_s(r, FP_ONE as int),
{
    let half: i64 = tdiv64(angle, 2);
    QuatFp { w: cos_fp(half), x: sin_fp(half), y: 0, z: 0 }
}

/// The rotation quaternion for an angle about the local y axis.
pub fn rot_y(angle: i64) -> (r: QuatFp)
    requires
        -ROT_ANGLE_LIMIT <= angle <= ROT_ANGLE_LIMIT,
    ensures
        r == rot_y_s(angle as int),
        quat_wf_s(r, FP_ONE as int),
{
    let half: i64 = tdiv64(angle, 2);
    QuatFp { w: cos_fp(half), x: 0, y: sin_fp(half), z: 0 }
}

/// The rotation quaternion for an angle about the local z axis.
pub fn rot_z(angle: i64) -> (r: QuatFp)
    requires
        -ROT_ANGLE_LIMIT <= angle <= ROT_ANGLE_LIMIT,
    ensures
        r == rot_z_s(angle as int),
        quat_wf_s(r, FP_ONE as int),
{
    let half: i64 = tdiv64(angle, 2);
    QuatFp { w: cos_fp(half), x: 0, y: 0, z: sin_fp(half) }
}

/// A vector rotated by a (near-unit) quaternion.
pub fn quat_rotate(q: QuatFp, v: Vec3Fp) -> (r: Vec3Fp)
    requires
        quat_wf_s(q, QUAT_LIMIT as int),
        crate::vec3::v3_wf_s(v, FP_ONE as int),
    ensures
        r == quat_rotate_s(q, v),
        crate::vec3::v3_wf_s(r, 50_000_000),
{
    let qv = Vec3Fp { x: q.x, y: q.y, z: q.z };
    proof {
        crate::vec3::lemma_cross_bound(qv, v, 2_000_000, 1_000_000);
    }
    let c1: Vec3Fp = crate::vec3::v3_cross(qv, v);
    let t = Vec3Fp { x: 2 * c1.x, y: 2 * c1.y, z: 2 * c1.z };
    proof {
        crate::vec3::lemma_cross_bound(qv, t, 2_000_000, 8_000_000);
        lemma_fp_mul_bound(q.w as int, t.x as int, 2_000_000, 8_000_000);
        lemma_fp_mul_bound(q.w as int, t.y as int, 2_000_000, 8_000_000);
        lemma_fp_mul_bound(q.w as int, t.z as int, 2_000_000, 8_000_000);
    }
    let u: Vec3Fp = crate::vec3::v3_cross(qv, t);
    Vec3Fp {
        x: v.x + fp_mul(q.w, t.x) + u.x,
        y: v.y + fp_mul(q.w, t.y) + u.y,
        z: v.z + fp_mul(q.w, t.z) + u.z,
    }
}

/// The local forward axis (toward negative z).
pub fn quat_forward(q: QuatFp) -> (r: Vec3Fp)
    requires
        quat_wf_s(q, QUAT_LIMIT as int),
    ensures
        r == quat_forward_s(q),
        crate::vec3::v3_wf_s(r, 50_000_000),
{
    quat_rotate(q, Vec3Fp { x: 0, y: 0, z: -FP_ONE })
}

/// The local up axis.
pub fn quat_up(q: QuatFp) -> (r: Vec3Fp)
    requires
        quat_wf_s(q, QUAT_LIMIT as int),
    ensures
        r == quat_up_s(q),
        crate::vec3::v3_wf_s(r, 50_000_000),
{
    quat_rotate(q, Vec3Fp { x: 0, y: FP_ONE, z: 0 })
}

/// The local right axis.
pub fn quat_right(q: QuatFp) -> (r: Vec3Fp)
    requires
        quat_wf_s(q, QUAT_LIMIT as int),
    ensures
        r == quat_right_s(q),
        crate::vec3::v3_wf_s(r, 50_000_000),
{
    quat_rotate(q, Vec3Fp { x: FP_ONE, y: 0, z: 0 })
}

} // verus!
