//! The chase camera: a pose recomputed every tick from the ship's pose.
//!
//! The camera stands behind the ship along its forward axis and above it
//! along its up axis, and orients itself to look a little above the ship
//! with world up as the reference.  It carries no state of its own between
//! ticks; only a degenerate view direction (zero, or parallel to world up)
//! keeps the previous orientation basis.

use crate::fixed::{FP_LIMIT, FP_ONE};
use crate::flight::ShipState;
use crate::quat::{quat_forward, quat_forward_s, quat_up, quat_up_s, quat_wf_s, QUAT_LIMIT};
use crate::vec3::{
    lemma_cross_bound, lemma_scale_bound, v3_add, v3_add_s, v3_cross, v3_cross_s, v3_norm_raw_s,
    v3_normalize, v3_normalize_s, v3_scale, v3_scale_s, v3_sub, v3_sub_s, v3_wf_s, Vec3Fp,
};
use vstd::prelude::*;

verus! {

/// How far behind the ship the camera trails, in units.
pub const FOLLOW_DISTANCE: i64 = 25_000_000;

/// How far above the ship the camera rides, in units.
pub const FOLLOW_HEIGHT: i64 = 10_000_000;

/// How far above the ship the camera aims, in units.
pub const LOOK_Y_OFFSET: i64 = 5_000_000;

/// The largest ship position magnitude the camera step accepts, per axis.
pub const CAMERA_POS_LIMIT: i64 = 900_000_000_000;

/// The camera's pose: a position and an orthonormal-by-construction basis.
#[derive(Clone, Copy, Debug)]
pub struct CameraPose {
    pub position: Vec3Fp,
    pub forward: Vec3Fp,
    pub right: Vec3Fp,
    pub up: Vec3Fp,
}

/// Where the camera stands: behind the ship along its forward axis and
/// above it along its up axis.
pub open spec fn follow_position_s(ship: ShipState) -> Vec3Fp {
    let fwd = quat_forward_s(ship.orientation);
    let up = quat_up_s(ship.orientation);
    v3_add_s(
        v3_sub_s(ship.position, v3_scale_s(fwd, FOLLOW_DISTANCE as int)),
        v3_scale_s(up, FOLLOW_HEIGHT as int),
    )
}

/// The point the camera looks toward: a little above the ship.
pub open spec fn look_target_s(ship: ShipState) -> Vec3Fp {
    v3_add_s(ship.position, Vec3Fp { x: 0, y: LOOK_Y_OFFSET, z: 0 })
}

/// The chase camera after one tick: the position is recomputed, and the
/// basis looks at the target with world up as reference.  A degenerate view
/// direction keeps the previous basis.
pub open spec fn chase_camera_s(cam: CameraPose, ship: ShipState) -> CameraPose {
    let pos = follow_position_s(ship);
    let dir = v3_sub_s(look_target_s(ship), pos);
    if v3_norm_raw_s(dir) == 0 {
        CameraPose { position: pos, forward: cam.forward, right: cam.right, up: cam.up }
    } else {
        let f = v3_normalize_s(dir);
        let side = v3_cross_s(f, Vec3Fp { x: 0, y: 1_000_000i64, z: 0 });
        if v3_norm_raw_s(side) == 0 {
            CameraPose { position: pos, forward: cam.forward, right: cam.right, up: cam.up }
        } else {
            let r = v3_normalize_s(side);
            let u = v3_cross_s(r, f);
            CameraPose { position: pos, forward: f, right: r, up: u }
        }
    }
}

/// A vector is zero exactly when its raw squared length is zero.
proof fn lemma_zero_norm(v: Vec3Fp)
    ensures
        v3_norm_raw_s(v) == 0 <==> v.x == 0 && v.y == 0 && v.z == 0,
{
    assert((v.x as int) * (v.x as int) + (v.y as int) * (v.y as int) + (v.z as int) * (v.z as int)
        == 0 <==> v.x == 0 && v.y == 0 && v.z == 0) by (nonlinear_arith);
}

/// The camera as it is spawned: on the positive z axis, looking at the
/// origin along negative z.
pub fn initial_camera() -> (r: CameraPose)
    ensures
        r.position == (Vec3Fp { x: 0, y: 0, z: 100_000_000 }),
        r.forward == (Vec3Fp { x: 0, y: 0, z: -1_000_000i64 }),
        r.right == (Vec3Fp { x: -1_000_000i64, y: 0, z: 0 }),
        r.up == (Vec3Fp { x: 0, y: FP_ONE, z: 0 }),
{
    CameraPose {
        position: Vec3Fp { x: 0, y: 0, z: 100_000_000 },
        forward: Vec3Fp { x: 0, y: 0, z: -FP_ONE },
        right: Vec3Fp { x: -FP_ONE, y: 0, z: 0 },
        up: Vec3Fp { x: 0, y: FP_ONE, z: 0 },
    }
}

/// One tick of the chase camera.
pub fn follow_camera(cam: &mut CameraPose, ship: &ShipState)
    requires
        quat_wf_s(ship.orientation, QUAT_LIMIT as int),
        v3_wf_s(ship.position, CAMERA_POS_LIMIT as int),
    ensures
        *final(cam) == chase_camera_s(*old(cam), *ship),
{
    let fwd: Vec3Fp = quat_forward(ship.orientation);
    let up: Vec3Fp = quat_up(ship.orientation);
    proof {
        lemma_scale_bound(fwd, FOLLOW_DISTANCE as int, 50_000_000, 25_000_000);
        lemma_scale_bound(up, FOLLOW_HEIGHT as int, 50_000_000, 10_000_000);
    }
    let back: Vec3Fp = v3_scale(fwd, FOLLOW_DISTANCE);
    let lift: Vec3Fp = v3_scale(up, FOLLOW_HEIGHT);
    let pos: Vec3Fp = v3_add(v3_sub(ship.position, back), lift);
    let target: Vec3Fp = v3_add(
        ship.position,
        Vec3Fp { x: 0, y: LOOK_Y_OFFSET, z: 0 },
    );
    let dir: Vec3Fp = v3_sub(target, pos);
    proof {
        lemma_zero_norm(dir);
        crate::vec3::lemma_norm_raw_bound(dir, FP_LIMIT as int);
    }
    cam.position = pos;
    if dir.x == 0 && dir.y == 0 && dir.z == 0 {
        return ;
    }
    let f: Vec3Fp = v3_normalize(dir);
    let side: Vec3Fp = v3_cross(f, Vec3Fp { x: 0, y: FP_ONE, z: 0 });
    proof {
        lemma_zero_norm(side);
        lemma_cross_bound(f, Vec3Fp { x: 0, y: FP_ONE, z: 0 }, 1_000_000, 1_000_000);
        crate::vec3::lemma_norm_raw_bound(side, FP_LIMIT as int);
    }
    if side.x == 0 && side.y == 0 && side.z == 0 {
        return ;
    }
    let r: Vec3Fp = v3_normalize(side);
    let u: Vec3Fp = v3_cross(r, f);
    cam.forward = f;
    cam.right = r;
    cam.up = u;
}

} // verus!
