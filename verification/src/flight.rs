//! The flight controller: per-tick ship dynamics.
//!
//! Each tick applies, in this order: thrust along the local forward axis
//! (boosted if the modifier is held), reverse thrust, position integration
//! with the velocity before drag, multiplicative drag, roll about the local
//! forward axis, and mouse-look (yaw about local up, pitch about local
//! right) with a dead zone and a jitter threshold.  The order is part of the
//! contract, so a replayed input sequence reproduces the flight exactly.

use crate::fixed::{fp_mul, fp_mul_s, lemma_fp_mul_bound, FP_LIMIT};
use crate::quat::{
    lemma_quat_mul_bound, quat_forward, quat_forward_s, quat_mul, quat_mul_s, quat_wf_s, rot_x,
    rot_x_s, rot_y, rot_y_s, rot_z, rot_z_s, QuatFp, QUAT_LIMIT,
};
use crate::vec3::{
    lemma_scale_bound, v3_add, v3_add_s, v3_scale, v3_scale_s, v3_scale_small, v3_sub, v3_sub_s,
    v3_wf_s, Vec3Fp,
};
use vstd::prelude::*;

verus! {

/// Forward acceleration, in units per second squared.
pub const THRUST_ACCEL: i64 = 1_000_000_000;

/// Forward acceleration while the boost modifier is held.
pub const BOOST_ACCEL: i64 = 40_000_000_000;

/// The multiplicative per-tick velocity decay factor, in `(0, 1)`.
pub const DRAG_FRICTION: i64 = 990_000;

/// Roll rate, in radians per second.
pub const ROLL_SPEED: i64 = 1_500_000;

/// Mouse-look sensitivity, in radians per pixel per second.
pub const MOUSE_SENSITIVITY: i64 = 1_000;

/// Cursor offsets closer to the window center than this (in micro-pixels)
/// are ignored entirely.
pub const MOUSE_DEADZONE: i64 = 30_000_000;

/// Yaw or pitch below this angle is dropped, to avoid sub-pixel jitter.
pub const LOOK_EPS: i64 = 100;

/// The longest tick the controller accepts: two seconds.
pub const DT_LIMIT: i64 = 2_000_000;

/// The largest cursor offset magnitude the controller accepts, per axis.
pub const CURSOR_LIMIT: i64 = 2_000_000_000;

/// The cursor's offset from the window center, in micro-pixels.
#[derive(Clone, Copy, PartialEq, Eq, Structural, Debug)]
pub struct MouseOffset {
    pub x: i64,
    pub y: i64,
}

/// Everything the controller reads for one tick.  A missing cursor (no
/// focused surface) skips mouse-look only.
#[derive(Clone, Copy, Debug)]
pub struct InputState {
    pub thrust_forward: bool,
    pub boost: bool,
    pub thrust_reverse: bool,
    pub roll_left: bool,
    pub roll_right: bool,
    pub cursor: Option<MouseOffset>,
}

/// The ship: position, velocity (units per second), and orientation.
#[derive(Clone, Copy, Debug)]
pub struct ShipState {
    pub position: Vec3Fp,
    pub velocity: Vec3Fp,
    pub orientation: QuatFp,
}

/// The state bounds under which one tick is defined: position and velocity
/// within the arithmetic range, orientation near unit scale.
pub open spec fn ship_wf_s(s: ShipState) -> bool {
    v3_wf_s(s.position, FP_LIMIT as int) && v3_wf_s(s.velocity, FP_LIMIT as int) && quat_wf_s(
        s.orientation,
        QUAT_LIMIT as int,
    )
}

/// An input all of whose parts the controller accepts.
pub open spec fn input_wf_s(inp: InputState) -> bool {
    match inp.cursor {
        Some(o) => -CURSOR_LIMIT <= o.x <= CURSOR_LIMIT && -CURSOR_LIMIT <= o.y <= CURSOR_LIMIT,
        None => true,
    }
}

/// The velocity after thrust, before integration and drag.
pub open spec fn thrust_vel_s(s: ShipState, inp: InputState, dt: int) -> Vec3Fp {
    let fwd = quat_forward_s(s.orientation);
    let v1 = if inp.thrust_forward {
        let accel = if inp.boost {
            BOOST_ACCEL as int
        } else {
            THRUST_ACCEL as int
        };
        v3_add_s(s.velocity, v3_scale_s(fwd, fp_mul_s(accel, dt)))
    } else {
        s.velocity
    };
    if inp.thrust_reverse {
        v3_sub_s(v1, v3_scale_s(fwd, fp_mul_s(THRUST_ACCEL as int, dt)))
    } else {
        v1
    }
}

/// The orientation after the roll keys.
pub open spec fn roll_ori_s(q: QuatFp, inp: InputState, dt: int) -> QuatFp {
    let angle = fp_mul_s(ROLL_SPEED as int, dt);
    let q1 = if inp.roll_left {
        quat_mul_s(q, rot_z_s(angle))
    } else {
        q
    };
    if inp.roll_right {
        quat_mul_s(q1, rot_z_s(-angle))
    } else {
        q1
    }
}

/// The orientation after mouse-look.  An offset inside the dead zone, or a
/// missing cursor, leaves the orientation untouched; so does an axis whose
/// angle falls below the jitter threshold.
pub open spec fn mouse_ori_s(q: QuatFp, cursor: Option<MouseOffset>, dt: int) -> QuatFp {
    match cursor {
        None => q,
        Some(o) => {
            if (o.x as int) * (o.x as int) + (o.y as int) * (o.y as int) < (MOUSE_DEADZONE as int)
                * (MOUSE_DEADZONE as int) {
                q
            } else {
                let yaw = fp_mul_s(fp_mul_s(-(o.x as int), MOUSE_SENSITIVITY as int), dt);
                let pitch = fp_mul_s(fp_mul_s(-(o.y as int), MOUSE_SENSITIVITY as int), dt);
                let q1 = if yaw > LOOK_EPS || yaw < -LOOK_EPS {
                    quat_mul_s(q, rot_y_s(yaw))
                } else {
                    q
                };
                if pitch > LOOK_EPS || pitch < -LOOK_EPS {
                    quat_mul_s(q1, rot_x_s(pitch))
                } else {
                    q1
                }
            }
        }
    }
}

/// One tick of the flight controller: thrust, integrate, drag, roll,
/// mouse-look, in that order.
pub open spec fn flight_step_s(s: ShipState, inp: InputState, dt: int) -> ShipState {
    let v2 = thrust_vel_s(s, inp, dt);
    let pos = v3_add_s(s.position, v3_scale_s(v2, dt));
    let v3 = v3_scale_s(v2, DRAG_FRICTION as int);
    let q1 = roll_ori_s(s.orientation, inp, dt);
    let q2 = mouse_ori_s(q1, inp.cursor, dt);
    ShipState { position: pos, velocity: v3, orientation: q2 }
}

/// The ship as it is spawned: at the origin, at rest, facing negative z.
pub fn initial_ship() -> (r: ShipState)
    ensures
        r.position == (Vec3Fp { x: 0, y: 0, z: 0 }),
        r.velocity == (Vec3Fp { x: 0, y: 0, z: 0 }),
        r.orientation == crate::quat::quat_identity_s(),
        ship_wf_s(r),
{
    ShipState {
        position: Vec3Fp { x: 0, y: 0, z: 0 },
        velocity: Vec3Fp { x: 0, y: 0, z: 0 },
        orientation: crate::quat::quat_identity(),
    }
}

/// One tick of the flight controller.
pub fn update_ship(ship: &mut ShipState, inp: &InputState, dt: i64)
    requires
        ship_wf_s(*old(ship)),
        input_wf_s(*inp),
        0 <= dt <= DT_LIMIT,
    ensures
        *final(ship) == flight_step_s(*old(ship), *inp, dt as int),
{
    let fwd: Vec3Fp = quat_forward(ship.orientation);
    let mut v2: Vec3Fp = ship.velocity;
    if inp.thrust_forward {
        let accel: i64 = if inp.boost {
            BOOST_ACCEL
        } else {
            THRUST_ACCEL
        };
        proof {
            lemma_fp_mul_bound(accel as int, dt as int, 40_000_000_000, 2_000_000);
        }
        let accel_dt: i64 = fp_mul(accel, dt);
        proof {
            lemma_scale_bound(fwd, accel_dt as int, 50_000_000, 80_000_000_000);
        }
        let dv: Vec3Fp = v3_scale(fwd, accel_dt);
        v2 = v3_add(v2, dv);
    }
    if inp.thrust_reverse {
        proof {
            lemma_fp_mul_bound(THRUST_ACCEL as int, dt as int, 1_000_000_000, 2_000_000);
        }
        let accel_dt: i64 = fp_mul(THRUST_ACCEL, dt);
        proof {
            lemma_scale_bound(fwd, accel_dt as int, 50_000_000, 2_000_000_000);
        }
        let dv: Vec3Fp = v3_scale(fwd, accel_dt);
        v2 = v3_sub(v2, dv);
    }
    proof {
        assert(v2 == thrust_vel_s(*old(ship), *inp, dt as int));
        assert(v3_wf_s(v2, 7_000_000_000_000));
        lemma_scale_bound(v2, dt as int, 7_000_000_000_000, 2_000_000);
    }
    let delta: Vec3Fp = v3_scale_small(v2, dt);
    ship.position = v3_add(ship.position, delta);
    ship.velocity = v3_scale_small(v2, DRAG_FRICTION);
    proof {
        lemma_fp_mul_bound(ROLL_SPEED as int, dt as int, 1_500_000, 2_000_000);
    }
    let roll_angle: i64 = fp_mul(ROLL_SPEED, dt);
    if inp.roll_left {
        let r: QuatFp = rot_z(roll_angle);
        proof {
            lemma_quat_mul_bound(ship.orientation, r, 2_000_000, 1_000_000);
        }
        ship.orientation = quat_mul(ship.orientation, r);
    }
    if inp.roll_right {
        let r: QuatFp = rot_z(-roll_angle);
        proof {
            lemma_quat_mul_bound(ship.orientation, r, 8_000_000, 1_000_000);
        }
        ship.orientation = quat_mul(ship.orientation, r);
    }
    proof {
        assert(ship.orientation == roll_ori_s(old(ship).orientation, *inp, dt as int));
        assert(quat_wf_s(ship.orientation, 32_000_000));
    }
    match inp.cursor {
        None => {}
        Some(o) => {
            proof {
                assert(0 <= (o.x as int) * (o.x as int) <= 4_000_000_000_000_000_000
                    && 0 <= (o.y as int) * (o.y as int) <= 4_000_000_000_000_000_000)
                    by (nonlinear_arith)
                    requires
                        -2_000_000_000 <= o.x <= 2_000_000_000,
                        -2_000_000_000 <= o.y <= 2_000_000_000,
                ;
            }
            let ox2: i128 = (o.x as i128) * (o.x as i128);
            let oy2: i128 = (o.y as i128) * (o.y as i128);
            if ox2 + oy2 >= 900_000_000_000_000 {
                proof {
                    lemma_fp_mul_bound(-(o.x as int), MOUSE_SENSITIVITY as int, 2_000_000_000, 1_000);
                    lemma_fp_mul_bound(-(o.y as int), MOUSE_SENSITIVITY as int, 2_000_000_000, 1_000);
                }
                let sx: i64 = fp_mul(-o.x, MOUSE_SENSITIVITY);
                let sy: i64 = fp_mul(-o.y, MOUSE_SENSITIVITY);
                proof {
                    lemma_fp_mul_bound(sx as int, dt as int, 2_000_000, 2_000_000);
                    lemma_fp_mul_bound(sy as int, dt as int, 2_000_000, 2_000_000);
                }
                let yaw: i64 = fp_mul(sx, dt);
                let pitch: i64 = fp_mul(sy, dt);
                if yaw > LOOK_EPS || yaw < -LOOK_EPS {
                    let r: QuatFp = rot_y(yaw);
                    proof {
                        lemma_quat_mul_bound(ship.orientation, r, 32_000_000, 1_000_000);
                    }
                    ship.orientation = quat_mul(ship.orientation, r);
                }
                if pitch > LOOK_EPS || pitch < -LOOK_EPS {
                    let r: QuatFp = rot_x(pitch);
                    proof {
                        lemma_quat_mul_bound(ship.orientation, r, 128_000_000, 1_000_000);
                    }
                    ship.orientation = quat_mul(ship.orientation, r);
                }
            }
        }
    }
}

/// Flight integration: with no input held, one tick moves the position by
/// the pre-tick velocity times `dt`, multiplies the velocity by the drag
/// factor, and leaves the orientation untouched.
pub proof fn lemma_coasting_tick(s: ShipState, inp: InputState, dt: int)
    requires
        !inp.thrust_forward,
        !inp.thrust_reverse,
        !inp.roll_left,
        !inp.roll_right,
        inp.cursor is None,
    ensures
        flight_step_s(s, inp, dt) == (ShipState {
            position: v3_add_s(s.position, v3_scale_s(s.velocity, dt)),
            velocity: v3_scale_s(s.velocity, DRAG_FRICTION as int),
            orientation: s.orientation,
        }),
{
}

/// Mouse-look dead zone: a cursor offset whose magnitude is below the
/// threshold produces an orientation identical to the pre-tick orientation,
/// as long as no roll key is held (rolling changes the orientation too).
pub proof fn lemma_deadzone_tick(s: ShipState, inp: InputState, dt: int, o: MouseOffset)
    requires
        !inp.roll_left,
        !inp.roll_right,
        inp.cursor == Some(o),
        (o.x as int) * (o.x as int) + (o.y as int) * (o.y as int) < (MOUSE_DEADZONE as int) * (
        MOUSE_DEADZONE as int),
    ensures
        flight_step_s(s, inp, dt).orientation == s.orientation,
{
}

} // verus!
