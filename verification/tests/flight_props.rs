use spacesim::flight::{initial_ship, update_ship, InputState, MouseOffset};
use spacesim::quat::QuatFp;
use spacesim::trig::{cos_fp, sin_fp};
use spacesim::vec3::Vec3Fp;

fn no_input() -> InputState {
    InputState {
        thrust_forward: false,
        boost: false,
        thrust_reverse: false,
        roll_left: false,
        roll_right: false,
        cursor: None,
    }
}

#[test]
fn coasting_integrates_and_drags() {
    let mut ship = initial_ship();
    ship.velocity = Vec3Fp { x: 3_000_000, y: 0, z: -2_000_000 };
    let before = ship.orientation;
    update_ship(&mut ship, &no_input(), 500_000);
    assert_eq!(ship.position, Vec3Fp { x: 1_500_000, y: 0, z: -1_000_000 });
    assert_eq!(ship.velocity, Vec3Fp { x: 2_970_000, y: 0, z: -1_980_000 });
    assert_eq!(ship.orientation, before);
}

#[test]
fn deadzone_offset_leaves_orientation_untouched() {
    let mut ship = initial_ship();
    ship.velocity = Vec3Fp { x: 1_000_000, y: 0, z: 0 };
    let before = ship.orientation;
    let mut inp = no_input();
    inp.cursor = Some(MouseOffset { x: 20_000_000, y: 15_000_000 });
    update_ship(&mut ship, &inp, 1_000_000);
    assert_eq!(ship.orientation, before);
}

#[test]
fn offset_past_deadzone_turns_the_ship() {
    let mut ship = initial_ship();
    let before = ship.orientation;
    let mut inp = no_input();
    inp.cursor = Some(MouseOffset { x: 40_000_000, y: 0 });
    update_ship(&mut ship, &inp, 1_000_000);
    assert_ne!(ship.orientation, before);
    assert!(ship.orientation.y < 0);
    assert!(ship.orientation.w > 990_000);
    assert_eq!(ship.orientation.x, 0);
    assert_eq!(ship.orientation.z, 0);
}

#[test]
fn boost_tick_reaches_full_boost_speed() {
    let mut ship = initial_ship();
    let mut inp = no_input();
    inp.thrust_forward = true;
    inp.boost = true;
    update_ship(&mut ship, &inp, 1_000_000);
    // One second of boost from rest: 40_000 units of speed before drag, so
    // the integrated position moves exactly that far along forward.
    assert_eq!(ship.position, Vec3Fp { x: 0, y: 0, z: -40_000_000_000 });
    assert_eq!(ship.velocity, Vec3Fp { x: 0, y: 0, z: -39_600_000_000 });
}

#[test]
fn plain_thrust_uses_base_acceleration() {
    let mut ship = initial_ship();
    let mut inp = no_input();
    inp.thrust_forward = true;
    update_ship(&mut ship, &inp, 1_000_000);
    assert_eq!(ship.position, Vec3Fp { x: 0, y: 0, z: -1_000_000_000 });
    assert_eq!(ship.velocity, Vec3Fp { x: 0, y: 0, z: -990_000_000 });
}

#[test]
fn reverse_thrust_pushes_backward() {
    let mut ship = initial_ship();
    let mut inp = no_input();
    inp.thrust_reverse = true;
    update_ship(&mut ship, &inp, 1_000_000);
    assert_eq!(ship.position, Vec3Fp { x: 0, y: 0, z: 1_000_000_000 });
    assert_eq!(ship.velocity, Vec3Fp { x: 0, y: 0, z: 990_000_000 });
}

#[test]
fn roll_left_spins_about_forward() {
    let mut ship = initial_ship();
    let mut inp = no_input();
    inp.roll_left = true;
    update_ship(&mut ship, &inp, 1_000_000);
    let q = ship.orientation;
    assert_eq!(q.x, 0);
    assert_eq!(q.y, 0);
    assert!(q.z > 0);
    assert!(q.w > 0);
    let norm_sq = (q.w as i128) * (q.w as i128) + (q.z as i128) * (q.z as i128);
    let unit: i128 = 1_000_000_000_000;
    assert!((norm_sq - unit).abs() < unit / 100);
    let mut opposite = initial_ship();
    let mut inp_r = no_input();
    inp_r.roll_right = true;
    update_ship(&mut opposite, &inp_r, 1_000_000);
    assert_eq!(opposite.orientation.z, -q.z);
    assert_eq!(opposite.orientation.w, q.w);
}

#[test]
fn both_rolls_cancel_to_near_identity() {
    let mut ship = initial_ship();
    let mut inp = no_input();
    inp.roll_left = true;
    inp.roll_right = true;
    update_ship(&mut ship, &inp, 1_000_000);
    let q = ship.orientation;
    assert!((q.w - 1_000_000).abs() < 2_000);
    assert!(q.z.abs() < 2_000);
}

#[test]
fn initial_ship_is_at_rest_at_origin() {
    let ship = initial_ship();
    assert_eq!(ship.position, Vec3Fp { x: 0, y: 0, z: 0 });
    assert_eq!(ship.velocity, Vec3Fp { x: 0, y: 0, z: 0 });
    assert_eq!(ship.orientation, QuatFp { w: 1_000_000, x: 0, y: 0, z: 0 });
}

#[test]
fn trig_exact_values_at_one_radian() {
    assert_eq!(sin_fp(1_000_000), 841_471);
    assert_eq!(cos_fp(1_000_000), 540_302);
    assert_eq!(sin_fp(0), 0);
    assert_eq!(cos_fp(0), 1_000_000);
    assert_eq!(sin_fp(-1_000_000), -841_471);
}

#[test]
fn orientation_axes_start_aligned_with_the_world() {
    let ship = initial_ship();
    let q = ship.orientation;
    assert_eq!(spacesim::quat::quat_forward(q), Vec3Fp { x: 0, y: 0, z: -1_000_000 });
    assert_eq!(spacesim::quat::quat_up(q), Vec3Fp { x: 0, y: 1_000_000, z: 0 });
    assert_eq!(spacesim::quat::quat_right(q), Vec3Fp { x: 1_000_000, y: 0, z: 0 });
}

#[test]
fn rolling_tilts_the_up_axis() {
    let mut ship = initial_ship();
    let mut inp = no_input();
    inp.roll_left = true;
    update_ship(&mut ship, &inp, 1_000_000);
    let up = spacesim::quat::quat_up(ship.orientation);
    // Rolling left tips the local up axis toward negative x while the ship
    // still faces down negative z.
    assert!(up.x < 0);
    assert!(up.y > 0);
    let fwd = spacesim::quat::quat_forward(ship.orientation);
    assert_eq!(fwd.x, 0);
    assert_eq!(fwd.y, 0);
    assert!(fwd.z < 0);
}
