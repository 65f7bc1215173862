use spacesim::camera::{follow_camera, initial_camera};
use spacesim::flight::initial_ship;
use spacesim::vec3::Vec3Fp;

#[test]
fn camera_follows_from_behind_and_above() {
    // Ship at the origin facing negative z with up along y: the camera must
    // stand 25 units behind and 10 above, and look toward (0, 5, 0).
    let ship = initial_ship();
    let mut cam = initial_camera();
    follow_camera(&mut cam, &ship);
    assert_eq!(cam.position, Vec3Fp { x: 0, y: 10_000_000, z: 25_000_000 });
    assert_eq!(cam.forward.x, 0);
    assert!(cam.forward.y < 0);
    assert!(cam.forward.z < 0);
    // The view direction is proportional to (0, -5, -25).
    assert!((5 * cam.forward.y - cam.forward.z).abs() <= 10);
    // The basis is near unit length.
    let f = cam.forward;
    let norm_sq = (f.x as i128) * (f.x as i128) + (f.y as i128) * (f.y as i128)
        + (f.z as i128) * (f.z as i128);
    let unit: i128 = 1_000_000_000_000;
    assert!((norm_sq - unit).abs() < unit / 100);
    // World-up reference: the right axis stays level.
    assert_eq!(cam.right.y, 0);
    assert!(cam.up.y > 0);
}

#[test]
fn camera_update_is_a_pure_function_of_the_ship() {
    let mut ship = initial_ship();
    ship.position = Vec3Fp { x: 5_000_000, y: -2_000_000, z: 9_000_000 };
    let mut cam_a = initial_camera();
    let mut cam_b = initial_camera();
    follow_camera(&mut cam_a, &ship);
    follow_camera(&mut cam_b, &ship);
    assert_eq!(cam_a.position, cam_b.position);
    assert_eq!(cam_a.forward, cam_b.forward);
    assert_eq!(cam_a.right, cam_b.right);
    assert_eq!(cam_a.up, cam_b.up);
    // A second tick from the same ship pose changes nothing: the camera
    // carries no state of its own.
    let first = cam_a;
    follow_camera(&mut cam_a, &ship);
    assert_eq!(cam_a.position, first.position);
    assert_eq!(cam_a.forward, first.forward);
}

#[test]
fn initial_camera_looks_down_negative_z() {
    let cam = initial_camera();
    assert_eq!(cam.position, Vec3Fp { x: 0, y: 0, z: 100_000_000 });
    assert_eq!(cam.forward, Vec3Fp { x: 0, y: 0, z: -1_000_000 });
    assert_eq!(cam.up, Vec3Fp { x: 0, y: 1_000_000, z: 0 });
}
