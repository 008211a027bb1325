use flycam::camera::CustomCamera;
use flycam::vec3::Vec3Fp;

const ONE: i64 = 1_000_000;

fn fp(v: f64) -> i64 {
    (v * 1_000_000.0).round() as i64
}

fn to_f(v: i64) -> f64 {
    v as f64 / 1_000_000.0
}

fn test_camera() -> CustomCamera {
    CustomCamera {
        position: Vec3Fp { x: 0, y: 0, z: 3 * ONE },
        yaw: fp((-90.0f64).to_radians()),
        pitch: 0,
        up: Vec3Fp { x: 0, y: ONE, z: 0 },
        fov: 45 * ONE,
        aspect_ratio: fp(800.0 / 600.0),
        near: fp(0.1),
        far: 100 * ONE,
    }
}

fn trig(angle_urad: i64) -> (i64, i64) {
    let a = to_f(angle_urad);
    (fp(a.sin()), fp(a.cos()))
}

#[test]
fn direction_is_unit_length_across_angles() {
    let cam = test_camera();
    let steps = 50;
    for i in 0..=steps {
        for j in 0..=steps {
            let yaw = -std::f64::consts::PI + 2.0 * std::f64::consts::PI * (i as f64)
                / (steps as f64);
            let pitch = -std::f64::consts::PI + 2.0 * std::f64::consts::PI * (j as f64)
                / (steps as f64);
            let (sy, cy) = (fp(yaw.sin()), fp(yaw.cos()));
            let (sp, cp) = (fp(pitch.sin()), fp(pitch.cos()));
            let d = cam.get_direction(sy, cy, sp, cp);
            let norm = (to_f(d.x).powi(2) + to_f(d.y).powi(2) + to_f(d.z).powi(2)).sqrt();
            assert!(
                (norm - 1.0).abs() < 1e-5,
                "direction not unit at yaw {yaw} pitch {pitch}: norm {norm}"
            );
        }
    }
}

#[test]
fn direction_looks_down_negative_z_at_standard_start() {
    let cam = test_camera();
    let (sy, cy) = trig(cam.yaw);
    let (sp, cp) = trig(cam.pitch);
    let d = cam.get_direction(sy, cy, sp, cp);
    assert_eq!(d.x, 0);
    assert_eq!(d.y, 0);
    assert_eq!(d.z, -ONE);
}

#[test]
fn right_points_east_at_standard_start() {
    let cam = test_camera();
    let (sy, cy) = trig(cam.yaw);
    let (sp, cp) = trig(cam.pitch);
    let r = cam.right(sy, cy, sp, cp).expect("right vector exists");
    assert_eq!(r.x, ONE);
    assert_eq!(r.y, 0);
    assert_eq!(r.z, 0);
}

#[test]
fn right_degenerates_looking_straight_up() {
    let mut cam = test_camera();
    cam.yaw = 0;
    cam.pitch = fp(90.0f64.to_radians());
    let (sy, cy) = trig(cam.yaw);
    let (sp, cp) = trig(cam.pitch);
    assert!(cam.right(sy, cy, sp, cp).is_none());
}

#[test]
fn rotate_adds_deltas() {
    let mut cam = test_camera();
    let yaw0 = cam.yaw;
    let pitch0 = cam.pitch;
    cam.rotate(123_456, -654_321);
    assert_eq!(cam.yaw, yaw0 + 123_456);
    assert_eq!(cam.pitch, pitch0 - 654_321);
}

#[test]
fn rotate_zero_is_identity() {
    let mut cam = test_camera();
    let before = cam.clone();
    cam.rotate(0, 0);
    assert_eq!(cam, before);
}

#[test]
fn translate_adds_delta() {
    let mut cam = test_camera();
    cam.translate(Vec3Fp { x: ONE, y: -2 * ONE, z: 500_000 });
    assert_eq!(cam.position, Vec3Fp { x: ONE, y: -2 * ONE, z: 3 * ONE + 500_000 });
}

#[test]
fn translate_zero_is_identity() {
    let mut cam = test_camera();
    let before = cam.clone();
    cam.translate(Vec3Fp { x: 0, y: 0, z: 0 });
    assert_eq!(cam, before);
}

#[test]
fn zoom_clamps_to_range_from_above_and_below() {
    let mut cam = test_camera();
    assert_eq!(cam.fov, 45 * ONE);
    cam.zoom(1000 * ONE);
    assert_eq!(cam.fov, ONE);
    cam.zoom(-1000 * ONE);
    assert_eq!(cam.fov, 45 * ONE);
}

#[test]
fn zoom_moves_fov_inside_range() {
    let mut cam = test_camera();
    cam.zoom(2 * ONE);
    assert_eq!(cam.fov, 43 * ONE);
    cam.zoom(-ONE);
    assert_eq!(cam.fov, 44 * ONE);
}

#[test]
fn zoom_never_leaves_range_under_repeated_extremes() {
    let mut cam = test_camera();
    let amounts = [
        i64::MAX,
        i64::MIN,
        1,
        -1,
        999_999_999_999,
        -999_999_999_999,
        0,
        7,
    ];
    for (k, &a) in amounts.iter().cycle().take(64).enumerate() {
        cam.zoom(a);
        assert!(
            ONE <= cam.fov && cam.fov <= 45 * ONE,
            "fov escaped at step {k}: {}",
            cam.fov
        );
    }
}

#[test]
fn apply_movement_no_keys_leaves_position() {
    let mut cam = test_camera();
    let before = cam.clone();
    let (sy, cy) = trig(cam.yaw);
    let (sp, cp) = trig(cam.pitch);
    cam.apply_movement(false, false, false, false, fp(2.5), fp(0.016), sy, cy, sp, cp);
    assert_eq!(cam, before);
}

#[test]
fn apply_movement_forward_walks_along_direction() {
    let mut cam = test_camera();
    let (sy, cy) = trig(cam.yaw);
    let (sp, cp) = trig(cam.pitch);
    // Looking down -z, one frame forward at 2.5 units/s for 16 ms.
    cam.apply_movement(true, false, false, false, fp(2.5), fp(0.016), sy, cy, sp, cp);
    assert_eq!(cam.position.x, 0);
    assert_eq!(cam.position.y, 0);
    let moved = to_f(3 * ONE - cam.position.z);
    assert!((moved - 0.04).abs() < 1e-5, "moved {moved}");
}

#[test]
fn apply_movement_opposite_keys_cancel() {
    let mut cam = test_camera();
    let before = cam.clone();
    let (sy, cy) = trig(cam.yaw);
    let (sp, cp) = trig(cam.pitch);
    cam.apply_movement(true, true, true, true, fp(2.5), fp(0.016), sy, cy, sp, cp);
    assert_eq!(cam, before);
}

#[test]
fn default_camera_is_zeroed() {
    let cam = CustomCamera::default();
    assert_eq!(cam.position, Vec3Fp { x: 0, y: 0, z: 0 });
    assert_eq!(cam.yaw, 0);
    assert_eq!(cam.pitch, 0);
    assert_eq!(cam.fov, 0);
    assert_eq!(cam.aspect_ratio, 0);
    assert_eq!(cam.near, 0);
    assert_eq!(cam.far, 0);
}
