use flycam::camera::CustomCamera;
use flycam::mat4::{instance_model_matrix, look_at_rh, perspective_rh, Mat4Fp};
use flycam::vec3::Vec3Fp;

const ONE: i64 = 1_000_000;

fn fp(v: f64) -> i64 {
    (v * 1_000_000.0).round() as i64
}

fn to_f(v: i64) -> f64 {
    v as f64 / 1_000_000.0
}

fn test_camera() -> CustomCamera {
    CustomCamera {
        position: Vec3Fp { x: 0, y: 0, z: 3 * ONE },
        yaw: fp((-90.0f64).to_radians()),
        pitch: 0,
        up: Vec3Fp { x: 0, y: ONE, z: 0 },
        fov: 45 * ONE,
        aspect_ratio: fp(800.0 / 600.0),
        near: fp(0.1),
        far: 100 * ONE,
    }
}

fn columns(m: &Mat4Fp) -> [[i64; 4]; 4] {
    [
        [m.x_axis.x, m.x_axis.y, m.x_axis.z, m.x_axis.w],
        [m.y_axis.x, m.y_axis.y, m.y_axis.z, m.y_axis.w],
        [m.z_axis.x, m.z_axis.y, m.z_axis.z, m.z_axis.w],
        [m.w_axis.x, m.w_axis.y, m.w_axis.z, m.w_axis.w],
    ]
}

/// Reference right-handed look-at, computed independently in f64: the
/// textbook construction with normalized forward and side vectors.
fn look_at_reference(eye: [f64; 3], center: [f64; 3], up: [f64; 3]) -> [[f64; 4]; 4] {
    fn sub(a: [f64; 3], b: [f64; 3]) -> [f64; 3] {
        [a[0] - b[0], a[1] - b[1], a[2] - b[2]]
    }
    fn cross(a: [f64; 3], b: [f64; 3]) -> [f64; 3] {
        [
            a[1] * b[2] - a[2] * b[1],
            a[2] * b[0] - a[0] * b[2],
            a[0] * b[1] - a[1] * b[0],
        ]
    }
    fn dot(a: [f64; 3], b: [f64; 3]) -> f64 {
        a[0] * b[0] + a[1] * b[1] + a[2] * b[2]
    }
    fn norm(a: [f64; 3]) -> [f64; 3] {
        let l = dot(a, a).sqrt();
        [a[0] / l, a[1] / l, a[2] / l]
    }
    let f = norm(sub(center, eye));
    let s = norm(cross(f, up));
    let u = cross(s, f);
    [
        [s[0], u[0], -f[0], 0.0],
        [s[1], u[1], -f[1], 0.0],
        [s[2], u[2], -f[2], 0.0],
        [-dot(eye, s), -dot(eye, u), dot(eye, f), 1.0],
    ]
}

#[test]
fn view_matrix_matches_reference_at_standard_start() {
    let cam = test_camera();
    let yaw = to_f(cam.yaw);
    let (sy, cy) = (fp(yaw.sin()), fp(yaw.cos()));
    let (sp, cp) = (fp(0.0), fp(1.0));
    let m = cam.get_view(sy, cy, sp, cp).expect("view frame is well defined");

    // The camera looks down -z, so the view matrix is exact in fixed point.
    assert_eq!(columns(&m)[0], [ONE, 0, 0, 0]);
    assert_eq!(columns(&m)[1], [0, ONE, 0, 0]);
    assert_eq!(columns(&m)[2], [0, 0, ONE, 0]);
    assert_eq!(columns(&m)[3], [0, 0, -3 * ONE, ONE]);

    // And it agrees with an independently computed look-at matrix.
    let reference = look_at_reference([0.0, 0.0, 3.0], [0.0, 0.0, 2.0], [0.0, 1.0, 0.0]);
    let got = columns(&m);
    for c in 0..4 {
        for r in 0..4 {
            assert!(
                (to_f(got[c][r]) - reference[c][r]).abs() < 1e-5,
                "entry ({c},{r}): {} vs {}",
                to_f(got[c][r]),
                reference[c][r]
            );
        }
    }
}

#[test]
fn view_matrix_matches_reference_at_oblique_angles() {
    let mut cam = test_camera();
    cam.position = Vec3Fp { x: fp(1.25), y: fp(-0.5), z: fp(2.0) };
    cam.yaw = fp((-60.0f64).to_radians());
    cam.pitch = fp(20.0f64.to_radians());
    let yaw = to_f(cam.yaw);
    let pitch = to_f(cam.pitch);
    let (sy, cy) = (fp(yaw.sin()), fp(yaw.cos()));
    let (sp, cp) = (fp(pitch.sin()), fp(pitch.cos()));
    let m = cam.get_view(sy, cy, sp, cp).expect("view frame is well defined");

    let dir = [yaw.cos() * pitch.cos(), pitch.sin(), yaw.sin() * pitch.cos()];
    let eye = [1.25, -0.5, 2.0];
    let center = [eye[0] + dir[0], eye[1] + dir[1], eye[2] + dir[2]];
    let reference = look_at_reference(eye, center, [0.0, 1.0, 0.0]);
    let got = columns(&m);
    for c in 0..4 {
        for r in 0..4 {
            assert!(
                (to_f(got[c][r]) - reference[c][r]).abs() < 1e-4,
                "entry ({c},{r}): {} vs {}",
                to_f(got[c][r]),
                reference[c][r]
            );
        }
    }
}

#[test]
fn view_matrix_none_when_up_parallel_to_direction() {
    let mut cam = test_camera();
    cam.yaw = 0;
    cam.pitch = fp(90.0f64.to_radians());
    let (sy, cy) = (fp(0.0), fp(1.0));
    let (sp, cp) = (fp(1.0), fp(0.0));
    assert!(cam.get_view(sy, cy, sp, cp).is_none());
}

#[test]
fn look_at_none_when_center_equals_eye() {
    let eye = Vec3Fp { x: ONE, y: 2 * ONE, z: 3 * ONE };
    let up = Vec3Fp { x: 0, y: ONE, z: 0 };
    assert!(look_at_rh(eye, eye, up).is_none());
}

#[test]
fn projection_matches_reference() {
    let cam = test_camera();
    let tan_half = fp((45.0f64.to_radians() / 2.0).tan());
    let m = cam.get_proj(tan_half);

    // Exact fixed-point expectations: truncating divisions.
    let h = 1_000_000_000_000i64 / tan_half;
    assert_eq!(m.y_axis.y, h);
    assert_eq!(
        m.x_axis.x,
        ((h as i128) * 1_000_000 / (cam.aspect_ratio as i128)) as i64
    );
    assert_eq!(m.z_axis.z, -1_001_001);
    assert_eq!(m.z_axis.w, -ONE);
    assert_eq!(m.w_axis.z, -100_100);
    assert_eq!(m.w_axis.w, 0);

    // Against the standard right-handed perspective formula in f64.
    let f = 1.0 / (45.0f64.to_radians() / 2.0).tan();
    let aspect = 800.0 / 600.0;
    let (near, far) = (0.1, 100.0);
    let r = far / (near - far);
    let reference: [[f64; 4]; 4] = [
        [f / aspect, 0.0, 0.0, 0.0],
        [0.0, f, 0.0, 0.0],
        [0.0, 0.0, r, -1.0],
        [0.0, 0.0, r * near, 0.0],
    ];
    let got = columns(&m);
    for c in 0..4 {
        for r in 0..4 {
            assert!(
                (to_f(got[c][r]) - reference[c][r]).abs() < 1e-5,
                "entry ({c},{r}): {} vs {}",
                to_f(got[c][r]),
                reference[c][r]
            );
        }
    }
}

#[test]
fn instance_model_matrix_matches_reference() {
    let ry = 40.0f64.to_radians();
    let rx = 20.0f64.to_radians();
    let m = instance_model_matrix(
        Vec3Fp { x: fp(2.0), y: fp(5.0), z: fp(-15.0) },
        fp(ry.sin()),
        fp(ry.cos()),
        fp(rx.sin()),
        fp(rx.cos()),
    );
    let (sy, cy) = (ry.sin(), ry.cos());
    let (sx, cx) = (rx.sin(), rx.cos());
    // Translation composed with a rotation about y and then about x.
    let reference: [[f64; 4]; 4] = [
        [cy, 0.0, -sy, 0.0],
        [sx * sy, cx, sx * cy, 0.0],
        [cx * sy, -sx, cx * cy, 0.0],
        [2.0, 5.0, -15.0, 1.0],
    ];
    let got = columns(&m);
    for c in 0..4 {
        for r in 0..4 {
            assert!(
                (to_f(got[c][r]) - reference[c][r]).abs() < 1e-5,
                "entry ({c},{r}): {} vs {}",
                to_f(got[c][r]),
                reference[c][r]
            );
        }
    }
}

#[test]
fn perspective_zero_entries_are_zero() {
    let m = perspective_rh(fp(0.4142), fp(1.5), fp(0.5), fp(50.0));
    assert_eq!(m.x_axis.y, 0);
    assert_eq!(m.x_axis.z, 0);
    assert_eq!(m.x_axis.w, 0);
    assert_eq!(m.y_axis.x, 0);
    assert_eq!(m.y_axis.z, 0);
    assert_eq!(m.y_axis.w, 0);
    assert_eq!(m.z_axis.x, 0);
    assert_eq!(m.z_axis.y, 0);
    assert_eq!(m.w_axis.x, 0);
    assert_eq!(m.w_axis.y, 0);
}
