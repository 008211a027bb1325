use flycam::camera::CustomCamera;
use flycam::input::{apply_look, apply_zoom, FrameInput};
use flycam::uniform::{pack_words_le, push_word_le};
use flycam::vec3::Vec3Fp;

const ONE: i64 = 1_000_000;

fn fp(v: f64) -> i64 {
    (v * 1_000_000.0).round() as i64
}

fn test_camera() -> CustomCamera {
    CustomCamera {
        position: Vec3Fp { x: 0, y: 0, z: 3 * ONE },
        yaw: fp((-90.0f64).to_radians()),
        pitch: 0,
        up: Vec3Fp { x: 0, y: ONE, z: 0 },
        fov: 45 * ONE,
        aspect_ratio: fp(800.0 / 600.0),
        near: fp(0.1),
        far: 100 * ONE,
    }
}

#[test]
fn words_serialize_little_endian() {
    let words: Vec<u32> = vec![0x12345678, 0x00000000, 0xffffffff, 0x0000a1b2];
    let bytes = pack_words_le(&words);
    assert_eq!(
        bytes,
        vec![
            0x78, 0x56, 0x34, 0x12, 0x00, 0x00, 0x00, 0x00, 0xff, 0xff, 0xff, 0xff, 0xb2, 0xa1,
            0x00, 0x00
        ]
    );
}

#[test]
fn empty_word_list_serializes_to_no_bytes() {
    let words: Vec<u32> = Vec::new();
    assert_eq!(pack_words_le(&words), Vec::<u8>::new());
}

#[test]
fn push_word_appends_in_place() {
    let mut out: Vec<u8> = vec![0xaa];
    push_word_le(&mut out, 0x01020304);
    assert_eq!(out, vec![0xaa, 0x04, 0x03, 0x02, 0x01]);
}

#[test]
fn sixteen_words_make_a_matrix_buffer() {
    // A shader-bound 4x4 float matrix occupies 64 bytes, word by word.
    let words: Vec<u32> = (0u32..16).map(|i| 1f32.to_bits() + i).collect();
    let bytes = pack_words_le(&words);
    assert_eq!(bytes.len(), 64);
    for (i, w) in words.iter().enumerate() {
        let chunk = &bytes[4 * i..4 * i + 4];
        assert_eq!(chunk, w.to_le_bytes());
    }
}

#[test]
fn frame_input_accumulates_and_resets() {
    let mut input = FrameInput::new();
    input.add_mouse(100, -50);
    input.add_mouse(-30, 20);
    input.add_scroll(7);
    input.add_scroll(3);
    let (dx, dy, scroll) = input.take();
    assert_eq!(dx, 70);
    assert_eq!(dy, -30);
    assert_eq!(scroll, 10);
    let (dx2, dy2, scroll2) = input.take();
    assert_eq!((dx2, dy2, scroll2), (0, 0, 0));
}

#[test]
fn look_applies_accumulated_delta_once() {
    let mut cam = test_camera();
    let yaw0 = cam.yaw;
    let pitch0 = cam.pitch;
    // Net mouse delta of (0.2, -0.1) units at sensitivity 0.1 over 16 ms.
    let sens = fp(0.1);
    let dt = fp(0.016);
    apply_look(&mut cam, fp(0.2), fp(-0.1), sens, dt);
    // 0.2 * 0.1 = 0.02; 0.02 * 0.016 = 0.00032 -> 320 microradians.
    assert_eq!(cam.yaw, yaw0 + 320);
    assert_eq!(cam.pitch, pitch0 + 160);
}

#[test]
fn look_with_no_mouse_motion_changes_nothing() {
    let mut cam = test_camera();
    let before = cam.clone();
    apply_look(&mut cam, 0, 0, fp(0.1), fp(0.016));
    assert_eq!(cam, before);
}

#[test]
fn zoom_from_scroll_scales_and_clamps() {
    let mut cam = test_camera();
    apply_zoom(&mut cam, fp(2.0), ONE);
    assert_eq!(cam.fov, 43 * ONE);
    apply_zoom(&mut cam, fp(1000.0), ONE);
    assert_eq!(cam.fov, ONE);
    apply_zoom(&mut cam, fp(-1000.0), ONE);
    assert_eq!(cam.fov, 45 * ONE);
    let before = cam.fov;
    apply_zoom(&mut cam, 0, ONE);
    assert_eq!(cam.fov, before);
}
