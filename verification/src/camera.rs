//! The free-fly camera: position, yaw and pitch, an up vector and
//! perspective parameters, with the frame-by-frame updates a fly camera
//! performs and the two matrices it hands to a renderer.
//!
//! Angles are stored in microradians and the field of view in microdegrees.
//! Sines, cosines and tangents cannot be computed here, so the methods that
//! need them take the caller's fixed-point trigonometric values and state
//! exactly what is built from them; `trig_ok` pins those inputs to the unit
//! circle up to rounding.

use crate::fixed::{fpdiv, fpmul, iabs, LIM, ONE};
use crate::mat4::{
    is_look_at, is_perspective, look_at_defined, look_at_rh, perspective_rh, Mat4Fp, POS_LIM,
};
use crate::vec3::{
    add_v3, bounded, cross_v3, lemma_cross_bounded, lemma_fpmul_bound, normalize_v3, sub_v3,
    v3_add_spec, v3_cross_spec, v3_norm_spec, vzero, Vec3Fp,
};
use vstd::prelude::*;

verus! {

/// Lower clamp of the field of view: one degree, in microdegrees.
pub const FOV_MIN: i64 = 1_000_000;

/// Upper clamp of the field of view: forty-five degrees, in microdegrees.
pub const FOV_MAX: i64 = 45_000_000;

/// Largest angle magnitude kept by `rotate`, in microradians.
pub const ANG_LIM: i64 = 10_000_000_000;

/// Headroom that `apply_movement` keeps between the position and `POS_LIM`:
/// more than one frame of motion at the largest speed and frame time.
pub const MOVE_HEADROOM: i64 = 200_000_000;

/// Largest movement speed accepted by `apply_movement`, in microunits per
/// second.
pub const SPEED_LIM: i64 = 100_000_000;

/// A fixed-point sine and cosine pair lies on the unit circle, up to the
/// rounding of each value to a whole number of microunits.
pub open spec fn trig_ok(s: int, c: int) -> bool {
    &&& iabs(s) <= 1_000_001
    &&& iabs(c) <= 1_000_001
    &&& iabs(s * s + c * c - 1_000_000_000_000) <= 4_000_000
}

/// The viewing direction before normalization, from the trigonometric
/// values of yaw and pitch: the spherical-to-Cartesian conversion.
pub open spec fn dir_raw(sy: int, cy: int, sp: int, cp: int) -> Vec3Fp {
    Vec3Fp { x: fpmul(cy, cp) as i64, y: sp as i64, z: fpmul(sy, cp) as i64 }
}

/// The unit viewing direction: the normalized spherical-to-Cartesian
/// conversion of yaw and pitch.
pub open spec fn dir_spec(sy: int, cy: int, sp: int, cp: int) -> Vec3Fp {
    v3_norm_spec(dir_raw(sy, cy, sp, cp))
}

/// One key's contribution to the frame's movement vector: the scaled basis
/// component if the key is held, nothing otherwise.
pub open spec fn move_term(on: bool, sign: int, speed: int, c: int) -> int {
    if on {
        sign * fpmul(speed, c)
    } else {
        0
    }
}

/// The movement vector component gathered from the four movement keys:
/// forward and back walk along the viewing direction, strafing walks along
/// the right vector.
pub open spec fn move_sum(
    w: bool,
    a: bool,
    s: bool,
    d: bool,
    speed: int,
    dir_c: int,
    rgt_c: int,
) -> int {
    move_term(w, 1, speed, dir_c) + move_term(s, -1, speed, dir_c) + move_term(a, -1, speed, rgt_c)
        + move_term(d, 1, speed, rgt_c)
}

/// A free-fly camera.
#[derive(Clone, Copy, PartialEq, Eq, Structural, Debug)]
pub struct CustomCamera {
    /// Eye position, in microunits.
    pub position: Vec3Fp,
    /// Horizontal look angle, in microradians. The positive z axis points
    /// out of the screen toward the viewer, so looking down the negative z
    /// axis is a yaw of minus ninety degrees.
    pub yaw: i64,
    /// Vertical look angle, in microradians.
    pub pitch: i64,
    /// World up vector, near unit length.
    pub up: Vec3Fp,
    /// Vertical field of view, in microdegrees.
    pub fov: i64,
    /// Width over height of the viewport, fixed-point.
    pub aspect_ratio: i64,
    /// Near clip distance, in microunits.
    pub near: i64,
    /// Far clip distance, in microunits.
    pub far: i64,
}

/// The camera's invariant: every field is within the ranges the fixed-point
/// arithmetic supports, the field of view sits inside its clamp range, and
/// the clip planes are ordered with a representable depth ratio.
pub open spec fn well_formed(cam: CustomCamera) -> bool {
    &&& bounded(cam.position, POS_LIM as int)
    &&& iabs(cam.yaw as int) <= ANG_LIM as int
    &&& iabs(cam.pitch as int) <= ANG_LIM as int
    &&& bounded(cam.up, 2 * ONE as int)
    &&& !vzero(cam.up)
    &&& FOV_MIN <= cam.fov <= FOV_MAX
    &&& 1 <= cam.aspect_ratio <= LIM
    &&& 0 < cam.near < cam.far <= LIM
    &&& fpdiv(cam.far as int, (cam.near - cam.far) as int) >= -(LIM as int)
}

impl CustomCamera {
    /// The unit viewing direction for the camera's yaw and pitch, whose
    /// sines and cosines the caller supplies.
    pub fn get_direction(&self, sin_yaw: i64, cos_yaw: i64, sin_pitch: i64, cos_pitch: i64) -> (r:
        Vec3Fp)
        requires
            trig_ok(sin_yaw as int, cos_yaw as int),
            trig_ok(sin_pitch as int, cos_pitch as int),
        ensures
            r == dir_spec(sin_yaw as int, cos_yaw as int, sin_pitch as int, cos_pitch as int),
            bounded(r, ONE as int),
            iabs(crate::vec3::norm_sq(r) - 1_000_000_000_000) <= 10_000_000,
    {
        proof {
            lemma_dir_raw_good(sin_yaw as int, cos_yaw as int, sin_pitch as int, cos_pitch as int);
            lemma_direction_unit_length(
                sin_yaw as int,
                cos_yaw as int,
                sin_pitch as int,
                cos_pitch as int,
            );
        }
        let raw = Vec3Fp {
            x: crate::fixed::mul_fp(cos_yaw, cos_pitch),
            y: sin_pitch,
            z: crate::fixed::mul_fp(sin_yaw, cos_pitch),
        };
        proof {
            assert(raw == dir_raw(
                sin_yaw as int,
                cos_yaw as int,
                sin_pitch as int,
                cos_pitch as int,
            ));
        }
        normalize_v3(raw)
    }

    /// The camera's right vector: the viewing direction crossed with the up
    /// vector, normalized. `None` exactly when the two are parallel in
    /// fixed point, so there is no right direction to normalize.
    pub fn right(&self, sin_yaw: i64, cos_yaw: i64, sin_pitch: i64, cos_pitch: i64) -> (r: Option<
        Vec3Fp,
    >)
        requires
            trig_ok(sin_yaw as int, cos_yaw as int),
            trig_ok(sin_pitch as int, cos_pitch as int),
            bounded(self.up, 2 * ONE as int),
        ensures
            (r is Some) == !vzero(
                v3_cross_spec(
                    dir_spec(sin_yaw as int, cos_yaw as int, sin_pitch as int, cos_pitch as int),
                    self.up,
                ),
            ),
            r matches Some(v) ==> {
                &&& v == v3_norm_spec(
                    v3_cross_spec(
                        dir_spec(
                            sin_yaw as int,
                            cos_yaw as int,
                            sin_pitch as int,
                            cos_pitch as int,
                        ),
                        self.up,
                    ),
                )
                &&& bounded(v, ONE as int)
            },
    {
        let dir = self.get_direction(sin_yaw, cos_yaw, sin_pitch, cos_pitch);
        let c = cross_v3(dir, self.up);
        proof {
            lemma_cross_bounded(dir, self.up);
            assert(c == v3_cross_spec(dir, self.up));
        }
        if c.x == 0 && c.y == 0 && c.z == 0 {
            None
        } else {
            Some(normalize_v3(c))
        }
    }

    /// The view matrix: the look-at frame whose eye is the camera position,
    /// whose center lies one direction vector ahead, and whose up vector is
    /// the camera's. `None` exactly when that frame degenerates.
    pub fn get_view(&self, sin_yaw: i64, cos_yaw: i64, sin_pitch: i64, cos_pitch: i64) -> (m:
        Option<Mat4Fp>)
        requires
            well_formed(*self),
            trig_ok(sin_yaw as int, cos_yaw as int),
            trig_ok(sin_pitch as int, cos_pitch as int),
        ensures
            ({
                let center = v3_add_spec(
                    self.position,
                    dir_spec(sin_yaw as int, cos_yaw as int, sin_pitch as int, cos_pitch as int),
                );
                &&& (m is Some) == look_at_defined(self.position, center, self.up)
                &&& (m matches Some(mm) ==> is_look_at(mm, self.position, center, self.up))
            }),
    {
        let dir = self.get_direction(sin_yaw, cos_yaw, sin_pitch, cos_pitch);
        let center = add_v3(self.position, dir);
        proof {
            assert(center == v3_add_spec(self.position, dir));
        }
        look_at_rh(self.position, center, self.up)
    }

    /// The projection matrix: a right-handed perspective built from the
    /// camera's field of view (through the caller-supplied tangent of half
    /// of it), aspect ratio and clip planes.
    pub fn get_proj(&self, tan_half_fov: i64) -> (m: Mat4Fp)
        requires
            well_formed(*self),
            1 <= tan_half_fov <= LIM,
        ensures
            is_perspective(
                m,
                tan_half_fov as int,
                self.aspect_ratio as int,
                self.near as int,
                self.far as int,
            ),
    {
        perspective_rh(tan_half_fov, self.aspect_ratio, self.near, self.far)
    }

    /// Turn the camera: add the deltas to yaw and pitch. Nothing else
    /// changes, and zero deltas leave the camera exactly as it was.
    ///
    /// Pitch is deliberately not clamped short of the poles, so the view
    /// can flip when pitch crosses ninety degrees; callers that want a
    /// bounded pitch must clamp the delta themselves.
    pub fn rotate(&mut self, yaw_delta: i64, pitch_delta: i64)
        requires
            iabs(old(self).yaw + yaw_delta) <= ANG_LIM as int,
            iabs(old(self).pitch + pitch_delta) <= ANG_LIM as int,
        ensures
            final(self).yaw == old(self).yaw + yaw_delta,
            final(self).pitch == old(self).pitch + pitch_delta,
            final(self).position == old(self).position,
            final(self).up == old(self).up,
            final(self).fov == old(self).fov,
            final(self).aspect_ratio == old(self).aspect_ratio,
            final(self).near == old(self).near,
            final(self).far == old(self).far,
            yaw_delta == 0 && pitch_delta == 0 ==> *final(self) == *old(self),
            well_formed(*old(self)) ==> well_formed(*final(self)),
    {
        self.yaw = self.yaw + yaw_delta;
        self.pitch = self.pitch + pitch_delta;
    }

    /// Move the camera: add the delta to the position. Nothing else
    /// changes, and a zero delta leaves the position exactly as it was.
    pub fn translate(&mut self, delta: Vec3Fp)
        requires
            iabs(old(self).position.x + delta.x) <= POS_LIM as int,
            iabs(old(self).position.y + delta.y) <= POS_LIM as int,
            iabs(old(self).position.z + delta.z) <= POS_LIM as int,
        ensures
            final(self).position.x == old(self).position.x + delta.x,
            final(self).position.y == old(self).position.y + delta.y,
            final(self).position.z == old(self).position.z + delta.z,
            final(self).yaw == old(self).yaw,
            final(self).pitch == old(self).pitch,
            final(self).up == old(self).up,
            final(self).fov == old(self).fov,
            final(self).aspect_ratio == old(self).aspect_ratio,
            final(self).near == old(self).near,
            final(self).far == old(self).far,
            vzero(delta) ==> *final(self) == *old(self),
            well_formed(*old(self)) ==> well_formed(*final(self)),
    {
        self.position = Vec3Fp {
            x: self.position.x + delta.x,
            y: self.position.y + delta.y,
            z: self.position.z + delta.z,
        };
    }

    /// Zoom: subtract the scroll amount from the field of view, then clamp
    /// it to its range. However often this is applied, and whatever the
    /// amount, the field of view never leaves the clamp range.
    pub fn zoom(&mut self, amount: i64)
        ensures
            ({
                let t = old(self).fov - amount;
                &&& (t < FOV_MIN ==> final(self).fov == FOV_MIN)
                &&& (t > FOV_MAX ==> final(self).fov == FOV_MAX)
                &&& (FOV_MIN <= t <= FOV_MAX ==> final(self).fov == t)
            }),
            FOV_MIN <= final(self).fov <= FOV_MAX,
            final(self).position == old(self).position,
            final(self).yaw == old(self).yaw,
            final(self).pitch == old(self).pitch,
            final(self).up == old(self).up,
            final(self).aspect_ratio == old(self).aspect_ratio,
            final(self).near == old(self).near,
            final(self).far == old(self).far,
            well_formed(*old(self)) ==> well_formed(*final(self)),
    {
        let t: i128 = (self.fov as i128) - (amount as i128);
        let clamped: i64 = if t < FOV_MIN as i128 {
            FOV_MIN
        } else if t > FOV_MAX as i128 {
            FOV_MAX
        } else {
            t as i64
        };
        self.fov = clamped;
    }

    /// One frame of keyboard movement, the per-frame accumulation applied
    /// once: gather the held keys' contributions along the viewing
    /// direction and the right vector, scale the total by the frame time,
    /// and translate. With no key held the position does not move at all.
    #[verifier::rlimit(100)]
    pub fn apply_movement(
        &mut self,
        key_w: bool,
        key_a: bool,
        key_s: bool,
        key_d: bool,
        speed: i64,
        dt: i64,
        sin_yaw: i64,
        cos_yaw: i64,
        sin_pitch: i64,
        cos_pitch: i64,
    )
        requires
            well_formed(*old(self)),
            trig_ok(sin_yaw as int, cos_yaw as int),
            trig_ok(sin_pitch as int, cos_pitch as int),
            !vzero(
                v3_cross_spec(
                    dir_spec(sin_yaw as int, cos_yaw as int, sin_pitch as int, cos_pitch as int),
                    old(self).up,
                ),
            ),
            0 <= speed <= SPEED_LIM,
            0 <= dt <= ONE,
            bounded(old(self).position, POS_LIM as int - MOVE_HEADROOM as int),
        ensures
            ({
                let dir = dir_spec(
                    sin_yaw as int,
                    cos_yaw as int,
                    sin_pitch as int,
                    cos_pitch as int,
                );
                let rgt = v3_norm_spec(v3_cross_spec(dir, old(self).up));
                &&& final(self).position.x == old(self).position.x + fpmul(
                    dt as int,
                    move_sum(
                        key_w,
                        key_a,
                        key_s,
                        key_d,
                        speed as int,
                        dir.x as int,
                        rgt.x as int,
                    ),
                )
                &&& final(self).position.y == old(self).position.y + fpmul(
                    dt as int,
                    move_sum(
                        key_w,
                        key_a,
                        key_s,
                        key_d,
                        speed as int,
                        dir.y as int,
                        rgt.y as int,
                    ),
                )
                &&& final(self).position.z == old(self).position.z + fpmul(
                    dt as int,
                    move_sum(
                        key_w,
                        key_a,
                        key_s,
                        key_d,
                        speed as int,
                        dir.z as int,
                        rgt.z as int,
                    ),
                )
            }),
            !key_w && !key_a && !key_s && !key_d ==> *final(self) == *old(self),
            final(self).yaw == old(self).yaw,
            final(self).pitch == old(self).pitch,
            final(self).up == old(self).up,
            final(self).fov == old(self).fov,
            final(self).aspect_ratio == old(self).aspect_ratio,
            final(self).near == old(self).near,
            final(self).far == old(self).far,
            well_formed(*final(self)),
    {
        let dir = self.get_direction(sin_yaw, cos_yaw, sin_pitch, cos_pitch);
        let rgt_opt = self.right(sin_yaw, cos_yaw, sin_pitch, cos_pitch);
        let rgt = match rgt_opt {
            Some(v) => v,
            None => {
                proof {
                    assert(false);
                }
                Vec3Fp { x: 0, y: 0, z: 0 }
            },
        };
        let mut t = Vec3Fp { x: 0, y: 0, z: 0 };
        proof {
            lemma_move_bounds(speed as int, dir, rgt);
        }
        if key_w {
            t = add_v3(t, crate::vec3::scale_v3(speed, dir));
        }
        if key_s {
            t = sub_v3(t, crate::vec3::scale_v3(speed, dir));
        }
        if key_a {
            t = sub_v3(t, crate::vec3::scale_v3(speed, rgt));
        }
        if key_d {
            t = add_v3(t, crate::vec3::scale_v3(speed, rgt));
        }
        proof {
            assert(t.x as int == move_sum(
                key_w,
                key_a,
                key_s,
                key_d,
                speed as int,
                dir.x as int,
                rgt.x as int,
            ));
            assert(t.y as int == move_sum(
                key_w,
                key_a,
                key_s,
                key_d,
                speed as int,
                dir.y as int,
                rgt.y as int,
            ));
            assert(t.z as int == move_sum(
                key_w,
                key_a,
                key_s,
                key_d,
                speed as int,
                dir.z as int,
                rgt.z as int,
            ));
        }
        if !(t.x == 0 && t.y == 0 && t.z == 0) {
            proof {
                lemma_fpmul_bound(dt as int, t.x as int, 1_000_000, 200_000_000);
                lemma_fpmul_bound(dt as int, t.y as int, 1_000_000, 200_000_000);
                lemma_fpmul_bound(dt as int, t.z as int, 1_000_000, 200_000_000);
            }
            let delta = crate::vec3::scale_v3(dt, t);
            self.translate(delta);
        } else {
            proof {
                assert(fpmul(dt as int, 0) == 0);
            }
        }
    }
}

impl Default for CustomCamera {
    /// A camera with every field zero, as a plain starting value; scene
    /// setup overwrites it with real parameters before use.
    fn default() -> (r: CustomCamera)
        ensures
            r == (CustomCamera {
                position: Vec3Fp { x: 0i64, y: 0i64, z: 0i64 },
                yaw: 0i64,
                pitch: 0i64,
                up: Vec3Fp { x: 0i64, y: 0i64, z: 0i64 },
                fov: 0i64,
                aspect_ratio: 0i64,
                near: 0i64,
                far: 0i64,
            }),
    {
        CustomCamera {
            position: Vec3Fp { x: 0, y: 0, z: 0 },
            yaw: 0,
            pitch: 0,
            up: Vec3Fp { x: 0, y: 0, z: 0 },
            fov: 0,
            aspect_ratio: 0,
            near: 0,
            far: 0,
        }
    }
}

/// Each key term is bounded by the speed, so the frame's movement vector
/// stays within the headroom.
proof fn lemma_move_bounds(speed: int, dir: Vec3Fp, rgt: Vec3Fp)
    requires
        0 <= speed <= SPEED_LIM as int,
        bounded(dir, ONE as int),
        bounded(rgt, ONE as int),
    ensures
        iabs(fpmul(speed, dir.x as int)) <= 100_000_000,
        iabs(fpmul(speed, dir.y as int)) <= 100_000_000,
        iabs(fpmul(speed, dir.z as int)) <= 100_000_000,
        iabs(fpmul(speed, rgt.x as int)) <= 100_000_000,
        iabs(fpmul(speed, rgt.y as int)) <= 100_000_000,
        iabs(fpmul(speed, rgt.z as int)) <= 100_000_000,
{
    lemma_fpmul_bound(speed, dir.x as int, 100_000_000, 1_000_000);
    lemma_fpmul_bound(speed, dir.y as int, 100_000_000, 1_000_000);
    lemma_fpmul_bound(speed, dir.z as int, 100_000_000, 1_000_000);
    lemma_fpmul_bound(speed, rgt.x as int, 100_000_000, 1_000_000);
    lemma_fpmul_bound(speed, rgt.y as int, 100_000_000, 1_000_000);
    lemma_fpmul_bound(speed, rgt.z as int, 100_000_000, 1_000_000);
}

/// The squared norm of the raw spherical-to-Cartesian vector misses one
/// square unit only by what the two truncated products and the rounding of
/// the four trigonometric inputs can account for.
proof fn lemma_dir_raw_norm(sy: int, cy: int, sp: int, cp: int)
    requires
        trig_ok(sy, cy),
        trig_ok(sp, cp),
    ensures
        iabs(crate::vec3::norm_sq(dir_raw(sy, cy, sp, cp)) - 1_000_000_000_000) <= 12_100_000,
        bounded(dir_raw(sy, cy, sp, cp), LIM as int),
{
    let x = fpmul(cy, cp);
    let z = fpmul(sy, cp);
    lemma_fpmul_bound(cy, cp, 1_000_001, 1_000_001);
    lemma_fpmul_bound(sy, cp, 1_000_001, 1_000_001);
    assert(x == crate::fixed::tdiv(cy * cp, 1_000_000));
    assert(z == crate::fixed::tdiv(sy * cp, 1_000_000));
    crate::fixed::lemma_tdiv_rem(cy * cp, 1_000_000);
    crate::fixed::lemma_tdiv_rem(sy * cp, 1_000_000);
    let ex = x * 1_000_000 - cy * cp;
    let ez = z * 1_000_000 - sy * cp;
    assert(iabs(ex) <= 999_999 && iabs(ez) <= 999_999);
    assert((x * x) * 1_000_000_000_000 == (cy * cp) * (cy * cp) + 2 * ((cy * cp) * ex) + ex * ex)
        by (nonlinear_arith)
        requires
            x * 1_000_000 == cy * cp + ex,
    ;
    assert((z * z) * 1_000_000_000_000 == (sy * cp) * (sy * cp) + 2 * ((sy * cp) * ez) + ez * ez)
        by (nonlinear_arith)
        requires
            z * 1_000_000 == sy * cp + ez,
    ;
    assert((cy * cp) * (cy * cp) == (cy * cy) * (cp * cp)) by (nonlinear_arith);
    assert((sy * cp) * (sy * cp) == (sy * sy) * (cp * cp)) by (nonlinear_arith);
    assert((cy * cy) * (cp * cp) + (sy * sy) * (cp * cp) == (cy * cy + sy * sy) * (cp * cp))
        by (nonlinear_arith);
    assert((cy * cy + sy * sy) * (cp * cp) - 1_000_000_000_000 * (cp * cp) == (cy * cy + sy * sy
        - 1_000_000_000_000) * (cp * cp)) by (nonlinear_arith);
    assert(0 <= cp * cp <= 1_000_002_000_001 && 0 <= sp * sp <= 1_000_002_000_001)
        by (nonlinear_arith)
        requires
            iabs(cp) <= 1_000_001,
            iabs(sp) <= 1_000_001,
    ;
    assert(iabs(cy * cp) <= 1_000_002_000_001) by (nonlinear_arith)
        requires
            iabs(cy) <= 1_000_001,
            iabs(cp) <= 1_000_001,
    ;
    assert(iabs(sy * cp) <= 1_000_002_000_001) by (nonlinear_arith)
        requires
            iabs(sy) <= 1_000_001,
            iabs(cp) <= 1_000_001,
    ;
    assert(iabs((cy * cp) * ex) <= 1_000_002_000_001 * 999_999) by (nonlinear_arith)
        requires
            iabs(cy * cp) <= 1_000_002_000_001,
            iabs(ex) <= 999_999,
    ;
    assert(iabs((sy * cp) * ez) <= 1_000_002_000_001 * 999_999) by (nonlinear_arith)
        requires
            iabs(sy * cp) <= 1_000_002_000_001,
            iabs(ez) <= 999_999,
    ;
    assert(0 <= ex * ex <= 1_000_000_000_000 && 0 <= ez * ez <= 1_000_000_000_000)
        by (nonlinear_arith)
        requires
            iabs(ex) <= 999_999,
            iabs(ez) <= 999_999,
    ;
    assert(iabs((cy * cy + sy * sy - 1_000_000_000_000) * (cp * cp)) <= 4_000_000
        * 1_000_002_000_001) by (nonlinear_arith)
        requires
            iabs(cy * cy + sy * sy - 1_000_000_000_000) <= 4_000_000,
            0 <= cp * cp <= 1_000_002_000_001,
    ;
    let n = x * x + sp * sp + z * z;
    assert(n * 1_000_000_000_000 == (x * x) * 1_000_000_000_000 + (sp * sp) * 1_000_000_000_000 + (
    z * z) * 1_000_000_000_000);
    assert(n * 1_000_000_000_000 - 1_000_000_000_000_000_000_000_000 == (cy * cy + sy * sy
        - 1_000_000_000_000) * (cp * cp) + 1_000_000_000_000 * (sp * sp + cp * cp
        - 1_000_000_000_000) + 2 * ((cy * cp) * ex) + ex * ex + 2 * ((sy * cp) * ez) + ez * ez);
    assert(iabs(n - 1_000_000_000_000) <= 12_100_000);
    assert(crate::vec3::norm_sq(dir_raw(sy, cy, sp, cp)) == n);
}

/// The unit-length law: for every yaw and pitch, fed in as fixed-point
/// sines and cosines on the unit circle, the squared norm of the viewing
/// direction misses one square unit by at most a hundred-thousandth of it.
pub proof fn lemma_direction_unit_length(sy: int, cy: int, sp: int, cp: int)
    requires
        trig_ok(sy, cy),
        trig_ok(sp, cp),
    ensures
        iabs(crate::vec3::norm_sq(dir_spec(sy, cy, sp, cp)) - 1_000_000_000_000) <= 10_000_000,
{
    lemma_dir_raw_norm(sy, cy, sp, cp);
    crate::vec3::lemma_norm_spec_unit(dir_raw(sy, cy, sp, cp));
}

/// The raw direction vector built from unit-circle values is never zero:
/// its squared norm stays within a small band around one.
proof fn lemma_dir_raw_good(sy: int, cy: int, sp: int, cp: int)
    requires
        trig_ok(sy, cy),
        trig_ok(sp, cp),
    ensures
        !vzero(dir_raw(sy, cy, sp, cp)),
        bounded(dir_raw(sy, cy, sp, cp), 1_100_000),
{
    lemma_fpmul_bound(cy, cp, 1_000_001, 1_000_001);
    lemma_fpmul_bound(sy, cp, 1_000_001, 1_000_001);
    let x = fpmul(cy, cp);
    let z = fpmul(sy, cp);
    if sp == 0 {
        assert(cp * cp >= 999_996_000_000);
        assert(iabs(cp) >= 999_997) by (nonlinear_arith)
            requires
                cp * cp >= 999_996_000_000,
                iabs(cp) <= 1_000_001,
        ;
        assert(sy * sy + cy * cy >= 999_996_000_000);
        if iabs(cy) >= iabs(sy) {
            assert(cy * cy >= 499_998_000_000) by (nonlinear_arith)
                requires
                    iabs(cy) >= iabs(sy),
                    sy * sy + cy * cy >= 999_996_000_000,
            ;
            assert(iabs(cy) >= 707_105) by (nonlinear_arith)
                requires
                    cy * cy >= 499_998_000_000,
                    iabs(cy) <= 1_000_001,
            ;
            assert(iabs(cy * cp) >= 707_105 * 999_997) by (nonlinear_arith)
                requires
                    iabs(cy) >= 707_105,
                    iabs(cp) >= 999_997,
            ;
            assert(iabs(x) >= 707_101) by {
                lemma_tdiv_close(cy * cp);
            };
        } else {
            assert(sy * sy >= 499_998_000_000) by (nonlinear_arith)
                requires
                    iabs(sy) >= iabs(cy),
                    sy * sy + cy * cy >= 999_996_000_000,
            ;
            assert(iabs(sy) >= 707_105) by (nonlinear_arith)
                requires
                    sy * sy >= 499_998_000_000,
                    iabs(sy) <= 1_000_001,
            ;
            assert(iabs(sy * cp) >= 707_105 * 999_997) by (nonlinear_arith)
                requires
                    iabs(sy) >= 707_105,
                    iabs(cp) >= 999_997,
            ;
            assert(iabs(z) >= 707_101) by {
                lemma_tdiv_close(sy * cp);
            };
        }
    }
}

/// Truncating division by the scale loses less than one whole unit.
proof fn lemma_tdiv_close(n: int)
    ensures
        iabs(crate::fixed::tdiv(n, ONE as int) * 1_000_000 - n) <= 999_999,
        iabs(crate::fixed::tdiv(n, ONE as int)) >= (iabs(n) - 999_999) / 1_000_000,
{
    let q = iabs(n) / 1_000_000;
    let r = iabs(n) % 1_000_000;
    assert(iabs(n) == q * 1_000_000 + r && 0 <= r < 1_000_000);
}

} // verus!
