//! Column-major 4x4 fixed-point matrices, and the two constructions the
//! camera needs: a right-handed look-at view matrix and a right-handed
//! perspective projection matrix.
//!
//! Entries follow the usual graphics convention: `x_axis` through `w_axis`
//! are the four columns, and each column's `x..w` fields are its four rows.

use crate::fixed::{div_fp, fpdiv, fpmul, iabs, mul_fp, LIM, ONE};
use crate::vec3::{
    bounded, cross_v3, dot_fp, dot_v3, lemma_cross_bounded, lemma_fpmul_bound, normalize_v3,
    sub_v3, v3_cross_spec, v3_norm_spec, v3_sub_spec, vzero, Vec3Fp,
};
use vstd::prelude::*;

verus! {

/// Largest position magnitude `look_at_rh` accepts: half a million units.
pub const POS_LIM: i64 = 500_000_000_000;

/// One column of a 4x4 matrix.
#[derive(Clone, Copy, PartialEq, Eq, Structural, Debug)]
pub struct Vec4Fp {
    pub x: i64,
    pub y: i64,
    pub z: i64,
    pub w: i64,
}

/// A column-major 4x4 fixed-point matrix.
#[derive(Clone, Copy, PartialEq, Eq, Structural, Debug)]
pub struct Mat4Fp {
    pub x_axis: Vec4Fp,
    pub y_axis: Vec4Fp,
    pub z_axis: Vec4Fp,
    pub w_axis: Vec4Fp,
}

/// The forward vector of a look-at frame: the normalized difference from
/// eye to center.
pub open spec fn la_forward(eye: Vec3Fp, center: Vec3Fp) -> Vec3Fp {
    v3_norm_spec(v3_sub_spec(center, eye))
}

/// The unnormalized side vector: forward crossed with up.
pub open spec fn la_side_raw(eye: Vec3Fp, center: Vec3Fp, up: Vec3Fp) -> Vec3Fp {
    v3_cross_spec(la_forward(eye, center), up)
}

/// The side vector of a look-at frame, normalized.
pub open spec fn la_side(eye: Vec3Fp, center: Vec3Fp, up: Vec3Fp) -> Vec3Fp {
    v3_norm_spec(la_side_raw(eye, center, up))
}

/// The recomputed up vector of a look-at frame: side crossed with forward.
pub open spec fn la_up(eye: Vec3Fp, center: Vec3Fp, up: Vec3Fp) -> Vec3Fp {
    v3_cross_spec(la_side(eye, center, up), la_forward(eye, center))
}

/// The look-at frame is non-degenerate: the eye and center differ, and the
/// up vector is not parallel to the viewing direction, so both basis
/// normalizations divide by a nonzero root.
pub open spec fn look_at_defined(eye: Vec3Fp, center: Vec3Fp, up: Vec3Fp) -> bool {
    !vzero(v3_sub_spec(center, eye)) && !vzero(la_side_raw(eye, center, up))
}

/// `m` is the fixed-point right-handed look-at matrix for the given frame:
/// the side, up and negated forward vectors fill the rotation rows, and the
/// translation row carries the eye's projections onto them.
pub open spec fn is_look_at(m: Mat4Fp, eye: Vec3Fp, center: Vec3Fp, up: Vec3Fp) -> bool {
    let f = la_forward(eye, center);
    let s = la_side(eye, center, up);
    let u = la_up(eye, center, up);
    &&& m.x_axis == (Vec4Fp { x: s.x, y: u.x, z: (-f.x) as i64, w: 0i64 })
    &&& m.y_axis == (Vec4Fp { x: s.y, y: u.y, z: (-f.y) as i64, w: 0i64 })
    &&& m.z_axis == (Vec4Fp { x: s.z, y: u.z, z: (-f.z) as i64, w: 0i64 })
    &&& m.w_axis.x == -dot_fp(s, eye)
    &&& m.w_axis.y == -dot_fp(u, eye)
    &&& m.w_axis.z == dot_fp(f, eye)
    &&& m.w_axis.w == ONE
}

/// Right-handed look-at view matrix, the fixed-point analogue of the
/// standard construction: forward, side and up vectors as rows of the
/// rotation part, with the translation row carrying the eye's projections.
///
/// Returns `None` exactly when the frame degenerates: the eye and center
/// coincide, or the up vector is parallel to the viewing direction, so that
/// a basis vector would have to be normalized from zero.
pub fn look_at_rh(eye: Vec3Fp, center: Vec3Fp, up: Vec3Fp) -> (m: Option<Mat4Fp>)
    requires
        bounded(eye, POS_LIM as int + ONE as int),
        bounded(center, POS_LIM as int + ONE as int),
        bounded(up, 2 * ONE as int),
    ensures
        (m is Some) == look_at_defined(eye, center, up),
        m matches Some(mm) ==> is_look_at(mm, eye, center, up),
{
    let d = sub_v3(center, eye);
    proof {
        assert(d == v3_sub_spec(center, eye));
    }
    if d.x == 0 && d.y == 0 && d.z == 0 {
        return None;
    }
    let f = normalize_v3(d);
    proof {
        assert(f == v3_norm_spec(d));
        assert(f == la_forward(eye, center));
    }
    let s_raw = cross_v3(f, up);
    proof {
        lemma_cross_bounded(f, up);
        assert(s_raw == v3_cross_spec(f, up));
        assert(s_raw == la_side_raw(eye, center, up));
    }
    if s_raw.x == 0 && s_raw.y == 0 && s_raw.z == 0 {
        return None;
    }
    let s = normalize_v3(s_raw);
    proof {
        assert(s == la_side(eye, center, up));
    }
    let u = cross_v3(s, f);
    proof {
        lemma_cross_bounded(s, f);
        assert(u == v3_cross_spec(s, f));
        assert(u == la_up(eye, center, up));
    }
    let ds = dot_v3(s, eye);
    let du = dot_v3(u, eye);
    let df = dot_v3(f, eye);
    proof {
        lemma_dot_small_big(s, eye);
        lemma_dot_small_big(u, eye);
        lemma_dot_small_big(f, eye);
    }
    Some(
        Mat4Fp {
            x_axis: Vec4Fp { x: s.x, y: u.x, z: -f.x, w: 0 },
            y_axis: Vec4Fp { x: s.y, y: u.y, z: -f.y, w: 0 },
            z_axis: Vec4Fp { x: s.z, y: u.z, z: -f.z, w: 0 },
            w_axis: Vec4Fp { x: -ds, y: -du, z: df, w: ONE },
        },
    )
}

/// A dot product of a unit-scale vector with a bounded position stays well
/// inside the representable range.
proof fn lemma_dot_small_big(a: Vec3Fp, b: Vec3Fp)
    requires
        bounded(a, 4_000_000),
        bounded(b, POS_LIM as int + ONE as int),
    ensures
        iabs(dot_fp(a, b)) <= 6_100_000_000_000,
{
    lemma_fpmul_bound(a.x as int, b.x as int, 4_000_000, 500_001_000_000);
    lemma_fpmul_bound(a.y as int, b.y as int, 4_000_000, 500_001_000_000);
    lemma_fpmul_bound(a.z as int, b.z as int, 4_000_000, 500_001_000_000);
}

/// The model matrix of one rendered instance: translate to its position
/// after rotating about the y axis and then the x axis. The rotation block
/// is the product of the two standard axis rotations, written out entry by
/// entry; the caller supplies each angle's fixed-point sine and cosine.
///
/// Column by column, with `sy, cy` for the y rotation and `sx, cx` for the
/// x rotation: the first column is `(cy, 0, -sy)`, the second
/// `(sx sy, cx, sx cy)`, the third `(cx sy, -sx, cx cy)`, and the fourth
/// carries the translation.
pub fn instance_model_matrix(
    position: Vec3Fp,
    sy: i64,
    cy: i64,
    sx: i64,
    cx: i64,
) -> (m: Mat4Fp)
    requires
        bounded(position, POS_LIM as int),
        iabs(sy as int) <= 2_000_000,
        iabs(cy as int) <= 2_000_000,
        iabs(sx as int) <= 2_000_000,
        iabs(cx as int) <= 2_000_000,
    ensures
        m.x_axis == (Vec4Fp { x: cy, y: 0i64, z: (-sy) as i64, w: 0i64 }),
        m.y_axis == (Vec4Fp {
            x: fpmul(sx as int, sy as int) as i64,
            y: cx,
            z: fpmul(sx as int, cy as int) as i64,
            w: 0i64,
        }),
        m.z_axis == (Vec4Fp {
            x: fpmul(cx as int, sy as int) as i64,
            y: (-sx) as i64,
            z: fpmul(cx as int, cy as int) as i64,
            w: 0i64,
        }),
        m.w_axis == (Vec4Fp { x: position.x, y: position.y, z: position.z, w: ONE }),
{
    proof {
        lemma_fpmul_bound(sx as int, sy as int, 2_000_000, 2_000_000);
        lemma_fpmul_bound(sx as int, cy as int, 2_000_000, 2_000_000);
        lemma_fpmul_bound(cx as int, sy as int, 2_000_000, 2_000_000);
        lemma_fpmul_bound(cx as int, cy as int, 2_000_000, 2_000_000);
    }
    Mat4Fp {
        x_axis: Vec4Fp { x: cy, y: 0, z: -sy, w: 0 },
        y_axis: Vec4Fp { x: mul_fp(sx, sy), y: cx, z: mul_fp(sx, cy), w: 0 },
        z_axis: Vec4Fp { x: mul_fp(cx, sy), y: -sx, z: mul_fp(cx, cy), w: 0 },
        w_axis: Vec4Fp { x: position.x, y: position.y, z: position.z, w: ONE },
    }
}

/// `m` is the fixed-point right-handed perspective matrix: the two focal
/// terms on the diagonal, the depth ratio `far / (near - far)` in the third
/// column, and `-1` carrying the perspective divide.
pub open spec fn is_perspective(m: Mat4Fp, tan_half_fov: int, aspect: int, near: int, far: int) -> bool {
    &&& m.x_axis == (Vec4Fp {
        x: fpdiv(fpdiv(ONE as int, tan_half_fov), aspect) as i64,
        y: 0i64,
        z: 0i64,
        w: 0i64,
    })
    &&& m.y_axis == (Vec4Fp { x: 0i64, y: fpdiv(ONE as int, tan_half_fov) as i64, z: 0i64, w: 0i64 })
    &&& m.z_axis == (Vec4Fp {
        x: 0i64,
        y: 0i64,
        z: fpdiv(far, near - far) as i64,
        w: (-ONE) as i64,
    })
    &&& m.w_axis == (Vec4Fp {
        x: 0i64,
        y: 0i64,
        z: fpmul(fpdiv(far, near - far), near) as i64,
        w: 0i64,
    })
}

/// Right-handed perspective projection from the tangent of half the vertical
/// field of view, the aspect ratio, and the near and far clip distances.
///
/// The last `requires` clause is a machine limit: the depth ratio
/// `far / (near - far)` must be representable, which only fails when the two
/// clip planes are pathologically close relative to their size.
pub fn perspective_rh(tan_half_fov: i64, aspect: i64, near: i64, far: i64) -> (m: Mat4Fp)
    requires
        1 <= tan_half_fov <= LIM,
        1 <= aspect <= LIM,
        0 < near < far <= LIM,
        fpdiv(far as int, (near - far) as int) >= -(LIM as int),
    ensures
        is_perspective(m, tan_half_fov as int, aspect as int, near as int, far as int),
{
    let h: i64 = div_fp(ONE, tan_half_fov);
    proof {
        assert(iabs((ONE as int) * (ONE as int)) == 1_000_000_000_000);
    }
    let w: i64 = div_fp(h, aspect);
    let r: i64 = div_fp(far, near - far);
    proof {
        assert(r <= 0);
    }
    let rn: i64 = mul_fp(r, near);
    Mat4Fp {
        x_axis: Vec4Fp { x: w, y: 0, z: 0, w: 0 },
        y_axis: Vec4Fp { x: 0, y: h, z: 0, w: 0 },
        z_axis: Vec4Fp { x: 0, y: 0, z: r, w: -ONE },
        w_axis: Vec4Fp { x: 0, y: 0, z: rn, w: 0 },
    }
}

} // verus!
