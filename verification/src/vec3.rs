//! Three-component fixed-point vectors and the operations the camera needs:
//! componentwise sums, scaling, dot and cross products, and normalization.
//!
//! Each executable operation has a spec-level mirror (`cross_x`, `dot_fp`,
//! `nrm_x`, ...) so that contracts elsewhere can speak of composed results.

use crate::fixed::{
    div_fp, fpdiv, fpmul, iabs, is_isqrt, isqrt, lemma_isqrt_exists, lemma_sqrt_of_is,
    lemma_tdiv_rem, mul_fp, sqrt_of, tdiv, LIM, ONE,
};
use vstd::prelude::*;

verus! {

/// A vector of three fixed-point scalars.
#[derive(Clone, Copy, PartialEq, Eq, Structural, Debug)]
pub struct Vec3Fp {
    pub x: i64,
    pub y: i64,
    pub z: i64,
}

/// Every component's magnitude is at most `m`.
pub open spec fn bounded(v: Vec3Fp, m: int) -> bool {
    iabs(v.x as int) <= m && iabs(v.y as int) <= m && iabs(v.z as int) <= m
}

/// Squared Euclidean norm, in raw ticks squared.
pub open spec fn norm_sq(v: Vec3Fp) -> int {
    (v.x as int) * (v.x as int) + (v.y as int) * (v.y as int) + (v.z as int) * (v.z as int)
}

/// Fixed-point dot product.
pub open spec fn dot_fp(a: Vec3Fp, b: Vec3Fp) -> int {
    fpmul(a.x as int, b.x as int) + fpmul(a.y as int, b.y as int) + fpmul(a.z as int, b.z as int)
}

/// First component of the fixed-point cross product.
pub open spec fn cross_x(a: Vec3Fp, b: Vec3Fp) -> int {
    fpmul(a.y as int, b.z as int) - fpmul(a.z as int, b.y as int)
}

/// Second component of the fixed-point cross product.
pub open spec fn cross_y(a: Vec3Fp, b: Vec3Fp) -> int {
    fpmul(a.z as int, b.x as int) - fpmul(a.x as int, b.z as int)
}

/// Third component of the fixed-point cross product.
pub open spec fn cross_z(a: Vec3Fp, b: Vec3Fp) -> int {
    fpmul(a.x as int, b.y as int) - fpmul(a.y as int, b.x as int)
}

/// First component of the fixed-point normalization of `v`.
pub open spec fn nrm_x(v: Vec3Fp) -> int {
    fpdiv(v.x as int, sqrt_of(norm_sq(v)))
}

/// Second component of the fixed-point normalization of `v`.
pub open spec fn nrm_y(v: Vec3Fp) -> int {
    fpdiv(v.y as int, sqrt_of(norm_sq(v)))
}

/// Third component of the fixed-point normalization of `v`.
pub open spec fn nrm_z(v: Vec3Fp) -> int {
    fpdiv(v.z as int, sqrt_of(norm_sq(v)))
}

/// All three components are zero.
pub open spec fn vzero(v: Vec3Fp) -> bool {
    v.x == 0 && v.y == 0 && v.z == 0
}

/// Spec-level componentwise difference.
pub open spec fn v3_sub_spec(a: Vec3Fp, b: Vec3Fp) -> Vec3Fp {
    Vec3Fp { x: (a.x - b.x) as i64, y: (a.y - b.y) as i64, z: (a.z - b.z) as i64 }
}

/// Spec-level componentwise sum.
pub open spec fn v3_add_spec(a: Vec3Fp, b: Vec3Fp) -> Vec3Fp {
    Vec3Fp { x: (a.x + b.x) as i64, y: (a.y + b.y) as i64, z: (a.z + b.z) as i64 }
}

/// Spec-level fixed-point normalization.
pub open spec fn v3_norm_spec(v: Vec3Fp) -> Vec3Fp {
    Vec3Fp { x: nrm_x(v) as i64, y: nrm_y(v) as i64, z: nrm_z(v) as i64 }
}

/// Spec-level fixed-point cross product.
pub open spec fn v3_cross_spec(a: Vec3Fp, b: Vec3Fp) -> Vec3Fp {
    Vec3Fp { x: cross_x(a, b) as i64, y: cross_y(a, b) as i64, z: cross_z(a, b) as i64 }
}

/// Componentwise sum.
pub fn add_v3(a: Vec3Fp, b: Vec3Fp) -> (r: Vec3Fp)
    requires
        bounded(a, LIM as int),
        bounded(b, LIM as int),
    ensures
        r.x == a.x + b.x,
        r.y == a.y + b.y,
        r.z == a.z + b.z,
{
    Vec3Fp { x: a.x + b.x, y: a.y + b.y, z: a.z + b.z }
}

/// Componentwise difference.
pub fn sub_v3(a: Vec3Fp, b: Vec3Fp) -> (r: Vec3Fp)
    requires
        bounded(a, LIM as int),
        bounded(b, LIM as int),
    ensures
        r.x == a.x - b.x,
        r.y == a.y - b.y,
        r.z == a.z - b.z,
{
    Vec3Fp { x: a.x - b.x, y: a.y - b.y, z: a.z - b.z }
}

/// Scale each component by the fixed-point factor `s`.
pub fn scale_v3(s: i64, v: Vec3Fp) -> (r: Vec3Fp)
    requires
        -LIM <= s <= LIM,
        bounded(v, LIM as int),
    ensures
        r.x == fpmul(s as int, v.x as int),
        r.y == fpmul(s as int, v.y as int),
        r.z == fpmul(s as int, v.z as int),
{
    Vec3Fp { x: mul_fp(s, v.x), y: mul_fp(s, v.y), z: mul_fp(s, v.z) }
}

/// Fixed-point dot product. The first operand must be small (a unit-scale
/// direction), so the three partial products cannot overflow when summed.
pub fn dot_v3(a: Vec3Fp, b: Vec3Fp) -> (r: i64)
    requires
        bounded(a, 4_000_000),
        bounded(b, LIM as int),
    ensures
        r == dot_fp(a, b),
{
    proof {
        lemma_small_product_bound(a.x as int, b.x as int);
        lemma_small_product_bound(a.y as int, b.y as int);
        lemma_small_product_bound(a.z as int, b.z as int);
    }
    mul_fp(a.x, b.x) + mul_fp(a.y, b.y) + mul_fp(a.z, b.z)
}

/// Fixed-point cross product, under the same smallness condition on the
/// first operand as `dot_v3`.
pub fn cross_v3(a: Vec3Fp, b: Vec3Fp) -> (r: Vec3Fp)
    requires
        bounded(a, 4_000_000),
        bounded(b, LIM as int),
    ensures
        r.x == cross_x(a, b),
        r.y == cross_y(a, b),
        r.z == cross_z(a, b),
        bounded(r, 24_000_000_000_000),
{
    proof {
        lemma_small_product_bound(a.y as int, b.z as int);
        lemma_small_product_bound(a.z as int, b.y as int);
        lemma_small_product_bound(a.z as int, b.x as int);
        lemma_small_product_bound(a.x as int, b.z as int);
        lemma_small_product_bound(a.x as int, b.y as int);
        lemma_small_product_bound(a.y as int, b.x as int);
    }
    Vec3Fp {
        x: mul_fp(a.y, b.z) - mul_fp(a.z, b.y),
        y: mul_fp(a.z, b.x) - mul_fp(a.x, b.z),
        z: mul_fp(a.x, b.y) - mul_fp(a.y, b.x),
    }
}

/// A fixed-point product is bounded by the product of the factors' bounds,
/// rescaled.
pub proof fn lemma_fpmul_bound(a: int, b: int, ca: int, cb: int)
    requires
        0 <= ca,
        0 <= cb,
        iabs(a) <= ca,
        iabs(b) <= cb,
    ensures
        iabs(fpmul(a, b)) <= ca * cb / (ONE as int),
{
    assert(iabs(a * b) <= ca * cb) by (nonlinear_arith)
        requires
            0 <= ca,
            0 <= cb,
            iabs(a) <= ca,
            iabs(b) <= cb,
    ;
    assert(iabs(a * b) / 1_000_000 <= ca * cb / 1_000_000);
}

/// The cross product of a unit vector with a near-unit vector has
/// components within a few fixed-point units, so it can be normalized and
/// its spec-level mirror loses nothing to truncation.
pub proof fn lemma_cross_bounded(a: Vec3Fp, b: Vec3Fp)
    requires
        bounded(a, ONE as int),
        bounded(b, 2 * ONE as int),
    ensures
        iabs(cross_x(a, b)) <= 4_000_000,
        iabs(cross_y(a, b)) <= 4_000_000,
        iabs(cross_z(a, b)) <= 4_000_000,
{
    lemma_fpmul_bound(a.y as int, b.z as int, 1_000_000, 2_000_000);
    lemma_fpmul_bound(a.z as int, b.y as int, 1_000_000, 2_000_000);
    lemma_fpmul_bound(a.z as int, b.x as int, 1_000_000, 2_000_000);
    lemma_fpmul_bound(a.x as int, b.z as int, 1_000_000, 2_000_000);
    lemma_fpmul_bound(a.x as int, b.y as int, 1_000_000, 2_000_000);
    lemma_fpmul_bound(a.y as int, b.x as int, 1_000_000, 2_000_000);
}

/// A fixed-point product of a unit-scale factor with a bounded factor is
/// itself bounded well inside the representable range.
proof fn lemma_small_product_bound(a: int, b: int)
    requires
        iabs(a) <= 4_000_000,
        iabs(b) <= LIM as int,
    ensures
        iabs(fpmul(a, b)) <= 12_000_000_000_000,
{
    lemma_fpmul_bound(a, b, 4_000_000, 3_000_000_000_000);
}

/// Normalize `v`: divide each component by the integer square root of the
/// squared norm. The result's components never exceed `ONE` in magnitude.
pub fn normalize_v3(v: Vec3Fp) -> (r: Vec3Fp)
    requires
        bounded(v, LIM as int),
        !(v.x == 0 && v.y == 0 && v.z == 0),
    ensures
        r.x == nrm_x(v),
        r.y == nrm_y(v),
        r.z == nrm_z(v),
        is_isqrt(sqrt_of(norm_sq(v)), norm_sq(v)),
        1 <= sqrt_of(norm_sq(v)) <= 5_200_000_000_000,
        bounded(r, ONE as int),
{
    proof {
        assert(1 <= norm_sq(v) <= 27_000_000_000_000_000_000_000_000) by (nonlinear_arith)
            requires
                iabs(v.x as int) <= 3_000_000_000_000,
                iabs(v.y as int) <= 3_000_000_000_000,
                iabs(v.z as int) <= 3_000_000_000_000,
                !(v.x == 0 && v.y == 0 && v.z == 0),
                norm_sq(v) == (v.x as int) * (v.x as int) + (v.y as int) * (v.y as int) + (
                v.z as int) * (v.z as int),
        ;
        assert(0 <= (v.x as int) * (v.x as int) <= 9_000_000_000_000_000_000_000_000
            && 0 <= (v.y as int) * (v.y as int) <= 9_000_000_000_000_000_000_000_000
            && 0 <= (v.z as int) * (v.z as int) <= 9_000_000_000_000_000_000_000_000)
            by (nonlinear_arith)
            requires
                iabs(v.x as int) <= 3_000_000_000_000,
                iabs(v.y as int) <= 3_000_000_000_000,
                iabs(v.z as int) <= 3_000_000_000_000,
        ;
    }
    let xx: i128 = (v.x as i128) * (v.x as i128);
    let yy: i128 = (v.y as i128) * (v.y as i128);
    let zz: i128 = (v.z as i128) * (v.z as i128);
    let n: u128 = (xx + yy + zz) as u128;
    let len_u: u64 = isqrt(n);
    proof {
        lemma_sqrt_of_is(len_u as int, n as int);
        assert(len_u <= 5_200_000_000_000) by (nonlinear_arith)
            requires
                (len_u as int) * (len_u as int) <= 27_000_000_000_000_000_000_000_000,
                len_u >= 0,
        ;
        if len_u == 0 {
            assert(((0int) + 1) * ((0int) + 1) == 1);
            assert(false);
        }
        lemma_component_le_root(v.x as int, len_u as int, n as int);
        lemma_component_le_root(v.y as int, len_u as int, n as int);
        lemma_component_le_root(v.z as int, len_u as int, n as int);
    }
    let len: i64 = len_u as i64;
    let r = Vec3Fp { x: div_fp(v.x, len), y: div_fp(v.y, len), z: div_fp(v.z, len) };
    proof {
        lemma_div_unit_bound(v.x as int, len as int);
        lemma_div_unit_bound(v.y as int, len as int);
        lemma_div_unit_bound(v.z as int, len as int);
    }
    r
}

/// Normalizing a vector whose squared norm is already within a whisker of
/// one square unit leaves a vector whose squared norm misses one square
/// unit by less than a hundred-thousandth of it: normalization loses less
/// than one part in a hundred thousand to truncation.
pub proof fn lemma_norm_spec_unit(v: Vec3Fp)
    requires
        bounded(v, LIM as int),
        iabs(norm_sq(v) - 1_000_000_000_000) <= 12_100_000,
    ensures
        iabs(norm_sq(v3_norm_spec(v)) - 1_000_000_000_000) <= 8_100_000,
        bounded(v3_norm_spec(v), ONE as int),
{
    let vx = v.x as int;
    let vy = v.y as int;
    let vz = v.z as int;
    let n = norm_sq(v);
    lemma_isqrt_exists(n);
    let len = sqrt_of(n);
    assert(0 <= vx * vx && 0 <= vy * vy && 0 <= vz * vz) by (nonlinear_arith);
    assert(vx * vx <= n && vy * vy <= n && vz * vz <= n);
    assert(999_993 <= len) by (nonlinear_arith)
        requires
            0 <= len,
            n < (len + 1) * (len + 1),
            n >= 999_987_900_000,
    ;
    assert(len <= 1_000_006) by (nonlinear_arith)
        requires
            0 <= len,
            len * len <= n,
            n <= 1_000_012_100_000,
    ;
    lemma_component_le_root(vx, len, n);
    lemma_component_le_root(vy, len, n);
    lemma_component_le_root(vz, len, n);
    lemma_div_unit_bound(vx, len);
    lemma_div_unit_bound(vy, len);
    lemma_div_unit_bound(vz, len);
    let rx = fpdiv(vx, len);
    let ry = fpdiv(vy, len);
    let rz = fpdiv(vz, len);
    assert(rx == tdiv(vx * 1_000_000, len));
    assert(ry == tdiv(vy * 1_000_000, len));
    assert(rz == tdiv(vz * 1_000_000, len));
    lemma_tdiv_rem(vx * 1_000_000, len);
    lemma_tdiv_rem(vy * 1_000_000, len);
    lemma_tdiv_rem(vz * 1_000_000, len);
    let px = rx * len - vx * 1_000_000;
    let py = ry * len - vy * 1_000_000;
    let pz = rz * len - vz * 1_000_000;
    assert(iabs(px) <= len - 1 && iabs(py) <= len - 1 && iabs(pz) <= len - 1);
    let s2 = rx * rx + ry * ry + rz * rz;
    let e3 = 2_000_000 * (vx * px + vy * py + vz * pz) + (px * px + py * py + pz * pz);
    assert((rx * rx) * (len * len) == (vx * vx) * 1_000_000_000_000 + 2_000_000 * (vx * px) + px
        * px) by (nonlinear_arith)
        requires
            rx * len == vx * 1_000_000 + px,
    ;
    assert((ry * ry) * (len * len) == (vy * vy) * 1_000_000_000_000 + 2_000_000 * (vy * py) + py
        * py) by (nonlinear_arith)
        requires
            ry * len == vy * 1_000_000 + py,
    ;
    assert((rz * rz) * (len * len) == (vz * vz) * 1_000_000_000_000 + 2_000_000 * (vz * pz) + pz
        * pz) by (nonlinear_arith)
        requires
            rz * len == vz * 1_000_000 + pz,
    ;
    assert((rx * rx + ry * ry + rz * rz) * (len * len) == (rx * rx) * (len * len) + (ry * ry) * (
    len * len) + (rz * rz) * (len * len)) by (nonlinear_arith);
    assert(s2 * (len * len) == n * 1_000_000_000_000 + e3);
    assert(iabs(vx * px) <= len * (len - 1)) by (nonlinear_arith)
        requires
            iabs(vx) <= len,
            iabs(px) <= len - 1,
            1 <= len,
    ;
    assert(iabs(vy * py) <= len * (len - 1)) by (nonlinear_arith)
        requires
            iabs(vy) <= len,
            iabs(py) <= len - 1,
            1 <= len,
    ;
    assert(iabs(vz * pz) <= len * (len - 1)) by (nonlinear_arith)
        requires
            iabs(vz) <= len,
            iabs(pz) <= len - 1,
            1 <= len,
    ;
    assert(px * px <= (len - 1) * (len - 1) && py * py <= (len - 1) * (len - 1) && pz * pz <= (len
        - 1) * (len - 1)) by (nonlinear_arith)
        requires
            iabs(px) <= len - 1,
            iabs(py) <= len - 1,
            iabs(pz) <= len - 1,
            1 <= len,
    ;
    assert(len * (len - 1) <= len * len && (len - 1) * (len - 1) <= len * len && 0 <= len * len)
        by (nonlinear_arith)
        requires
            1 <= len,
    ;
    let lsq = len * len;
    let l1 = len * (len - 1);
    let l2 = (len - 1) * (len - 1);
    assert(0 <= px * px && 0 <= py * py && 0 <= pz * pz) by (nonlinear_arith);
    assert(-l1 <= vx * px <= l1);
    assert(-l1 <= vy * py <= l1);
    assert(-l1 <= vz * pz <= l1);
    assert(-(3 * l1) <= vx * px + vy * py + vz * pz <= 3 * l1);
    assert(-(6_000_000 * l1) <= 2_000_000 * (vx * px + vy * py + vz * pz) <= 6_000_000 * l1);
    assert(0 <= px * px + py * py + pz * pz <= 3 * l2);
    assert(-(6_000_000 * l1) <= e3 <= 6_000_000 * l1 + 3 * l2);
    assert(6_000_000 * l1 <= 6_000_000 * lsq);
    assert(3 * l2 <= 3 * lsq);
    assert(iabs(e3) <= 6_000_003 * (len * len));
    let t = n - len * len;
    assert(0 <= t);
    assert(t <= 2 * len) by (nonlinear_arith)
        requires
            n < (len + 1) * (len + 1),
            t == n - len * len,
    ;
    assert(iabs(s2 - 1_000_000_000_000) <= 8_100_000) by (nonlinear_arith)
        requires
            s2 * (len * len) == 1_000_000_000_000 * (len * len) + 1_000_000_000_000 * t + e3,
            iabs(e3) <= 6_000_003 * (len * len),
            0 <= t <= 2 * len,
            999_993 <= len <= 1_000_006,
    ;
    assert(norm_sq(v3_norm_spec(v)) == s2);
}

/// A component is never larger than the root of the squared norm.
pub proof fn lemma_component_le_root(c: int, len: int, n: int)
    requires
        is_isqrt(len, n),
        c * c <= n,
    ensures
        iabs(c) <= len,
{
    assert(iabs(c) <= len) by (nonlinear_arith)
        requires
            0 <= len,
            c * c <= n,
            n < (len + 1) * (len + 1),
    ;
}

/// Dividing a component by a root at least as large keeps the quotient
/// within one fixed-point unit.
pub proof fn lemma_div_unit_bound(c: int, len: int)
    requires
        1 <= len,
        iabs(c) <= len,
    ensures
        iabs(fpdiv(c, len)) <= ONE as int,
{
    assert(iabs(c * 1_000_000) / len <= 1_000_000) by (nonlinear_arith)
        requires
            1 <= len,
            iabs(c) <= len,
    ;
    assert(iabs(c * (ONE as int)) == iabs(c * 1_000_000));
}

} // verus!
