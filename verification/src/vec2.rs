//! Two-dimensional fixed-point vectors.
//!
//! Positions, velocities and forces are pairs of fixed-point scalars.
//! Squared distances therefore carry the scale twice; the magnitude
//! operations take the floor square root back into plain scale.

use vstd::prelude::*;
use crate::fx::{
    FX_MAX, abs_s, fadd_s, fsub_s, fmul_s, muldiv_s, in_fx, isqrt_s, fadd, fsub, fmul,
    fmuldiv, isqrt,
};

verus! {

/// The environment's extent: a window of the given width and height
/// centred on the origin.
#[derive(Clone, Copy, PartialEq, Eq, Structural, Debug)]
pub struct Bounds {
    pub w: i64,
    pub h: i64,
}

/// A usable extent: positive and in-domain in both directions.
pub open spec fn bounds_wf(b: Bounds) -> bool {
    1 <= b.w <= FX_MAX && 1 <= b.h <= FX_MAX
}

/// A point lies within the centred extent.
pub open spec fn in_bounds(p: V2, b: Bounds) -> bool {
    &&& -((b.w as int) / 2) <= p.x as int <= (b.w as int) / 2
    &&& -((b.h as int) / 2) <= p.y as int <= (b.h as int) / 2
}

/// A fixed-point plane vector.
#[derive(Clone, Copy, PartialEq, Eq, Structural, Debug)]
pub struct V2 {
    pub x: i64,
    pub y: i64,
}

/// Both components lie inside the fixed-point domain.
pub open spec fn v2_wf(v: V2) -> bool {
    in_fx(v.x as int) && in_fx(v.y as int)
}

/// Build a vector from two in-domain integers.
pub open spec fn v2s(x: int, y: int) -> V2 {
    V2 { x: x as i64, y: y as i64 }
}

/// Componentwise saturating sum.
pub open spec fn v2_add_sp(a: V2, b: V2) -> V2 {
    v2s(fadd_s(a.x as int, b.x as int), fadd_s(a.y as int, b.y as int))
}

/// Componentwise saturating difference.
pub open spec fn v2_sub_sp(a: V2, b: V2) -> V2 {
    v2s(fsub_s(a.x as int, b.x as int), fsub_s(a.y as int, b.y as int))
}

/// Componentwise negation.
pub open spec fn v2_neg_sp(a: V2) -> V2 {
    v2s(-(a.x as int), -(a.y as int))
}

/// Both components scaled by a fixed-point factor.
pub open spec fn v2_fmul_sp(a: V2, k: int) -> V2 {
    v2s(fmul_s(a.x as int, k), fmul_s(a.y as int, k))
}

/// Squared distance between two points.
pub open spec fn dsq_sp(a: V2, b: V2) -> int {
    let dx = a.x as int - b.x as int;
    let dy = a.y as int - b.y as int;
    dx * dx + dy * dy
}

/// Squared magnitude.
pub open spec fn msq_sp(v: V2) -> int {
    (v.x as int) * (v.x as int) + (v.y as int) * (v.y as int)
}

/// A direction vector rescaled to a desired length: each component is
/// `c * s / d`, truncated toward zero, for `d` the vector's magnitude.
pub open spec fn v2_scale_dir_sp(dir: V2, s: int, d: int) -> V2 {
    v2s(muldiv_s(dir.x as int, s, d), muldiv_s(dir.y as int, s, d))
}

/// A vector clamped to a maximum magnitude `m`: unchanged when its
/// squared magnitude is within `m * m`, otherwise rescaled by
/// `m / (isqrt + 1)`, which keeps the result strictly inside the disc.
pub open spec fn v2_clamp_mag_sp(v: V2, m: int) -> V2 {
    if msq_sp(v) <= m * m {
        v
    } else {
        let d = isqrt_s(msq_sp(v));
        v2s(muldiv_s(v.x as int, m, d + 1), muldiv_s(v.y as int, m, d + 1))
    }
}

pub fn v2_new(x: i64, y: i64) -> (r: V2)
    requires
        in_fx(x as int),
        in_fx(y as int),
    ensures
        r == (V2 { x, y }),
        v2_wf(r),
{
    V2 { x, y }
}

pub fn v2_zero() -> (r: V2)
    ensures
        r == (V2 { x: 0i64, y: 0i64 }),
        v2_wf(r),
        msq_sp(r) == 0,
{
    V2 { x: 0, y: 0 }
}

pub fn v2_add(a: V2, b: V2) -> (r: V2)
    requires
        v2_wf(a),
        v2_wf(b),
    ensures
        r == v2_add_sp(a, b),
        v2_wf(r),
{
    V2 { x: fadd(a.x, b.x), y: fadd(a.y, b.y) }
}

pub fn v2_sub(a: V2, b: V2) -> (r: V2)
    requires
        v2_wf(a),
        v2_wf(b),
    ensures
        r == v2_sub_sp(a, b),
        v2_wf(r),
{
    V2 { x: fsub(a.x, b.x), y: fsub(a.y, b.y) }
}

pub fn v2_neg(a: V2) -> (r: V2)
    requires
        v2_wf(a),
    ensures
        r == v2_neg_sp(a),
        v2_wf(r),
{
    V2 { x: -a.x, y: -a.y }
}

pub fn v2_fmul(a: V2, k: i64) -> (r: V2)
    requires
        v2_wf(a),
        in_fx(k as int),
    ensures
        r == v2_fmul_sp(a, k as int),
        v2_wf(r),
{
    V2 { x: fmul(a.x, k), y: fmul(a.y, k) }
}

/// Scaling the zero vector yields the zero vector.
pub proof fn lemma_fmul_zero_vec(k: int)
    ensures
        v2_fmul_sp(v2s(0, 0), k) == v2s(0, 0),
{
    assert(0 as int * k == 0) by (nonlinear_arith);
    vstd::arithmetic::div_mod::lemma_div_of0(crate::fx::SCALE as int);
}

/// Negating the zero vector yields the zero vector.
pub proof fn lemma_neg_zero_vec()
    ensures
        v2_neg_sp(v2s(0, 0)) == v2s(0, 0),
{
}

/// Adding the zero vector changes nothing.
pub proof fn lemma_add_zero_vec(a: V2)
    requires
        v2_wf(a),
    ensures
        v2_add_sp(a, v2s(0, 0)) == a,
{
}

/// A square of a difference of in-domain scalars fits comfortably.
proof fn lemma_diff_square_bound(dx: int)
    requires
        abs_s(dx) <= 2 * FX_MAX,
    ensures
        0 <= dx * dx,
        dx * dx <= (2 * FX_MAX) * (2 * FX_MAX),
{
    let a = abs_s(dx);
    assert(0 <= dx * dx && dx * dx == a * a) by (nonlinear_arith)
        requires
            a == dx || a == -dx,
    ;
    assert(a * a <= (2 * FX_MAX as int) * (2 * FX_MAX as int)) by (nonlinear_arith)
        requires
            0 <= a,
            a <= 2 * FX_MAX as int,
    ;
}

/// Squared distance between two points.
pub fn v2_dist_sq(a: V2, b: V2) -> (r: u128)
    requires
        v2_wf(a),
        v2_wf(b),
    ensures
        r as int == dsq_sp(a, b),
{
    let dx: i128 = a.x as i128 - b.x as i128;
    let dy: i128 = a.y as i128 - b.y as i128;
    proof {
        lemma_diff_square_bound(dx as int);
        lemma_diff_square_bound(dy as int);
    }
    let sq: i128 = dx * dx + dy * dy;
    sq as u128
}

/// Squared magnitude.
pub fn v2_mag_sq(v: V2) -> (r: u128)
    requires
        v2_wf(v),
    ensures
        r as int == msq_sp(v),
{
    let z = v2_zero();
    let r = v2_dist_sq(v, z);
    proof {
        assert(dsq_sp(v, z) == msq_sp(v));
    }
    r
}

/// Magnitude: the floor square root of the squared magnitude.
pub fn v2_mag(v: V2) -> (r: u64)
    requires
        v2_wf(v),
    ensures
        r as int == isqrt_s(msq_sp(v)),
        (r as int) * (r as int) <= msq_sp(v),
        msq_sp(v) < (r as int + 1) * (r as int + 1),
{
    let sq = v2_mag_sq(v);
    isqrt(sq)
}

/// Rescale a direction vector to a desired length.
pub fn v2_scale_dir(dir: V2, s: i64, d: u64) -> (r: V2)
    requires
        v2_wf(dir),
        in_fx(s as int),
        d >= 1,
    ensures
        r == v2_scale_dir_sp(dir, s as int, d as int),
        v2_wf(r),
{
    V2 { x: fmuldiv(dir.x, s, d), y: fmuldiv(dir.y, s, d) }
}

/// Rescaled components stay within the target magnitude.
proof fn lemma_clamp_core(qx: int, qy: int, ax: int, ay: int, m: int, dd: int)
    requires
        qx >= 0,
        qy >= 0,
        ax >= 0,
        ay >= 0,
        m >= 0,
        dd >= 1,
        qx * dd <= ax * m,
        qy * dd <= ay * m,
        ax * ax + ay * ay < dd * dd,
    ensures
        qx * qx + qy * qy <= m * m,
{
    assert((qx * qx) * (dd * dd) <= (ax * m) * (ax * m)) by (nonlinear_arith)
        requires
            qx >= 0,
            dd >= 1,
            ax * m >= 0,
            qx * dd <= ax * m,
    ;
    assert((qy * qy) * (dd * dd) <= (ay * m) * (ay * m)) by (nonlinear_arith)
        requires
            qy >= 0,
            dd >= 1,
            ay * m >= 0,
            qy * dd <= ay * m,
    ;
    assert((ax * m) * (ax * m) == (ax * ax) * (m * m)) by (nonlinear_arith);
    assert((ay * m) * (ay * m) == (ay * ay) * (m * m)) by (nonlinear_arith);
    assert((qx * qx + qy * qy) * (dd * dd) == (qx * qx) * (dd * dd) + (qy * qy) * (dd * dd))
        by (nonlinear_arith);
    assert((ax * ax + ay * ay) * (m * m) == (ax * ax) * (m * m) + (ay * ay) * (m * m))
        by (nonlinear_arith);
    assert((qx * qx + qy * qy) * (dd * dd) <= (ax * ax + ay * ay) * (m * m));
    assert((ax * ax + ay * ay) * (m * m) <= (dd * dd) * (m * m)) by (nonlinear_arith)
        requires
            ax * ax + ay * ay < dd * dd,
            m * m >= 0,
    ;
    assert(qx * qx + qy * qy <= m * m) by (nonlinear_arith)
        requires
            (qx * qx + qy * qy) * (dd * dd) <= (dd * dd) * (m * m),
            dd >= 1,
    ;
}

/// Clamp a vector to a maximum magnitude. The result's squared
/// magnitude never exceeds `m * m`.
pub fn v2_clamp_mag(v: V2, m: i64) -> (r: V2)
    requires
        v2_wf(v),
        0 <= m,
        in_fx(m as int),
    ensures
        r == v2_clamp_mag_sp(v, m as int),
        msq_sp(r) <= (m as int) * (m as int),
        v2_wf(r),
{
    let sq = v2_mag_sq(v);
    proof {
        let vx = v.x as int;
        let vy = v.y as int;
        let mi = m as int;
        assert(vx * vx <= FX_MAX as int * (FX_MAX as int) && vy * vy <= FX_MAX as int * (
        FX_MAX as int) && 0 <= vx * vx && 0 <= vy * vy) by (nonlinear_arith)
            requires
                -FX_MAX <= vx <= FX_MAX,
                -FX_MAX <= vy <= FX_MAX,
        ;
        assert(mi * mi < 0x1_0000_0000_0000_0000_0000_0000_0000_0000) by (nonlinear_arith)
            requires
                0 <= mi <= 0x4000_0000_0000_0000,
        ;
    }
    let m2: u128 = (m as u128) * (m as u128);
    if sq <= m2 {
        v
    } else {
        let dd = isqrt(sq);
        proof {
            assert((dd as int) < 0x8000_0000_0000_0000) by (nonlinear_arith)
                requires
                    0 <= (dd as int),
                    (dd as int) * (dd as int) < 0x4000_0000_0000_0000_0000_0000_0000_0000,
            ;
        }
        let rx = fmuldiv(v.x, m, dd + 1);
        let ry = fmuldiv(v.y, m, dd + 1);
        let r = V2 { x: rx, y: ry };
        proof {
            let vx = v.x as int;
            let vy = v.y as int;
            let ax = abs_s(vx);
            let ay = abs_s(vy);
            let d1 = dd as int + 1;
            let mi = m as int;
            let rxi = rx as int;
            let ryi = ry as int;
            let qx = abs_s(rxi);
            let qy = abs_s(ryi);
            assert(ax * ax == vx * vx && ay * ay == vy * vy && 0 <= ax * ax && 0 <= ay * ay)
                by (nonlinear_arith)
                requires
                    ax == vx || ax == -vx,
                    ay == vy || ay == -vy,
                    0 <= ax,
                    0 <= ay,
            ;
            assert(ax * ax + ay * ay < d1 * d1);
            assert(ax < d1) by (nonlinear_arith)
                requires
                    ax >= 0,
                    d1 >= 1,
                    ax * ax < d1 * d1,
            ;
            assert(ay < d1) by (nonlinear_arith)
                requires
                    ay >= 0,
                    d1 >= 1,
                    ay * ay < d1 * d1,
            ;
            crate::fx::lemma_muldiv_small(vx, mi, d1);
            crate::fx::lemma_muldiv_small(vy, mi, d1);
            assert(ax * mi >= 0 && ay * mi >= 0) by (nonlinear_arith)
                requires
                    ax >= 0,
                    ay >= 0,
                    mi >= 0,
            ;
            crate::fx::lemma_div_mul_le(ax * mi, d1);
            crate::fx::lemma_div_mul_le(ay * mi, d1);
            lemma_clamp_core(qx, qy, ax, ay, mi, d1);
            assert(qx * qx == rxi * rxi && qy * qy == ryi * ryi) by (nonlinear_arith)
                requires
                    qx == rxi || qx == -rxi,
                    qy == ryi || qy == -ryi,
            ;
        }
        r
    }
}

} // verus!
