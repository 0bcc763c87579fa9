//! Fixed-point scalars.
//!
//! Every quantity of the simulation is an `i64` that carries one
//! thousandth of a unit (`SCALE` parts per unit), kept inside the
//! symmetric domain `[-FX_MAX, FX_MAX]`. Sums and products saturate at
//! the rim of the domain; products and quotients truncate toward zero,
//! as the corresponding machine operations do.

use vstd::prelude::*;

verus! {

/// Fixed-point parts per unit.
pub const SCALE: i64 = 1000;

/// The largest magnitude a fixed-point scalar may carry.
pub const FX_MAX: i64 = 0x3fff_ffff_ffff_ffff;

/// Clamp an unbounded integer into the fixed-point domain.
pub open spec fn sat64(x: int) -> int {
    if x > FX_MAX {
        FX_MAX as int
    } else if x < -FX_MAX {
        -FX_MAX as int
    } else {
        x
    }
}

/// Magnitude of an integer.
pub open spec fn abs_s(a: int) -> int {
    if a < 0 {
        -a
    } else {
        a
    }
}

/// Quotient truncated toward zero, for a positive divisor.
pub open spec fn tdiv(a: int, d: int) -> int {
    if a >= 0 {
        a / d
    } else {
        -((-a) / d)
    }
}

/// Saturating addition.
pub open spec fn fadd_s(a: int, b: int) -> int {
    sat64(a + b)
}

/// Saturating subtraction.
pub open spec fn fsub_s(a: int, b: int) -> int {
    sat64(a - b)
}

/// Saturating fixed-point product: `a * b` rescaled by `SCALE`,
/// truncated toward zero.
pub open spec fn fmul_s(a: int, b: int) -> int {
    sat64(tdiv(a * b, SCALE as int))
}

/// Saturating product with an arbitrary positive divisor, truncated
/// toward zero.
pub open spec fn muldiv_s(a: int, b: int, d: int) -> int {
    sat64(tdiv(a * b, d))
}

/// A scalar lies inside the fixed-point domain.
pub open spec fn in_fx(a: int) -> bool {
    -FX_MAX <= a <= FX_MAX
}

/// The floor square root of a non-negative integer.
pub open spec fn isqrt_s(n: int) -> int {
    choose|r: int| 0 <= r && #[trigger] (r * r) <= n && n < (r + 1) * (r + 1)
}

/// The floor square root is the unique non-negative `r` with
/// `r * r <= n < (r + 1) * (r + 1)`.
pub proof fn lemma_isqrt_unique(n: int, r: int)
    requires
        0 <= r,
        r * r <= n,
        n < (r + 1) * (r + 1),
    ensures
        isqrt_s(n) == r,
{
    let s = isqrt_s(n);
    assert(0 <= s && s * s <= n < (s + 1) * (s + 1)) by {
        assert(0 <= r && r * r <= n < (r + 1) * (r + 1));
    }
    if s < r {
        assert((s + 1) * (s + 1) <= r * r) by (nonlinear_arith)
            requires
                0 <= s,
                s < r,
        ;
        assert(false);
    }
    if r < s {
        assert((r + 1) * (r + 1) <= s * s) by (nonlinear_arith)
            requires
                0 <= r,
                r < s,
        ;
        assert(false);
    }
}


/// A fixed-point product of non-negative factors is non-negative.
pub proof fn lemma_fmul_nonneg(a: int, b: int)
    requires
        a >= 0,
        b >= 0,
    ensures
        0 <= fmul_s(a, b) <= FX_MAX,
{
    assert(a * b >= 0) by (nonlinear_arith)
        requires
            a >= 0,
            b >= 0,
    ;
    vstd::arithmetic::div_mod::lemma_div_pos_is_pos(a * b, SCALE as int);
}


/// A saturating multiply-divide of non-negative operands is
/// non-negative.
pub proof fn lemma_muldiv_nonneg(a: int, b: int, d: int)
    requires
        a >= 0,
        b >= 0,
        d >= 1,
    ensures
        0 <= muldiv_s(a, b, d) <= FX_MAX,
{
    assert(a * b >= 0) by (nonlinear_arith)
        requires
            a >= 0,
            b >= 0,
    ;
    vstd::arithmetic::div_mod::lemma_div_pos_is_pos(a * b, d);
}

/// Magnitude of a scalar, as an unsigned machine word.
pub fn fx_abs(a: i64) -> (r: u64)
    requires
        in_fx(a as int),
    ensures
        r == abs_s(a as int),
{
    if a < 0 {
        (-a) as u64
    } else {
        a as u64
    }
}

/// Saturating addition.
pub fn fadd(a: i64, b: i64) -> (r: i64)
    requires
        in_fx(a as int),
        in_fx(b as int),
    ensures
        r == fadd_s(a as int, b as int),
        in_fx(r as int),
{
    let s: i128 = a as i128 + b as i128;
    if s > FX_MAX as i128 {
        FX_MAX
    } else if s < -(FX_MAX as i128) {
        -FX_MAX
    } else {
        s as i64
    }
}

/// Saturating subtraction.
pub fn fsub(a: i64, b: i64) -> (r: i64)
    requires
        in_fx(a as int),
        in_fx(b as int),
    ensures
        r == fsub_s(a as int, b as int),
        in_fx(r as int),
{
    let s: i128 = a as i128 - b as i128;
    if s > FX_MAX as i128 {
        FX_MAX
    } else if s < -(FX_MAX as i128) {
        -FX_MAX
    } else {
        s as i64
    }
}

/// The product of two integers has the product of their magnitudes, with
/// the sign given by the signs of the factors.
proof fn lemma_mul_abs(a: int, b: int)
    ensures
        abs_s(a * b) == abs_s(a) * abs_s(b),
        (a * b < 0) <==> ((a < 0) != (b < 0) && a != 0 && b != 0),
{
    if a >= 0 && b >= 0 {
        assert(a * b >= 0) by (nonlinear_arith)
            requires
                a >= 0,
                b >= 0,
        ;
    } else if a < 0 && b >= 0 {
        assert(a * b == -((-a) * b) && (-a) * b >= 0) by (nonlinear_arith)
            requires
                a < 0,
                b >= 0,
        ;
        assert(b != 0 ==> (-a) * b > 0) by (nonlinear_arith)
            requires
                a < 0,
                b >= 0,
        ;
    } else if a >= 0 && b < 0 {
        assert(a * b == -(a * (-b)) && a * (-b) >= 0) by (nonlinear_arith)
            requires
                a >= 0,
                b < 0,
        ;
        assert(a != 0 ==> a * (-b) > 0) by (nonlinear_arith)
            requires
                a >= 0,
                b < 0,
        ;
    } else {
        assert(a * b == (-a) * (-b) && (-a) * (-b) > 0) by (nonlinear_arith)
            requires
                a < 0,
                b < 0,
        ;
    }
}


/// Floor division by a positive divisor undershoots the dividend.
pub proof fn lemma_div_mul_le(p: int, d: int)
    requires
        p >= 0,
        d >= 1,
    ensures
        (p / d) * d <= p,
        0 <= p / d,
{
    vstd::arithmetic::div_mod::lemma_remainder_lower(p, d);
    vstd::arithmetic::div_mod::lemma_div_pos_is_pos(p, d);
}

/// A saturating multiply-divide whose first factor is smaller in
/// magnitude than the divisor never saturates, and its magnitude is the
/// floor quotient of the magnitudes.
pub proof fn lemma_muldiv_small(a: int, b: int, d: int)
    requires
        0 <= b,
        b <= FX_MAX,
        d >= 1,
        abs_s(a) < d,
    ensures
        muldiv_s(a, b, d) == tdiv(a * b, d),
        abs_s(muldiv_s(a, b, d)) == (abs_s(a) * b) / d,
        abs_s(muldiv_s(a, b, d)) <= b,
{
    lemma_mul_abs(a, b);
    let aa = abs_s(a);
    let ap = aa * b;
    assert(ap <= d * b) by (nonlinear_arith)
        requires
            ap == aa * b,
            0 <= aa,
            aa <= d,
            0 <= b,
    ;
    vstd::arithmetic::div_mod::lemma_multiply_divide_le(ap, d, b);
    vstd::arithmetic::div_mod::lemma_div_pos_is_pos(ap, d);
    if a * b >= 0 {
        assert(abs_s(a * b) == a * b);
        assert(tdiv(a * b, d) == ap / d);
    } else {
        assert(-(a * b) == ap);
        assert(tdiv(a * b, d) == -(ap / d));
    }
}

/// Shared core of the saturating multiply-divide operations: magnitudes
/// are multiplied, divided, clamped, and re-signed.
fn muldiv_core(a: i64, b: i64, d: u64) -> (r: i64)
    requires
        in_fx(a as int),
        in_fx(b as int),
        d >= 1,
    ensures
        r == muldiv_s(a as int, b as int, d as int),
        in_fx(r as int),
{
    let neg: bool = (a < 0) != (b < 0);
    let ua: u128 = fx_abs(a) as u128;
    let ub: u128 = fx_abs(b) as u128;
    proof {
        assert(ua * ub < 0x1_0000_0000_0000_0000_0000_0000_0000_0000) by (nonlinear_arith)
            requires
                ua <= 0x4000_0000_0000_0000,
                ub <= 0x4000_0000_0000_0000,
        ;
    }
    let p: u128 = ua * ub;
    let q: u128 = p / (d as u128);
    let qc: u64 = if q > FX_MAX as u128 {
        FX_MAX as u64
    } else {
        q as u64
    };
    let r: i64 = if neg {
        -(qc as i64)
    } else {
        qc as i64
    };
    proof {
        let ai = a as int;
        let bi = b as int;
        let di = d as int;
        lemma_mul_abs(ai, bi);
        assert(p == abs_s(ai) * abs_s(bi));
        assert(q == abs_s(ai * bi) / di);
        if ai * bi >= 0 {
            assert(tdiv(ai * bi, di) == q);
            assert(!neg || q == 0) by {
                if neg {
                    assert(ai == 0 || bi == 0);
                    assert(abs_s(ai * bi) == 0);
                }
            }
        } else {
            assert(tdiv(ai * bi, di) == -(q as int));
            assert(neg);
        }
        assert(r == sat64(tdiv(ai * bi, di)));
    }
    r
}

/// Saturating fixed-point product, truncated toward zero.
pub fn fmul(a: i64, b: i64) -> (r: i64)
    requires
        in_fx(a as int),
        in_fx(b as int),
    ensures
        r == fmul_s(a as int, b as int),
        in_fx(r as int),
{
    muldiv_core(a, b, SCALE as u64)
}

/// Saturating product with a positive divisor, truncated toward zero.
pub fn fmuldiv(a: i64, b: i64, d: u64) -> (r: i64)
    requires
        in_fx(a as int),
        in_fx(b as int),
        d >= 1,
    ensures
        r == muldiv_s(a as int, b as int, d as int),
        in_fx(r as int),
{
    muldiv_core(a, b, d)
}

/// Floor square root.
pub fn isqrt(n: u128) -> (r: u64)
    ensures
        r as int == isqrt_s(n as int),
        (r as int) * (r as int) <= n as int,
        (n as int) < (r as int + 1) * (r as int + 1),
{
    let mut lo: u64 = 0;
    let mut hi: u64 = u64::MAX;
    proof {
        assert((hi as int + 1) * (hi as int + 1) > n as int) by (nonlinear_arith)
            requires
                hi as int + 1 == 0x1_0000_0000_0000_0000,
                (n as int) < 0x1_0000_0000_0000_0000_0000_0000_0000_0000,
        ;
    }
    while lo < hi
        invariant
            lo <= hi,
            (lo as int) * (lo as int) <= n as int,
            (n as int) < (hi as int + 1) * (hi as int + 1),
        decreases hi - lo,
    {
        let mid: u64 = hi - (hi - lo) / 2;
        proof {
            assert((mid as int) * (mid as int) < 0x1_0000_0000_0000_0000_0000_0000_0000_0000)
                by (nonlinear_arith)
                requires
                    (mid as int) < 0x1_0000_0000_0000_0000,
            ;
        }
        let m2: u128 = (mid as u128) * (mid as u128);
        if m2 <= n {
            lo = mid;
        } else {
            hi = mid - 1;
        }
    }
    proof {
        lemma_isqrt_unique(n as int, lo as int);
    }
    lo
}

} // verus!
