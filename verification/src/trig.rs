//! Fixed-point trigonometry.
//!
//! The simulation needs three ingredients: the sine and cosine that turn a
//! heading into a unit velocity, and the inverse tangent that turns an
//! accumulated displacement back into an angle. All three are rational
//! approximations evaluated exactly in `i64` arithmetic, so each executable
//! function returns precisely the value of its spec-level mirror.
//!
//! `sin_half` is the classical rational approximation of the sine on
//! `[0, pi]`, `16 x (pi - x) / (5 pi^2 - 4 x (pi - x))`, which is exact at
//! `0`, `pi / 2` and `pi`; the full sine extends it oddly and the cosine is
//! the sine shifted a quarter turn. `atan_unit` is the quadratic
//! approximation `z (pi / 4) + c z (1 - z)` of the inverse tangent on
//! `[0, 1]`, and `atan2_approx` reduces a general quadrant to it.

use vstd::prelude::*;

verus! {

use crate::fixed::FP_SCALE;
use crate::fixed::HALF_PI_FP;
use crate::fixed::PI_FP;
use crate::fixed::is_normalized;
use crate::fixed::norm_angle;
use crate::fixed::normalize_angle;
use vstd::arithmetic::div_mod::lemma_div_is_ordered;
use vstd::arithmetic::div_mod::lemma_div_multiples_vanish;
use vstd::arithmetic::div_mod::lemma_div_pos_is_pos;
use vstd::arithmetic::div_mod::lemma_fundamental_div_mod;
use vstd::arithmetic::div_mod::lemma_mod_bound;
use vstd::arithmetic::mul::lemma_mul_inequality;

/// Fixed-point value of pi over four, exactly a quarter of `PI_FP`.
pub const QUARTER_PI_FP: i64 = 7_854;

/// Curvature coefficient of the inverse-tangent approximation (0.273).
pub const ATAN_C_FP: i64 = 2_730;

/// Magnitude bound on the arguments of `atan2_fp`, far above anything the
/// simulation forms, low enough that rescaling by `FP_SCALE` fits in `i64`.
pub const ATAN2_ARG_LIMIT: i64 = 100_000_000_000_000;

/// Sine on the half period `[0, PI_FP]`, scaled by `FP_SCALE`.
pub open spec fn sin_half(x: int) -> int {
    let p = x * (PI_FP - x);
    (16 * p * FP_SCALE) / (5 * PI_FP * PI_FP - 4 * p)
}

/// Sine of a normalized angle, scaled by `FP_SCALE`: the odd extension of
/// `sin_half` to `(-PI_FP, PI_FP]`.
pub open spec fn sin_approx(a: int) -> int {
    if a >= 0 {
        sin_half(a)
    } else {
        -sin_half(-a)
    }
}

/// Cosine of an angle, scaled by `FP_SCALE`: the sine a quarter turn ahead.
pub open spec fn cos_approx(a: int) -> int {
    sin_approx(norm_angle(a + HALF_PI_FP))
}

/// Inverse tangent on slopes `z` in `[0, FP_SCALE]` (that is, on `[0, 1]`),
/// scaled by `FP_SCALE`.
pub open spec fn atan_unit(z: int) -> int {
    let q = QUARTER_PI_FP + (ATAN_C_FP * (FP_SCALE - z)) / (FP_SCALE as int);
    (z * q) / (FP_SCALE as int)
}

/// Four-quadrant inverse tangent of `y / x` before the final
/// renormalization: octant reduction to `atan_unit`.
pub open spec fn atan2_raw(y: int, x: int) -> int {
    let ax = if x >= 0 { x } else { -x };
    let ay = if y >= 0 { y } else { -y };
    if ax >= ay {
        let t = atan_unit((ay * FP_SCALE) / ax);
        if x >= 0 {
            if y >= 0 { t } else { -t }
        } else {
            if y >= 0 { PI_FP - t } else { -(PI_FP - t) }
        }
    } else {
        let t = atan_unit((ax * FP_SCALE) / ay);
        if y >= 0 {
            HALF_PI_FP - t
        } else {
            -(HALF_PI_FP - t)
        }
    }
}

/// Four-quadrant inverse tangent of `y / x`, as a normalized angle. The
/// convention is the usual one: zero along the positive `x` axis, a quarter
/// turn at the positive `y` axis, a half turn along the negative `x` axis.
pub open spec fn atan2_approx(y: int, x: int) -> int {
    norm_angle(atan2_raw(y, x))
}

/// `sin_half` stays within `[0, FP_SCALE]` on its half period.
pub proof fn lemma_sin_half_range(x: int)
    requires
        0 <= x <= PI_FP,
    ensures
        0 <= sin_half(x) <= FP_SCALE,
{
    let p = x * (PI_FP - x);
    let n = 16 * p * FP_SCALE;
    let d = 5 * PI_FP * PI_FP - 4 * p;
    assert(0 <= p && 4 * p <= PI_FP * PI_FP) by (nonlinear_arith)
        requires
            0 <= x <= PI_FP,
            p == x * (PI_FP - x),
    ;
    assert(d >= 4 * PI_FP * PI_FP);
    lemma_div_pos_is_pos(n, d);
    assert(n <= d * FP_SCALE) by (nonlinear_arith)
        requires
            16 * p <= d,
            n == 16 * p * FP_SCALE,
            FP_SCALE > 0,
    ;
    lemma_div_is_ordered(n, d * FP_SCALE, d);
    lemma_div_multiples_vanish(FP_SCALE as int, d);
}

/// `atan_unit` stays within `[0, QUARTER_PI_FP]` on slopes in `[0, 1]`.
pub proof fn lemma_atan_unit_range(z: int)
    requires
        0 <= z <= FP_SCALE,
    ensures
        0 <= atan_unit(z) <= QUARTER_PI_FP,
{
    let w = FP_SCALE - z;
    let f = (ATAN_C_FP * w) / (FP_SCALE as int);
    let q = QUARTER_PI_FP + f;
    lemma_div_pos_is_pos(ATAN_C_FP * w, FP_SCALE as int);
    lemma_fundamental_div_mod(ATAN_C_FP * w, FP_SCALE as int);
    lemma_mod_bound(ATAN_C_FP * w, FP_SCALE as int);
    assert(FP_SCALE * f <= ATAN_C_FP * w);
    lemma_mul_inequality(z, FP_SCALE as int, f);
    assert(z * q == QUARTER_PI_FP * z + z * f) by (nonlinear_arith)
        requires
            q == QUARTER_PI_FP + f,
    ;
    assert(ATAN_C_FP * w <= QUARTER_PI_FP * w);
    assert(z * q <= QUARTER_PI_FP * FP_SCALE);
    lemma_div_pos_is_pos(z * q, FP_SCALE as int);
    lemma_div_is_ordered(z * q, QUARTER_PI_FP * FP_SCALE, FP_SCALE as int);
    lemma_div_multiples_vanish(QUARTER_PI_FP as int, FP_SCALE as int);
}

/// The sine approximation of a normalized angle stays within one unit.
pub proof fn lemma_sin_approx_range(a: int)
    requires
        is_normalized(a),
    ensures
        -FP_SCALE <= sin_approx(a) <= FP_SCALE,
{
    if a >= 0 {
        lemma_sin_half_range(a);
    } else {
        lemma_sin_half_range(-a);
    }
}

/// The cosine approximation of any angle stays within one unit.
pub proof fn lemma_cos_approx_range(a: int)
    ensures
        -FP_SCALE <= cos_approx(a) <= FP_SCALE,
{
    crate::fixed::lemma_norm_angle_range(a + HALF_PI_FP);
    lemma_sin_approx_range(norm_angle(a + HALF_PI_FP));
}

/// Sine of a normalized angle, scaled by `FP_SCALE`.
pub fn sin_fp(a: i64) -> (r: i64)
    requires
        is_normalized(a as int),
    ensures
        r == sin_approx(a as int),
        -FP_SCALE <= r <= FP_SCALE,
{
    let x: i64 = if a >= 0 { a } else { -a };
    proof {
        assert(0 <= x * (PI_FP - x) <= PI_FP * PI_FP) by (nonlinear_arith)
            requires
                0 <= x <= PI_FP,
        ;
        lemma_sin_half_range(x as int);
    }
    let p: i64 = x * (PI_FP - x);
    let n: i64 = 16 * p * FP_SCALE;
    let d: i64 = 5 * PI_FP * PI_FP - 4 * p;
    let s: i64 = n / d;
    if a >= 0 {
        s
    } else {
        -s
    }
}

/// Cosine of a normalized angle, scaled by `FP_SCALE`.
pub fn cos_fp(a: i64) -> (r: i64)
    requires
        is_normalized(a as int),
    ensures
        r == cos_approx(a as int),
        -FP_SCALE <= r <= FP_SCALE,
{
    let shifted: i64 = normalize_angle(a + HALF_PI_FP);
    sin_fp(shifted)
}

/// Four-quadrant inverse tangent of `y / x`, as a normalized angle.
/// The one input without a direction, the origin, is excluded; callers
/// test for it before calling (a zero accumulator means no adjustment).
pub fn atan2_fp(y: i64, x: i64) -> (r: i64)
    requires
        -ATAN2_ARG_LIMIT <= y <= ATAN2_ARG_LIMIT,
        -ATAN2_ARG_LIMIT <= x <= ATAN2_ARG_LIMIT,
        !(y == 0 && x == 0),
    ensures
        r == atan2_approx(y as int, x as int),
        is_normalized(r as int),
{
    let ax: i64 = if x >= 0 { x } else { -x };
    let ay: i64 = if y >= 0 { y } else { -y };
    let raw: i64 = if ax >= ay {
        let z: i64 = (ay * FP_SCALE) / ax;
        proof {
            lemma_div_pos_is_pos(ay * FP_SCALE, ax as int);
            assert(ay * FP_SCALE <= ax * FP_SCALE) by (nonlinear_arith)
                requires
                    ay <= ax,
                    FP_SCALE > 0,
            ;
            lemma_div_is_ordered(ay * FP_SCALE, ax * FP_SCALE, ax as int);
            lemma_div_multiples_vanish(FP_SCALE as int, ax as int);
            lemma_atan_unit_range(z as int);
        }
        let t: i64 = atan_unit_fp(z);
        if x >= 0 {
            if y >= 0 { t } else { -t }
        } else {
            if y >= 0 { PI_FP - t } else { -(PI_FP - t) }
        }
    } else {
        let z: i64 = (ax * FP_SCALE) / ay;
        proof {
            lemma_div_pos_is_pos(ax * FP_SCALE, ay as int);
            assert(ax * FP_SCALE <= ay * FP_SCALE) by (nonlinear_arith)
                requires
                    ax <= ay,
                    FP_SCALE > 0,
            ;
            lemma_div_is_ordered(ax * FP_SCALE, ay * FP_SCALE, ay as int);
            lemma_div_multiples_vanish(FP_SCALE as int, ay as int);
            lemma_atan_unit_range(z as int);
        }
        let t: i64 = atan_unit_fp(z);
        if y >= 0 {
            HALF_PI_FP - t
        } else {
            -(HALF_PI_FP - t)
        }
    };
    normalize_angle(raw)
}

/// Inverse tangent on slopes in `[0, 1]`, scaled by `FP_SCALE`.
fn atan_unit_fp(z: i64) -> (r: i64)
    requires
        0 <= z <= FP_SCALE,
    ensures
        r == atan_unit(z as int),
        0 <= r <= QUARTER_PI_FP,
{
    proof {
        lemma_atan_unit_range(z as int);
        lemma_div_pos_is_pos(ATAN_C_FP * (FP_SCALE - z), FP_SCALE as int);
        lemma_div_is_ordered(
            ATAN_C_FP * (FP_SCALE - z),
            ATAN_C_FP * FP_SCALE,
            FP_SCALE as int,
        );
        lemma_div_multiples_vanish(ATAN_C_FP as int, FP_SCALE as int);
        assert(ATAN_C_FP * (FP_SCALE - z) <= ATAN_C_FP * FP_SCALE) by (nonlinear_arith)
            requires
                0 <= z,
        ;
    }
    let q: i64 = QUARTER_PI_FP + (ATAN_C_FP * (FP_SCALE - z)) / FP_SCALE;
    (z * q) / FP_SCALE
}

} // verus!
