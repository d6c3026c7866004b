//! Fixed-point scalars and angle arithmetic.
//!
//! A scalar is an `i64` counting units of `1 / FP_SCALE`, so `FP_SCALE`
//! stands for `1.0`. Angles are radians in the same representation; `PI_FP`
//! is the fixed-point value of pi, and a normalized angle lies in the
//! half-open interval `(-PI_FP, PI_FP]`.

use vstd::prelude::*;

verus! {

use vstd::arithmetic::div_mod::lemma_fundamental_div_mod;
use vstd::arithmetic::div_mod::lemma_fundamental_div_mod_converse;
use vstd::arithmetic::div_mod::lemma_div_multiples_vanish;
use vstd::arithmetic::div_mod::lemma_mod_add_multiples_vanish;
use vstd::arithmetic::div_mod::lemma_mod_bound;
use vstd::arithmetic::div_mod::lemma_small_mod;
use vstd::arithmetic::mul::lemma_mul_inequality;

/// Fixed-point representation of `1.0`.
pub const FP_SCALE: i64 = 10_000;

/// Fixed-point value of pi (rounded to the nearest representable scalar).
pub const PI_FP: i64 = 31_416;

/// Fixed-point value of two pi, exactly twice `PI_FP`.
pub const TWO_PI_FP: i64 = 62_832;

/// Fixed-point value of pi over two, exactly half of `PI_FP`.
pub const HALF_PI_FP: i64 = 15_708;

/// Magnitude bound under which fixed-point intermediates are accepted;
/// large enough for every quantity the simulation forms, small enough
/// that sums and shifts of such values stay within `i64`.
pub const FP_LIMIT: i64 = 0x2000_0000_0000_0000;

/// An angle is normalized when it lies in `(-PI_FP, PI_FP]`.
pub open spec fn is_normalized(a: int) -> bool {
    -PI_FP < a <= PI_FP
}

/// The normalization of an arbitrary angle into `(-PI_FP, PI_FP]`: the
/// unique representative of `a` modulo one full turn in that interval.
pub open spec fn norm_angle(a: int) -> int {
    PI_FP - (PI_FP - a) % (TWO_PI_FP as int)
}

/// Every normalized angle lies in `(-PI_FP, PI_FP]`.
pub proof fn lemma_norm_angle_range(a: int)
    ensures
        is_normalized(norm_angle(a)),
{
    lemma_mod_bound(PI_FP - a, TWO_PI_FP as int);
}

/// Normalization is invariant under shifting by a full turn.
pub proof fn lemma_norm_angle_shift(a: int)
    ensures
        norm_angle(a + TWO_PI_FP) == norm_angle(a),
        norm_angle(a - TWO_PI_FP) == norm_angle(a),
{
    lemma_mod_add_multiples_vanish(PI_FP - (a + TWO_PI_FP), TWO_PI_FP as int);
    lemma_mod_add_multiples_vanish(PI_FP - a, TWO_PI_FP as int);
}

/// An already normalized angle is its own normalization.
pub proof fn lemma_norm_angle_fixpoint(a: int)
    requires
        is_normalized(a),
    ensures
        norm_angle(a) == a,
{
    lemma_small_mod((PI_FP - a) as nat, TWO_PI_FP as nat);
}

/// Renormalizes an angle into `(-PI_FP, PI_FP]` by whole turns, the
/// fixed-point form of `((a + pi) mod 2 pi) - pi` with a Euclidean
/// remainder and the upper endpoint kept in place of the lower.
pub fn normalize_angle(a: i64) -> (r: i64)
    requires
        -FP_LIMIT <= a <= FP_LIMIT,
    ensures
        r == norm_angle(a as int),
        is_normalized(r as int),
{
    let mut t: i64 = a;
    while t > PI_FP
        invariant
            -FP_LIMIT <= t <= FP_LIMIT,
            norm_angle(t as int) == norm_angle(a as int),
        decreases t + FP_LIMIT,
    {
        proof {
            lemma_norm_angle_shift(t - TWO_PI_FP);
        }
        t = t - TWO_PI_FP;
    }
    while t <= -PI_FP
        invariant
            -FP_LIMIT <= t <= PI_FP,
            norm_angle(t as int) == norm_angle(a as int),
        decreases FP_LIMIT - t,
    {
        proof {
            lemma_norm_angle_shift(t as int);
        }
        t = t + TWO_PI_FP;
    }
    proof {
        lemma_norm_angle_fixpoint(t as int);
    }
    t
}

/// Flooring division by a positive divisor never grows a value's
/// magnitude bound.
pub proof fn lemma_div_magnitude(x: int, m: int, d: int)
    requires
        0 <= m,
        -m <= x <= m,
        1 <= d,
    ensures
        -m <= x / d <= m,
{
    lemma_mul_inequality(1, d, m);
    assert(d * m == m * d && d * (-m) == -(m * d)) by (nonlinear_arith);
    lemma_div_multiples_vanish(m, d);
    lemma_div_multiples_vanish(-m, d);
    vstd::arithmetic::div_mod::lemma_div_is_ordered(d * (-m), x, d);
    vstd::arithmetic::div_mod::lemma_div_is_ordered(x, d * m, d);
}

/// Flooring division by a positive divisor: the fixed-point `/` used
/// throughout, agreeing with the Euclidean `/` of specifications.
pub fn floor_div(a: i64, b: i64) -> (r: i64)
    requires
        0 < b <= FP_LIMIT,
        -FP_LIMIT <= a <= FP_LIMIT,
    ensures
        r == a as int / b as int,
{
    if a >= 0 {
        a / b
    } else {
        let q: i64 = (-a + (b - 1)) / b;
        proof {
            let qi = (-a + (b - 1)) as int / b as int;
            let ri = (-a + (b - 1)) as int % b as int;
            lemma_fundamental_div_mod((-a + (b - 1)) as int, b as int);
            assert(a == (-qi) * b + (b - 1 - ri)) by {
                assert((-a + (b - 1)) as int == b * qi + ri);
                assert((-qi) * b == -(b * qi)) by (nonlinear_arith);
            }
            lemma_mod_bound((-a + (b - 1)) as int, b as int);
            lemma_fundamental_div_mod_converse(a as int, b as int, -qi, b - 1 - ri);
            assert(qi <= -a + b - 1) by {
                vstd::arithmetic::div_mod::lemma_div_is_ordered_by_denominator(
                    (-a + (b - 1)) as int, 1, b as int);
            }
        }
        -q
    }
}

/// Fixed-point multiplication: `a * b` rescaled back down by `FP_SCALE`,
/// flooring. The bound on `a * b` keeps the product within `i64`.
pub fn fp_mul(a: i64, b: i64) -> (r: i64)
    requires
        -FP_LIMIT <= a * b <= FP_LIMIT,
    ensures
        r == (a * b) / (FP_SCALE as int),
{
    let p: i64 = a * b;
    floor_div(p, FP_SCALE)
}

} // verus!
