//! A single agent and its per-tick kinematics.
//!
//! An agent is a position on the plane, a heading and a speed, all
//! fixed-point scalars. Heading `0` points along the positive `y` axis and
//! grows toward the positive `x` axis: one step moves the agent by
//! `speed * sin(heading)` in `x` and `speed * cos(heading)` in `y`. The
//! boundary constraint clamps an escaping agent onto the arena edge and
//! reflects the violated velocity component, recomputing the heading from
//! the reflected velocity.

use vstd::prelude::*;

verus! {

use crate::fixed::FP_LIMIT;
use crate::fixed::FP_SCALE;
use crate::fixed::PI_FP;
use crate::fixed::fp_mul;
use crate::fixed::is_normalized;
use crate::fixed::norm_angle;
use crate::fixed::normalize_angle;
use crate::trig::atan2_approx;
use crate::trig::atan2_fp;
use crate::trig::cos_approx;
use crate::trig::cos_fp;
use crate::trig::sin_approx;
use crate::trig::sin_fp;
use vstd::arithmetic::div_mod::lemma_div_is_ordered;
use vstd::arithmetic::div_mod::lemma_div_multiples_vanish;
use vstd::arithmetic::mul::lemma_mul_inequality;

/// Largest accepted speed, in fixed-point distance per tick.
pub const MAX_SPEED_FP: i64 = 1_000_000_000;

/// Largest accepted coordinate magnitude for positions and arena
/// half-extents. Far beyond any sensible arena, yet small enough that
/// population-wide position sums stay within `i64`.
pub const POS_LIMIT_FP: i64 = 1_000_000_000_000;

/// One simulated agent (a boid).
#[derive(Clone, Copy, PartialEq, Eq, Structural, Debug)]
pub struct Agent {
    /// Arena-relative `x` coordinate, fixed-point, origin at the center.
    pub posx: i64,
    /// Arena-relative `y` coordinate, fixed-point, origin at the center.
    pub posy: i64,
    /// Direction of travel in fixed-point radians, normalized to
    /// `(-PI_FP, PI_FP]`; `0` points along the positive `y` axis.
    pub heading: i64,
    /// Non-negative fixed-point distance travelled per tick.
    pub speed: i64,
}

impl Agent {
    /// The agent invariant: a normalized heading and a speed that is
    /// neither negative nor beyond the accepted maximum.
    pub open spec fn wf(self) -> bool {
        &&& is_normalized(self.heading as int)
        &&& 0 <= self.speed <= MAX_SPEED_FP
    }

    /// Both coordinates lie within magnitude `m`.
    pub open spec fn pos_within(self, m: int) -> bool {
        &&& -m <= self.posx <= m
        &&& -m <= self.posy <= m
    }
}

/// The `x` velocity component `speed * sin(heading)`, rescaled.
pub open spec fn vel_x(a: Agent) -> int {
    (a.speed * sin_approx(a.heading as int)) / (FP_SCALE as int)
}

/// The `y` velocity component `speed * cos(heading)`, rescaled.
pub open spec fn vel_y(a: Agent) -> int {
    (a.speed * cos_approx(a.heading as int)) / (FP_SCALE as int)
}

/// What one kinematic step makes of an agent: the position advanced by the
/// velocity, the heading perturbed by the jitter and renormalized.
pub open spec fn kin_spec(a: Agent, jitter: int) -> Agent {
    Agent {
        posx: (a.posx + vel_x(a)) as i64,
        posy: (a.posy + vel_y(a)) as i64,
        heading: norm_angle(a.heading + jitter) as i64,
        speed: a.speed,
    }
}

/// A coordinate clamped onto `[-half, half]`; only values at or past an
/// edge move, and only onto that edge.
pub open spec fn clamp_coord(p: int, half: int) -> int {
    if p >= half {
        half
    } else if p <= -half {
        -half
    } else {
        p
    }
}

/// Whether a coordinate lies at or past an arena edge, so that the
/// boundary constraint reflects the matching velocity component.
pub open spec fn hits_bound(p: int, half: int) -> bool {
    p >= half || p <= -half
}

/// The `x` velocity component after boundary handling: reflected exactly
/// when the `x` coordinate lies at or past an edge.
pub open spec fn bounce_vel_x(a: Agent, hw: int) -> int {
    if hits_bound(a.posx as int, hw) {
        -vel_x(a)
    } else {
        vel_x(a)
    }
}

/// The `y` velocity component after boundary handling: reflected exactly
/// when the `y` coordinate lies at or past an edge.
pub open spec fn bounce_vel_y(a: Agent, hh: int) -> int {
    if hits_bound(a.posy as int, hh) {
        -vel_y(a)
    } else {
        vel_y(a)
    }
}

/// What the boundary constraint makes of an agent: coordinates clamped
/// onto the arena, each violated velocity component negated, and the
/// heading recomputed from the reflected velocity. A velocity that rounds
/// to the zero vector carries no direction and leaves the heading alone.
pub open spec fn constrain_spec(a: Agent, hw: int, hh: int) -> Agent {
    let vx = bounce_vel_x(a, hw);
    let vy = bounce_vel_y(a, hh);
    let h = if vx == 0 && vy == 0 { a.heading as int } else { atan2_approx(vx, vy) };
    Agent {
        posx: clamp_coord(a.posx as int, hw) as i64,
        posy: clamp_coord(a.posy as int, hh) as i64,
        heading: h as i64,
        speed: a.speed,
    }
}

/// Law of the boundary clamp: an agent at or past the positive `x` edge
/// leaves `constrain_position` exactly on that edge, with the sign of its
/// `x` velocity component flipped relative to before the call.
pub proof fn lemma_boundary_clamp(a: Agent, hw: int, hh: int)
    requires
        a.posx >= hw,
        0 <= hw <= POS_LIMIT_FP,
    ensures
        constrain_spec(a, hw, hh).posx == hw,
        bounce_vel_x(a, hw) == -vel_x(a),
{
}

/// A velocity component of a well-formed agent is at most the speed in
/// magnitude: `|speed * t / FP_SCALE| <= speed` whenever `|t| <= FP_SCALE`.
pub proof fn lemma_vel_bound(speed: int, t: int)
    requires
        0 <= speed,
        -FP_SCALE <= t <= FP_SCALE,
    ensures
        -speed <= (speed * t) / (FP_SCALE as int) <= speed,
{
    lemma_mul_inequality(t, FP_SCALE as int, speed);
    lemma_mul_inequality(-(FP_SCALE as int), t, speed);
    assert(speed * t == t * speed && speed * FP_SCALE == FP_SCALE * speed
        && (-(FP_SCALE as int)) * speed == -(FP_SCALE * speed)) by (nonlinear_arith);
    lemma_div_is_ordered(-(FP_SCALE as int) * speed, speed * t, FP_SCALE as int);
    lemma_div_is_ordered(speed * t, FP_SCALE * speed, FP_SCALE as int);
    lemma_div_multiples_vanish(speed, FP_SCALE as int);
    lemma_div_multiples_vanish(-speed, FP_SCALE as int);
    assert((-(FP_SCALE as int)) * speed == FP_SCALE * (-speed)) by (nonlinear_arith);
}

impl Agent {
    /// Advances the position one tick along the heading and perturbs the
    /// heading by the supplied jitter, renormalizing it. The jitter is the
    /// caller's randomness, injected as a plain value; zero disables it.
    pub fn update_position(&mut self, jitter: i64)
        requires
            old(self).wf(),
            old(self).pos_within(POS_LIMIT_FP as int),
            -PI_FP <= jitter <= PI_FP,
        ensures
            *final(self) == kin_spec(*old(self), jitter as int),
            final(self).wf(),
            final(self).pos_within(POS_LIMIT_FP + MAX_SPEED_FP),
            final(self).speed == old(self).speed,
    {
        let s: i64 = sin_fp(self.heading);
        let c: i64 = cos_fp(self.heading);
        proof {
            assert(-FP_LIMIT <= self.speed * s <= FP_LIMIT && -FP_LIMIT <= self.speed * c
                <= FP_LIMIT) by (nonlinear_arith)
                requires
                    0 <= self.speed <= MAX_SPEED_FP,
                    -FP_SCALE <= s <= FP_SCALE,
                    -FP_SCALE <= c <= FP_SCALE,
            ;
            lemma_vel_bound(self.speed as int, s as int);
            lemma_vel_bound(self.speed as int, c as int);
        }
        let dx: i64 = fp_mul(self.speed, s);
        let dy: i64 = fp_mul(self.speed, c);
        self.posx = self.posx + dx;
        self.posy = self.posy + dy;
        self.heading = normalize_angle(self.heading + jitter);
    }

    /// Clamps the agent into the arena given by its half-extents,
    /// reflecting the velocity component of each violated axis, and
    /// recomputes the heading from the reflected velocity. A corner hit
    /// reflects both components in the same call.
    pub fn constrain_position(&mut self, half_width: i64, half_height: i64)
        requires
            old(self).wf(),
            old(self).pos_within(POS_LIMIT_FP + MAX_SPEED_FP),
            0 <= half_width <= POS_LIMIT_FP,
            0 <= half_height <= POS_LIMIT_FP,
        ensures
            *final(self) == constrain_spec(*old(self), half_width as int, half_height as int),
            final(self).wf(),
            final(self).pos_within(POS_LIMIT_FP as int),
            -half_width <= final(self).posx <= half_width,
            -half_height <= final(self).posy <= half_height,
            final(self).speed == old(self).speed,
    {
        let s: i64 = sin_fp(self.heading);
        let c: i64 = cos_fp(self.heading);
        proof {
            assert(-FP_LIMIT <= self.speed * s <= FP_LIMIT && -FP_LIMIT <= self.speed * c
                <= FP_LIMIT) by (nonlinear_arith)
                requires
                    0 <= self.speed <= MAX_SPEED_FP,
                    -FP_SCALE <= s <= FP_SCALE,
                    -FP_SCALE <= c <= FP_SCALE,
            ;
            lemma_vel_bound(self.speed as int, s as int);
            lemma_vel_bound(self.speed as int, c as int);
        }
        let mut vx: i64 = fp_mul(self.speed, s);
        let mut vy: i64 = fp_mul(self.speed, c);
        if self.posx >= half_width {
            self.posx = half_width;
            vx = -vx;
        } else if self.posx <= -half_width {
            self.posx = -half_width;
            vx = -vx;
        }
        if self.posy >= half_height {
            self.posy = half_height;
            vy = -vy;
        } else if self.posy <= -half_height {
            self.posy = -half_height;
            vy = -vy;
        }
        if !(vx == 0 && vy == 0) {
            self.heading = atan2_fp(vx, vy);
        }
    }
}

} // verus!
