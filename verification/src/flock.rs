//! The flocking rule engine and the population-level passes.
//!
//! Once per tick every agent advances and bounces (`Agent::update_position`,
//! `Agent::constrain_position`), a snapshot of all positions is taken, and
//! every agent steers from that immutable snapshot: close neighbours
//! accumulate a repulsion displacement, visible-but-not-close neighbours a
//! centroid, and the heading is nudged by each accumulator scaled by its
//! gain. A manual override can afterwards turn and accelerate the whole
//! population uniformly. `tick` runs the passes in that order.

use vstd::prelude::*;

verus! {

use crate::agent::Agent;
use crate::agent::MAX_SPEED_FP;
use crate::agent::POS_LIMIT_FP;
use crate::agent::constrain_spec;
use crate::agent::kin_spec;
use crate::agent::lemma_vel_bound;
use crate::fixed::lemma_norm_angle_fixpoint;
use crate::trig::cos_approx;
use crate::trig::lemma_cos_approx_range;
use crate::trig::lemma_sin_approx_range;
use crate::trig::sin_approx;
use crate::fixed::FP_SCALE;
use crate::fixed::PI_FP;
use crate::fixed::TWO_PI_FP;
use crate::fixed::floor_div;
use crate::fixed::fp_mul;
use crate::fixed::lemma_div_magnitude;
use crate::fixed::normalize_angle;
use crate::fixed::norm_angle;
use crate::trig::atan2_approx;
use crate::trig::atan2_fp;
use vstd::arithmetic::div_mod::lemma_div_is_ordered;
use vstd::arithmetic::div_mod::lemma_div_multiples_vanish;

/// Neighbours nearer than this are in separation range (50.0 units).
pub const CLOSE_RADIUS_FP: i64 = 500_000;

/// Neighbours nearer than this but not in separation range contribute to
/// the centroid (100.0 units); farther ones are ignored.
pub const VISIBLE_RADIUS_FP: i64 = 1_000_000;

/// Gain on the separation adjustment (0.05).
pub const SEPARATION_GAIN_FP: i64 = 500;

/// Gain on the alignment-toward-centroid adjustment (0.01).
pub const ALIGNMENT_GAIN_FP: i64 = 100;

/// Largest accepted population, chosen so that population-wide coordinate
/// sums stay within `i64`.
pub const MAX_POP: usize = 1_000_000;

/// How a neighbour's displacement is classified by the rule engine.
#[derive(Clone, Copy, PartialEq, Eq, Structural, Debug)]
pub enum NeighborClass {
    /// Within the separation radius: contributes repulsion.
    Close,
    /// At or past the separation radius but within the visible radius:
    /// contributes to the centroid.
    Visible,
    /// At or past the visible radius: ignored.
    Far,
}

/// The squared Euclidean distance of a displacement.
pub open spec fn dist2(dx: int, dy: int) -> int {
    dx * dx + dy * dy
}

/// A displacement strictly within the separation radius.
pub open spec fn is_close(dx: int, dy: int) -> bool {
    dist2(dx, dy) < CLOSE_RADIUS_FP * CLOSE_RADIUS_FP
}

/// A displacement at or past the separation radius but strictly within the
/// visible radius.
pub open spec fn is_visible(dx: int, dy: int) -> bool {
    !is_close(dx, dy) && dist2(dx, dy) < VISIBLE_RADIUS_FP * VISIBLE_RADIUS_FP
}

/// Classifies a neighbour's displacement against the two radii. The tests
/// compare squared distances, which is exact: `d < r` holds for
/// non-negative quantities exactly when `d * d < r * r`. A displacement at
/// exactly the separation radius is visible, not close.
pub fn classify_neighbor(dx: i64, dy: i64) -> (c: NeighborClass)
    requires
        -4 * POS_LIMIT_FP <= dx <= 4 * POS_LIMIT_FP,
        -4 * POS_LIMIT_FP <= dy <= 4 * POS_LIMIT_FP,
    ensures
        (c == NeighborClass::Close) == is_close(dx as int, dy as int),
        (c == NeighborClass::Visible) == is_visible(dx as int, dy as int),
        (c == NeighborClass::Far) == (!is_close(dx as int, dy as int) && !is_visible(
            dx as int,
            dy as int,
        )),
{
    let adx: i64 = if dx >= 0 { dx } else { -dx };
    let ady: i64 = if dy >= 0 { dy } else { -dy };
    if adx >= VISIBLE_RADIUS_FP || ady >= VISIBLE_RADIUS_FP {
        proof {
            assert(dist2(dx as int, dy as int) >= VISIBLE_RADIUS_FP * VISIBLE_RADIUS_FP)
                by (nonlinear_arith)
                requires
                    adx == (if dx >= 0 { dx as int } else { -dx as int }),
                    ady == (if dy >= 0 { dy as int } else { -dy as int }),
                    adx >= VISIBLE_RADIUS_FP || ady >= VISIBLE_RADIUS_FP,
            ;
        }
        NeighborClass::Far
    } else {
        proof {
            assert(adx * adx + ady * ady == dist2(dx as int, dy as int) && 0 <= adx * adx + ady
                * ady < 2 * VISIBLE_RADIUS_FP * VISIBLE_RADIUS_FP) by (nonlinear_arith)
                requires
                    adx == (if dx >= 0 { dx as int } else { -dx as int }),
                    ady == (if dy >= 0 { dy as int } else { -dy as int }),
                    0 <= adx < VISIBLE_RADIUS_FP,
                    0 <= ady < VISIBLE_RADIUS_FP,
            ;
        }
        let d2: i64 = adx * adx + ady * ady;
        if d2 < CLOSE_RADIUS_FP * CLOSE_RADIUS_FP {
            NeighborClass::Close
        } else if d2 < VISIBLE_RADIUS_FP * VISIBLE_RADIUS_FP {
            NeighborClass::Visible
        } else {
            NeighborClass::Far
        }
    }
}

/// A position pair fit for a snapshot entry: within the coordinate bound
/// plus one tick of travel, which an unconstrained kinematic step can add.
pub open spec fn snap_entry_ok(q: (i64, i64)) -> bool {
    &&& -(POS_LIMIT_FP + MAX_SPEED_FP) <= q.0 <= POS_LIMIT_FP + MAX_SPEED_FP
    &&& -(POS_LIMIT_FP + MAX_SPEED_FP) <= q.1 <= POS_LIMIT_FP + MAX_SPEED_FP
}

/// The accumulators of one steering pass: the summed displacements toward
/// close neighbours, the summed positions of visible neighbours, and how
/// many visible neighbours there were.
pub ghost struct SteerSums {
    /// Sum over close neighbours of their `x` displacement from the agent.
    pub cdx: int,
    /// Sum over close neighbours of their `y` displacement from the agent.
    pub cdy: int,
    /// Sum of the `x` coordinates of visible neighbours.
    pub sumx: int,
    /// Sum of the `y` coordinates of visible neighbours.
    pub sumy: int,
    /// Number of visible neighbours.
    pub count: int,
}

/// The steering accumulators after scanning the first `k` snapshot
/// entries, skipping the agent's own index.
pub open spec fn steer_sums(px: int, py: int, snap: Seq<(i64, i64)>, skip: int, k: int) -> SteerSums
    decreases k,
{
    if k <= 0 {
        SteerSums { cdx: 0, cdy: 0, sumx: 0, sumy: 0, count: 0 }
    } else {
        let s = steer_sums(px, py, snap, skip, k - 1);
        let j = k - 1;
        let qx = snap[j].0 as int;
        let qy = snap[j].1 as int;
        if j == skip {
            s
        } else if is_close(qx - px, qy - py) {
            SteerSums {
                cdx: s.cdx + (qx - px),
                cdy: s.cdy + (qy - py),
                sumx: s.sumx,
                sumy: s.sumy,
                count: s.count,
            }
        } else if is_visible(qx - px, qy - py) {
            SteerSums {
                cdx: s.cdx,
                cdy: s.cdy,
                sumx: s.sumx + qx,
                sumy: s.sumy + qy,
                count: s.count + 1,
            }
        } else {
            s
        }
    }
}

/// The steering accumulators grow by at most one radius, one coordinate
/// bound, and one count per entry scanned.
proof fn lemma_steer_sums_bounds(px: int, py: int, snap: Seq<(i64, i64)>, skip: int, k: int)
    requires
        0 <= k <= snap.len(),
        -(POS_LIMIT_FP + MAX_SPEED_FP) <= px <= POS_LIMIT_FP + MAX_SPEED_FP,
        -(POS_LIMIT_FP + MAX_SPEED_FP) <= py <= POS_LIMIT_FP + MAX_SPEED_FP,
        forall|j: int| 0 <= j < snap.len() ==> snap_entry_ok(#[trigger] snap[j]),
    ensures
        ({
            let s = steer_sums(px, py, snap, skip, k);
            &&& -k * CLOSE_RADIUS_FP <= s.cdx <= k * CLOSE_RADIUS_FP
            &&& -k * CLOSE_RADIUS_FP <= s.cdy <= k * CLOSE_RADIUS_FP
            &&& -(s.count * POS_LIMIT_FP + s.count * MAX_SPEED_FP) <= s.sumx <= s.count
                * POS_LIMIT_FP + s.count * MAX_SPEED_FP
            &&& -(s.count * POS_LIMIT_FP + s.count * MAX_SPEED_FP) <= s.sumy <= s.count
                * POS_LIMIT_FP + s.count * MAX_SPEED_FP
            &&& 0 <= s.count <= k
        }),
    decreases k,
{
    if k > 0 {
        lemma_steer_sums_bounds(px, py, snap, skip, k - 1);
        let j = k - 1;
        let qx = snap[j].0 as int;
        let qy = snap[j].1 as int;
        if j != skip && is_close(qx - px, qy - py) {
            assert(-CLOSE_RADIUS_FP < qx - px < CLOSE_RADIUS_FP && -CLOSE_RADIUS_FP < qy - py
                < CLOSE_RADIUS_FP) by (nonlinear_arith)
                requires
                    (qx - px) * (qx - px) + (qy - py) * (qy - py) < CLOSE_RADIUS_FP
                        * CLOSE_RADIUS_FP,
                    CLOSE_RADIUS_FP > 0,
            ;
        }
    }
}

/// The heading that one steering pass gives an agent: the separation
/// adjustment if any neighbour was close, then the alignment adjustment if
/// any was visible, then renormalization. A zero accumulator carries no
/// direction and makes no adjustment.
pub open spec fn steer_heading(a: Agent, snap: Seq<(i64, i64)>, skip: int) -> int {
    let s = steer_sums(a.posx as int, a.posy as int, snap, skip, snap.len() as int);
    let h1 = if s.cdx != 0 || s.cdy != 0 {
        a.heading + (atan2_approx(s.cdy, s.cdx) * SEPARATION_GAIN_FP) / (FP_SCALE as int)
    } else {
        a.heading as int
    };
    if s.count > 0 {
        let cx = s.sumx / s.count;
        let cy = s.sumy / s.count;
        let dx = cx - a.posx;
        let dy = cy - a.posy;
        if dx == 0 && dy == 0 {
            norm_angle(h1)
        } else {
            let desired = atan2_approx(dy, dx);
            let diff0 = desired - h1;
            let diff = if diff0 > PI_FP {
                diff0 - TWO_PI_FP
            } else if diff0 < -PI_FP {
                diff0 + TWO_PI_FP
            } else {
                diff0
            };
            norm_angle(h1 + (diff * ALIGNMENT_GAIN_FP) / (FP_SCALE as int))
        }
    } else {
        norm_angle(h1)
    }
}

/// What one steering pass makes of an agent: only the heading moves.
pub open spec fn steer_spec(a: Agent, snap: Seq<(i64, i64)>, skip: int) -> Agent {
    Agent {
        posx: a.posx,
        posy: a.posy,
        heading: steer_heading(a, snap, skip) as i64,
        speed: a.speed,
    }
}

/// One steering pass for the agent at `self_index`: scans every other
/// snapshot entry, accumulates repulsion from close neighbours and the
/// centroid of visible ones, and adjusts the heading by both, renormalized.
pub fn compute_steering(agent: &mut Agent, snapshot: &Vec<(i64, i64)>, self_index: usize)
    requires
        old(agent).wf(),
        old(agent).pos_within(POS_LIMIT_FP + MAX_SPEED_FP),
        snapshot@.len() <= MAX_POP,
        forall|j: int| 0 <= j < snapshot@.len() ==> snap_entry_ok(#[trigger] snapshot@[j]),
    ensures
        *final(agent) == steer_spec(*old(agent), snapshot@, self_index as int),
        final(agent).wf(),
        final(agent).posx == old(agent).posx,
        final(agent).posy == old(agent).posy,
        final(agent).speed == old(agent).speed,
{
    let px: i64 = agent.posx;
    let py: i64 = agent.posy;
    let mut cdx: i64 = 0;
    let mut cdy: i64 = 0;
    let mut sumx: i64 = 0;
    let mut sumy: i64 = 0;
    let mut count: i64 = 0;
    let n: usize = snapshot.len();
    let mut j: usize = 0;
    while j < n
        invariant
            n == snapshot@.len(),
            n <= MAX_POP,
            0 <= j <= n,
            px == agent.posx,
            py == agent.posy,
            -(POS_LIMIT_FP + MAX_SPEED_FP) <= px <= POS_LIMIT_FP + MAX_SPEED_FP,
            -(POS_LIMIT_FP + MAX_SPEED_FP) <= py <= POS_LIMIT_FP + MAX_SPEED_FP,
            forall|m: int| 0 <= m < snapshot@.len() ==> snap_entry_ok(#[trigger] snapshot@[m]),
            ({
                let s = steer_sums(px as int, py as int, snapshot@, self_index as int, j as int);
                cdx == s.cdx && cdy == s.cdy && sumx == s.sumx && sumy == s.sumy && count == s.count
            }),
        decreases n - j,
    {
        proof {
            lemma_steer_sums_bounds(px as int, py as int, snapshot@, self_index as int, j as int);
        }
        let q: (i64, i64) = snapshot[j];
        if j != self_index {
            let dx: i64 = q.0 - px;
            let dy: i64 = q.1 - py;
            match classify_neighbor(dx, dy) {
                NeighborClass::Close => {
                    proof {
                        assert(-CLOSE_RADIUS_FP < dx && dx < CLOSE_RADIUS_FP && -CLOSE_RADIUS_FP
                            < dy && dy < CLOSE_RADIUS_FP) by (nonlinear_arith)
                            requires
                                is_close(dx as int, dy as int),
                                CLOSE_RADIUS_FP > 0,
                        ;
                    }
                    cdx = cdx + dx;
                    cdy = cdy + dy;
                },
                NeighborClass::Visible => {
                    sumx = sumx + q.0;
                    sumy = sumy + q.1;
                    count = count + 1;
                },
                NeighborClass::Far => {},
            }
        }
        j = j + 1;
    }
    proof {
        lemma_steer_sums_bounds(px as int, py as int, snapshot@, self_index as int, n as int);
    }
    let mut h: i64 = agent.heading;
    if cdx != 0 || cdy != 0 {
        let t: i64 = atan2_fp(cdy, cdx);
        let adj: i64 = fp_mul(t, SEPARATION_GAIN_FP);
        proof {
            lemma_div_magnitude(t * SEPARATION_GAIN_FP, PI_FP * SEPARATION_GAIN_FP, FP_SCALE as int);
        }
        h = h + adj;
    }
    if count > 0 {
        let cx: i64 = floor_div(sumx, count);
        let cy: i64 = floor_div(sumy, count);
        proof {
            assert(count as int * (POS_LIMIT_FP + MAX_SPEED_FP) == count as int * POS_LIMIT_FP
                + count as int * MAX_SPEED_FP && (-(count as int)) * (POS_LIMIT_FP + MAX_SPEED_FP)
                == -(count as int * POS_LIMIT_FP + count as int * MAX_SPEED_FP))
                by (nonlinear_arith);
            lemma_centroid_bound(sumx as int, count as int, POS_LIMIT_FP + MAX_SPEED_FP);
            lemma_centroid_bound(sumy as int, count as int, POS_LIMIT_FP + MAX_SPEED_FP);
        }
        let dx: i64 = cx - px;
        let dy: i64 = cy - py;
        if !(dx == 0 && dy == 0) {
            let desired: i64 = atan2_fp(dy, dx);
            let mut diff: i64 = desired - h;
            if diff > PI_FP {
                diff = diff - TWO_PI_FP;
            } else if diff < -PI_FP {
                diff = diff + TWO_PI_FP;
            }
            let adj: i64 = fp_mul(diff, ALIGNMENT_GAIN_FP);
            proof {
                lemma_div_magnitude(
                    diff * ALIGNMENT_GAIN_FP,
                    (4 * TWO_PI_FP + 2 * PI_FP * SEPARATION_GAIN_FP) * ALIGNMENT_GAIN_FP,
                    FP_SCALE as int,
                );
            }
            h = h + adj;
        }
    }
    agent.heading = normalize_angle(h);
}

/// What the manual override makes of one agent: the turn added to the
/// heading, which is renormalized, and the speed moved but floored at zero.
pub open spec fn input_spec(a: Agent, turn: int, sd: int) -> Agent {
    Agent {
        posx: a.posx,
        posy: a.posy,
        heading: norm_angle(a.heading + turn) as i64,
        speed: (if a.speed + sd >= 0 {
            a.speed + sd
        } else {
            0
        }) as i64,
    }
}

/// Applies the manual override to every agent in the population: each
/// heading turns by `turn_delta` and is renormalized, each speed moves by
/// `speed_delta` but never below zero. With both deltas zero the
/// population is left exactly as it was.
pub fn apply_input(agents: &mut Vec<Agent>, turn_delta: i64, speed_delta: i64)
    requires
        forall|i: int| 0 <= i < old(agents)@.len() ==> (#[trigger] old(agents)@[i]).wf(),
        -INPUT_DELTA_LIMIT <= turn_delta <= INPUT_DELTA_LIMIT,
        -INPUT_DELTA_LIMIT <= speed_delta <= INPUT_DELTA_LIMIT,
        forall|i: int|
            0 <= i < old(agents)@.len() ==> (#[trigger] old(agents)@[i]).speed + speed_delta
                <= MAX_SPEED_FP,
    ensures
        final(agents)@.len() == old(agents)@.len(),
        forall|i: int|
            0 <= i < final(agents)@.len() ==> final(agents)@[i] == input_spec(
                #[trigger] old(agents)@[i],
                turn_delta as int,
                speed_delta as int,
            ),
        forall|i: int| 0 <= i < final(agents)@.len() ==> (#[trigger] final(agents)@[i]).wf(),
        turn_delta == 0 && speed_delta == 0 ==> final(agents)@ == old(agents)@,
{
    if turn_delta == 0 && speed_delta == 0 {
        proof {
            assert forall|i: int| 0 <= i < agents@.len() implies agents@[i] == input_spec(
                old(agents)@[i],
                0,
                0,
            ) by {
                lemma_norm_angle_fixpoint(old(agents)@[i].heading as int);
            }
        }
        return ;
    }
    let n: usize = agents.len();
    let mut i: usize = 0;
    while i < n
        invariant
            n == agents@.len(),
            old(agents)@.len() == n,
            0 <= i <= n,
            -INPUT_DELTA_LIMIT <= turn_delta <= INPUT_DELTA_LIMIT,
            -INPUT_DELTA_LIMIT <= speed_delta <= INPUT_DELTA_LIMIT,
            forall|j: int| 0 <= j < n ==> (#[trigger] old(agents)@[j]).wf(),
            forall|j: int|
                0 <= j < n ==> (#[trigger] old(agents)@[j]).speed + speed_delta <= MAX_SPEED_FP,
            forall|j: int|
                0 <= j < i ==> agents@[j] == input_spec(
                    #[trigger] old(agents)@[j],
                    turn_delta as int,
                    speed_delta as int,
                ),
            forall|j: int| 0 <= j < i ==> (#[trigger] agents@[j]).wf(),
            forall|j: int| i <= j < n ==> #[trigger] agents@[j] == old(agents)@[j],
        decreases n - i,
    {
        let mut a: Agent = agents[i];
        a.heading = normalize_angle(a.heading + turn_delta);
        let moved: i64 = a.speed + speed_delta;
        a.speed = if moved >= 0 {
            moved
        } else {
            0
        };
        agents[i] = a;
        i = i + 1;
    }
}

/// Turn rate of the manual override, in fixed-point radians per second.
pub const TURN_RATE_FP: i64 = 30_000;

/// Acceleration of the manual override, in fixed-point speed per second.
pub const ACCEL_RATE_FP: i64 = 500_000;

/// Longest accepted elapsed time between ticks (60 seconds).
pub const MAX_DT_FP: i64 = 600_000;

/// Magnitude bound on the override deltas accepted per tick.
pub const INPUT_DELTA_LIMIT: i64 = 1_000_000_000_000;

/// The turn delta accumulated from the two turn intents over an elapsed
/// time: each pressed direction contributes the turn rate times `dt`.
pub open spec fn turn_delta_spec(turn_left: bool, turn_right: bool, dt: int) -> int {
    (if turn_left {
        (TURN_RATE_FP * dt) / (FP_SCALE as int)
    } else {
        0
    }) - (if turn_right {
        (TURN_RATE_FP * dt) / (FP_SCALE as int)
    } else {
        0
    })
}

/// The speed delta accumulated from the two speed intents over an elapsed
/// time: each pressed direction contributes the acceleration times `dt`.
pub open spec fn speed_delta_spec(speed_up: bool, speed_down: bool, dt: int) -> int {
    (if speed_up {
        (ACCEL_RATE_FP * dt) / (FP_SCALE as int)
    } else {
        0
    }) - (if speed_down {
        (ACCEL_RATE_FP * dt) / (FP_SCALE as int)
    } else {
        0
    })
}

/// Turns the four directional intents and the elapsed time since the last
/// tick into the pair of override deltas that `apply_input` takes.
/// Opposite intents pressed together cancel exactly.
pub fn input_deltas(turn_left: bool, turn_right: bool, speed_up: bool, speed_down: bool, dt: i64) -> (deltas: (
    i64,
    i64,
))
    requires
        0 <= dt <= MAX_DT_FP,
    ensures
        deltas.0 == turn_delta_spec(turn_left, turn_right, dt as int),
        deltas.1 == speed_delta_spec(speed_up, speed_down, dt as int),
        -INPUT_DELTA_LIMIT <= deltas.0 <= INPUT_DELTA_LIMIT,
        -INPUT_DELTA_LIMIT <= deltas.1 <= INPUT_DELTA_LIMIT,
{
    proof {
        lemma_div_magnitude(TURN_RATE_FP * dt, TURN_RATE_FP * MAX_DT_FP, FP_SCALE as int);
        lemma_div_magnitude(ACCEL_RATE_FP * dt, ACCEL_RATE_FP * MAX_DT_FP, FP_SCALE as int);
    }
    let turn_step: i64 = fp_mul(TURN_RATE_FP, dt);
    let speed_step: i64 = fp_mul(ACCEL_RATE_FP, dt);
    let mut turn: i64 = 0;
    let mut speed: i64 = 0;
    if turn_left {
        turn = turn + turn_step;
    }
    if turn_right {
        turn = turn - turn_step;
    }
    if speed_up {
        speed = speed + speed_step;
    }
    if speed_down {
        speed = speed - speed_step;
    }
    (turn, speed)
}

/// The position snapshot of a population: one pair per agent, in order.
pub open spec fn positions_of(s: Seq<Agent>) -> Seq<(i64, i64)> {
    Seq::new(s.len(), |i: int| (s[i].posx, s[i].posy))
}

/// What the kinematics pass makes of one agent: the kinematic step, then,
/// if arena bounds are at hand this tick, the boundary constraint. With no
/// bounds the constraint is skipped for the tick, not treated as fatal.
pub open spec fn moved_one(a: Agent, jitter: int, arena: Option<(i64, i64)>) -> Agent {
    match arena {
        Some(bounds) => constrain_spec(kin_spec(a, jitter), bounds.0 as int, bounds.1 as int),
        None => kin_spec(a, jitter),
    }
}

/// The population after the kinematics pass: every agent advanced by its
/// jitter and, when bounds are at hand, clamped into the arena.
pub open spec fn moved_spec(s: Seq<Agent>, jit: Seq<i64>, arena: Option<(i64, i64)>) -> Seq<
    Agent,
> {
    Seq::new(s.len(), |i: int| moved_one(s[i], jit[i] as int, arena))
}

/// Arena bounds fit for a tick: half-extents present and within range, or
/// absent for this tick.
pub open spec fn arena_ok(arena: Option<(i64, i64)>) -> bool {
    match arena {
        Some(bounds) => 0 <= bounds.0 <= POS_LIMIT_FP && 0 <= bounds.1 <= POS_LIMIT_FP,
        None => true,
    }
}

/// The population after the steering pass: every agent steered against the
/// snapshot of all positions taken after the kinematics pass.
pub open spec fn steered_spec(moved: Seq<Agent>) -> Seq<Agent> {
    Seq::new(moved.len(), |i: int| steer_spec(moved[i], positions_of(moved), i))
}

/// The population after one whole tick: kinematics and boundary handling
/// for every agent, then steering against the fresh position snapshot,
/// then the manual override.
pub open spec fn tick_spec(
    s: Seq<Agent>,
    jit: Seq<i64>,
    arena: Option<(i64, i64)>,
    turn: int,
    sd: int,
) -> Seq<Agent> {
    let steered = steered_spec(moved_spec(s, jit, arena));
    Seq::new(steered.len(), |i: int| input_spec(steered[i], turn, sd))
}

/// Runs one simulation tick over the whole population, in the fixed order:
/// every agent advances and bounces, a snapshot of the new positions is
/// taken, every agent steers from that immutable snapshot, and the manual
/// override is applied. `jitters` supplies one heading perturbation per
/// agent, injected by the caller; all zeros disable wandering. `arena`
/// carries the half-extents; when no arena size is at hand this tick,
/// `None` skips the boundary constraint instead of failing, and each
/// coordinate moves by at most the agent's speed.
pub fn tick(
    agents: &mut Vec<Agent>,
    arena: Option<(i64, i64)>,
    turn_delta: i64,
    speed_delta: i64,
    jitters: &Vec<i64>,
)
    requires
        old(agents)@.len() <= MAX_POP,
        jitters@.len() == old(agents)@.len(),
        forall|i: int| 0 <= i < jitters@.len() ==> -PI_FP <= #[trigger] jitters@[i] <= PI_FP,
        forall|i: int| 0 <= i < old(agents)@.len() ==> (#[trigger] old(agents)@[i]).wf(),
        forall|i: int|
            0 <= i < old(agents)@.len() ==> (#[trigger] old(agents)@[i]).pos_within(
                POS_LIMIT_FP as int,
            ),
        arena_ok(arena),
        -INPUT_DELTA_LIMIT <= turn_delta <= INPUT_DELTA_LIMIT,
        -INPUT_DELTA_LIMIT <= speed_delta <= INPUT_DELTA_LIMIT,
        forall|i: int|
            0 <= i < old(agents)@.len() ==> (#[trigger] old(agents)@[i]).speed + speed_delta
                <= MAX_SPEED_FP,
    ensures
        final(agents)@ == tick_spec(
            old(agents)@,
            jitters@,
            arena,
            turn_delta as int,
            speed_delta as int,
        ),
        final(agents)@.len() == old(agents)@.len(),
        forall|i: int| 0 <= i < final(agents)@.len() ==> (#[trigger] final(agents)@[i]).wf(),
        forall|i: int|
            0 <= i < final(agents)@.len() ==> (#[trigger] final(agents)@[i]).pos_within(
                POS_LIMIT_FP + MAX_SPEED_FP,
            ),
        arena matches Some(bounds) ==> forall|i: int|
            0 <= i < final(agents)@.len() ==> (#[trigger] final(agents)@[i]).pos_within(
                POS_LIMIT_FP as int,
            ) && -bounds.0 <= final(agents)@[i].posx <= bounds.0 && -bounds.1
                <= final(agents)@[i].posy <= bounds.1,
        arena is None ==> forall|i: int|
            0 <= i < final(agents)@.len() ==> old(agents)@[i].posx - old(agents)@[i].speed <= (
            #[trigger] final(agents)@[i]).posx <= old(agents)@[i].posx + old(agents)@[i].speed
                && old(agents)@[i].posy - old(agents)@[i].speed <= final(agents)@[i].posy
                <= old(agents)@[i].posy + old(agents)@[i].speed,
{
    let ghost s0 = agents@;
    let n: usize = agents.len();
    let mut i: usize = 0;
    while i < n
        invariant
            n == agents@.len(),
            s0.len() == n,
            jitters@.len() == n,
            0 <= i <= n,
            arena_ok(arena),
            forall|j: int| 0 <= j < n ==> -PI_FP <= #[trigger] jitters@[j] <= PI_FP,
            forall|j: int| 0 <= j < n ==> (#[trigger] s0[j]).wf(),
            forall|j: int| 0 <= j < n ==> (#[trigger] s0[j]).pos_within(POS_LIMIT_FP as int),
            forall|j: int|
                0 <= j < i ==> #[trigger] agents@[j] == moved_one(
                    s0[j],
                    jitters@[j] as int,
                    arena,
                ),
            forall|j: int| 0 <= j < i ==> (#[trigger] agents@[j]).wf(),
            forall|j: int|
                0 <= j < i ==> (#[trigger] agents@[j]).pos_within(POS_LIMIT_FP + MAX_SPEED_FP),
            forall|j: int| i <= j < n ==> #[trigger] agents@[j] == s0[j],
        decreases n - i,
    {
        let mut a: Agent = agents[i];
        a.update_position(jitters[i]);
        match arena {
            Some(bounds) => a.constrain_position(bounds.0, bounds.1),
            None => {},
        }
        agents[i] = a;
        i = i + 1;
    }
    let ghost moved = moved_spec(s0, jitters@, arena);
    proof {
        assert(agents@ =~= moved);
    }
    let mut snapshot: Vec<(i64, i64)> = Vec::new();
    let mut k: usize = 0;
    while k < n
        invariant
            n == agents@.len(),
            0 <= k <= n,
            snapshot@.len() == k,
            forall|j: int|
                0 <= j < k ==> #[trigger] snapshot@[j] == (agents@[j].posx, agents@[j].posy),
        decreases n - k,
    {
        let a: Agent = agents[k];
        snapshot.push((a.posx, a.posy));
        k = k + 1;
    }
    proof {
        assert(snapshot@ =~= positions_of(moved));
    }
    let ghost snap = snapshot@;
    let mut m: usize = 0;
    while m < n
        invariant
            n == agents@.len(),
            moved.len() == n,
            snapshot@ == snap,
            snap == positions_of(moved),
            snap.len() == n,
            n <= MAX_POP,
            0 <= m <= n,
            forall|j: int| 0 <= j < n ==> (#[trigger] moved[j]).wf(),
            forall|j: int|
                0 <= j < n ==> (#[trigger] moved[j]).pos_within(POS_LIMIT_FP + MAX_SPEED_FP),
            forall|j: int| 0 <= j < n ==> snap_entry_ok(#[trigger] snap[j]),
            forall|j: int| 0 <= j < m ==> #[trigger] agents@[j] == steer_spec(moved[j], snap, j),
            forall|j: int| 0 <= j < m ==> (#[trigger] agents@[j]).wf(),
            forall|j: int|
                0 <= j < m ==> (#[trigger] agents@[j]).pos_within(POS_LIMIT_FP + MAX_SPEED_FP)
                    && agents@[j].speed == moved[j].speed,
            forall|j: int| m <= j < n ==> #[trigger] agents@[j] == moved[j],
        decreases n - m,
    {
        let mut a: Agent = agents[m];
        compute_steering(&mut a, &snapshot, m);
        agents[m] = a;
        m = m + 1;
    }
    let ghost steered = steered_spec(moved);
    proof {
        assert(agents@ =~= steered);
        assert forall|j: int| 0 <= j < n implies (#[trigger] agents@[j]).speed + speed_delta
            <= MAX_SPEED_FP by {
            assert(agents@[j].speed == moved[j].speed);
            assert(moved[j].speed == s0[j].speed);
        }
    }
    apply_input(agents, turn_delta, speed_delta);
    proof {
        assert(agents@ =~= tick_spec(s0, jitters@, arena, turn_delta as int, speed_delta as int));
        assert forall|j: int| 0 <= j < n implies (#[trigger] agents@[j]).pos_within(
            POS_LIMIT_FP + MAX_SPEED_FP,
        ) by {
            assert(agents@[j] == input_spec(steered[j], turn_delta as int, speed_delta as int));
            assert(steered[j].pos_within(POS_LIMIT_FP + MAX_SPEED_FP));
        }
        match arena {
            Some(bounds) => {
                assert forall|j: int| 0 <= j < n implies (#[trigger] agents@[j]).pos_within(
                    POS_LIMIT_FP as int,
                ) && -bounds.0 <= agents@[j].posx <= bounds.0 && -bounds.1 <= agents@[j].posy
                    <= bounds.1 by {
                    assert(agents@[j].posx == moved[j].posx && agents@[j].posy == moved[j].posy);
                    assert(moved[j] == constrain_spec(
                        kin_spec(s0[j], jitters@[j] as int),
                        bounds.0 as int,
                        bounds.1 as int,
                    ));
                }
            },
            None => {
                assert forall|j: int| 0 <= j < n implies s0[j].posx - s0[j].speed <= (
                #[trigger] agents@[j]).posx <= s0[j].posx + s0[j].speed && s0[j].posy - s0[j].speed
                    <= agents@[j].posy <= s0[j].posy + s0[j].speed by {
                    assert(agents@[j].posx == moved[j].posx && agents@[j].posy == moved[j].posy);
                    assert(moved[j] == kin_spec(s0[j], jitters@[j] as int));
                    lemma_sin_approx_range(s0[j].heading as int);
                    lemma_cos_approx_range(s0[j].heading as int);
                    lemma_vel_bound(s0[j].speed as int, sin_approx(s0[j].heading as int));
                    lemma_vel_bound(s0[j].speed as int, cos_approx(s0[j].heading as int));
                }
            },
        }
    }
}

/// Law of self-exclusion: an agent alone in the snapshot steers against
/// nobody, so the steering pass leaves it exactly as it was.
pub proof fn lemma_self_exclusion(a: Agent, snap: Seq<(i64, i64)>)
    requires
        a.wf(),
        snap.len() == 1,
    ensures
        steer_spec(a, snap, 0) == a,
{
    assert(steer_sums(a.posx as int, a.posy as int, snap, 0, 1) == steer_sums(
        a.posx as int,
        a.posy as int,
        snap,
        0,
        0,
    ));
    lemma_norm_angle_fixpoint(a.heading as int);
}

/// Law of the radius partition: a neighbour at exactly the separation
/// radius is visible, not close; the separation test is strict.
pub proof fn lemma_radius_partition(dx: int, dy: int)
    requires
        dist2(dx, dy) == CLOSE_RADIUS_FP * CLOSE_RADIUS_FP,
    ensures
        !is_close(dx, dy),
        is_visible(dx, dy),
{
}

/// Half-amplitude of the random per-tick heading jitter (0.02 radians).
pub const JITTER_AMPLITUDE_FP: i64 = 200;

/// Creates the population: `count` agents at the origin with the given
/// speed and a heading drawn at random from the seeded generator, each
/// normalized. The population never changes size afterwards.
pub fn spawn_population(count: usize, speed: i64, seed: u64) -> (agents: Vec<Agent>)
    requires
        0 <= speed <= MAX_SPEED_FP,
    ensures
        agents@.len() == count,
        forall|i: int| 0 <= i < count ==> (#[trigger] agents@[i]).wf(),
        forall|i: int|
            0 <= i < count ==> (#[trigger] agents@[i]).posx == 0 && agents@[i].posy == 0
                && agents@[i].speed == speed,
{
    let mut rng = crate::randsrc::rng_from_seed(seed);
    let mut agents: Vec<Agent> = Vec::new();
    let mut i: usize = 0;
    while i < count
        invariant
            0 <= i <= count,
            agents@.len() == i,
            0 <= speed <= MAX_SPEED_FP,
            forall|j: int| 0 <= j < i ==> (#[trigger] agents@[j]).wf(),
            forall|j: int|
                0 <= j < i ==> (#[trigger] agents@[j]).posx == 0 && agents@[j].posy == 0
                    && agents@[j].speed == speed,
        decreases count - i,
    {
        let raw: i64 = crate::randsrc::draw_in_range(&mut rng, -PI_FP, PI_FP);
        let heading: i64 = normalize_angle(raw);
        agents.push(Agent { posx: 0, posy: 0, heading, speed });
        i = i + 1;
    }
    agents
}

/// Runs one tick with the heading jitter drawn from the injected
/// generator, one sample per agent within the jitter amplitude; everything
/// else is the deterministic `tick`.
pub fn tick_random(
    agents: &mut Vec<Agent>,
    arena: Option<(i64, i64)>,
    turn_delta: i64,
    speed_delta: i64,
    rng: &mut rand::rngs::StdRng,
)
    requires
        old(agents)@.len() <= MAX_POP,
        forall|i: int| 0 <= i < old(agents)@.len() ==> (#[trigger] old(agents)@[i]).wf(),
        forall|i: int|
            0 <= i < old(agents)@.len() ==> (#[trigger] old(agents)@[i]).pos_within(
                POS_LIMIT_FP as int,
            ),
        arena_ok(arena),
        -INPUT_DELTA_LIMIT <= turn_delta <= INPUT_DELTA_LIMIT,
        -INPUT_DELTA_LIMIT <= speed_delta <= INPUT_DELTA_LIMIT,
        forall|i: int|
            0 <= i < old(agents)@.len() ==> (#[trigger] old(agents)@[i]).speed + speed_delta
                <= MAX_SPEED_FP,
    ensures
        final(agents)@.len() == old(agents)@.len(),
        exists|jit: Seq<i64>|
            {
                &&& jit.len() == old(agents)@.len()
                &&& (forall|i: int|
                    0 <= i < jit.len() ==> -JITTER_AMPLITUDE_FP <= #[trigger] jit[i]
                        <= JITTER_AMPLITUDE_FP)
                &&& final(agents)@ == tick_spec(
                    old(agents)@,
                    jit,
                    arena,
                    turn_delta as int,
                    speed_delta as int,
                )
            },
        forall|i: int| 0 <= i < final(agents)@.len() ==> (#[trigger] final(agents)@[i]).wf(),
        forall|i: int|
            0 <= i < final(agents)@.len() ==> (#[trigger] final(agents)@[i]).pos_within(
                POS_LIMIT_FP + MAX_SPEED_FP,
            ),
        arena matches Some(bounds) ==> forall|i: int|
            0 <= i < final(agents)@.len() ==> -bounds.0 <= (#[trigger] final(agents)@[i]).posx
                <= bounds.0 && -bounds.1 <= final(agents)@[i].posy <= bounds.1,
{
    let n: usize = agents.len();
    let mut jitters: Vec<i64> = Vec::new();
    let mut i: usize = 0;
    while i < n
        invariant
            0 <= i <= n,
            jitters@.len() == i,
            forall|j: int|
                0 <= j < i ==> -JITTER_AMPLITUDE_FP <= #[trigger] jitters@[j]
                    <= JITTER_AMPLITUDE_FP,
        decreases n - i,
    {
        let sample: i64 = crate::randsrc::draw_in_range(
            rng,
            -JITTER_AMPLITUDE_FP,
            JITTER_AMPLITUDE_FP,
        );
        jitters.push(sample);
        i = i + 1;
    }
    tick(agents, arena, turn_delta, speed_delta, &jitters);
}

/// A centroid coordinate stays within the coordinate bound of the
/// positions that were averaged.
proof fn lemma_centroid_bound(sum: int, count: int, m: int)
    requires
        0 < count,
        0 <= m,
        -count * m <= sum <= count * m,
    ensures
        -m <= sum / count <= m,
{
    assert(count * m == count * m && -count * m == count * (-m)) by (nonlinear_arith);
    lemma_div_is_ordered(count * (-m), sum, count);
    lemma_div_is_ordered(sum, count * m, count);
    lemma_div_multiples_vanish(m, count);
    lemma_div_multiples_vanish(-m, count);
}

} // verus!
