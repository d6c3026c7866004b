//! Exercises the simulation core on concrete populations: kinematics,
//! boundary reflection, steering classification and adjustments, the
//! manual override, and whole ticks.

use boids::Agent;
use boids::NeighborClass;
use boids::FP_SCALE;
use boids::HALF_PI_FP;
use boids::PI_FP;

fn agent(posx: i64, posy: i64, heading: i64, speed: i64) -> Agent {
    Agent { posx, posy, heading, speed }
}

#[test]
fn update_position_straight_up() {
    // speed 2.0, heading 0, no jitter: sin(0) = 0 and cos(0) = 1 exactly,
    // so one step lands on (0.0, 2.0).
    let mut a = agent(0, 0, 0, 2 * FP_SCALE);
    a.update_position(0);
    assert_eq!(a.posx, 0);
    assert_eq!(a.posy, 2 * FP_SCALE);
    assert_eq!(a.heading, 0);
    assert_eq!(a.speed, 2 * FP_SCALE);
}

#[test]
fn update_position_jitter_turns_heading() {
    let mut a = agent(0, 0, 0, 0);
    a.update_position(150);
    assert_eq!(a.heading, 150);
    assert_eq!(a.posx, 0);
    assert_eq!(a.posy, 0);
}

#[test]
fn constrain_clamps_right_edge_and_flips_x_velocity() {
    // At x = 105.0 against a half-width of 100.0, pointing along +x
    // (heading pi/2): the agent lands exactly on the edge and its heading
    // reverses to -pi/2, the direction of the negated x velocity.
    let hw = 100 * FP_SCALE;
    let mut a = agent(105 * FP_SCALE, 0, HALF_PI_FP, 2 * FP_SCALE);
    a.constrain_position(hw, 10 * hw);
    assert_eq!(a.posx, hw);
    assert_eq!(a.posy, 0);
    assert_eq!(a.heading, -HALF_PI_FP);
    assert_eq!(a.speed, 2 * FP_SCALE);
}

#[test]
fn constrain_corner_hit_reflects_both_axes() {
    let hw = 100 * FP_SCALE;
    let hh = 100 * FP_SCALE;
    let mut a = agent(105 * FP_SCALE, -105 * FP_SCALE, HALF_PI_FP, 2 * FP_SCALE);
    a.constrain_position(hw, hh);
    assert_eq!(a.posx, hw);
    assert_eq!(a.posy, -hh);
    // vx = speed flips to -speed, vy = 0 stays zero: heading -pi/2.
    assert_eq!(a.heading, -HALF_PI_FP);
}

#[test]
fn constrain_inside_arena_keeps_position() {
    let mut a = agent(3 * FP_SCALE, -4 * FP_SCALE, 0, 2 * FP_SCALE);
    a.constrain_position(100 * FP_SCALE, 100 * FP_SCALE);
    assert_eq!(a.posx, 3 * FP_SCALE);
    assert_eq!(a.posy, -4 * FP_SCALE);
    // The heading is recomputed from the unreflected velocity (0, 2.0),
    // which points straight up again.
    assert_eq!(a.heading, 0);
}

#[test]
fn constrain_degenerate_arena_collapses_to_origin() {
    let mut a = agent(5 * FP_SCALE, -7 * FP_SCALE, HALF_PI_FP, FP_SCALE);
    a.constrain_position(0, 0);
    assert_eq!(a.posx, 0);
    assert_eq!(a.posy, 0);
}

#[test]
fn constrain_zero_speed_keeps_heading() {
    let mut a = agent(105 * FP_SCALE, 0, 12_345, 0);
    a.constrain_position(100 * FP_SCALE, 100 * FP_SCALE);
    assert_eq!(a.posx, 100 * FP_SCALE);
    // A zero velocity carries no direction: the heading is untouched.
    assert_eq!(a.heading, 12_345);
}

#[test]
fn classify_at_exact_close_radius_is_visible() {
    // Distance exactly 50.0: the separation test is strict, so this
    // neighbour is visible, not close.
    assert_eq!(boids::classify_neighbor(50 * FP_SCALE, 0), NeighborClass::Visible);
}

#[test]
fn classify_just_inside_close_radius() {
    // 49.999 units.
    assert_eq!(boids::classify_neighbor(499_990, 0), NeighborClass::Close);
}

#[test]
fn classify_just_outside_close_radius() {
    // 50.001 units.
    assert_eq!(boids::classify_neighbor(500_010, 0), NeighborClass::Visible);
}

#[test]
fn classify_at_visible_radius_is_far() {
    assert_eq!(boids::classify_neighbor(100 * FP_SCALE, 0), NeighborClass::Far);
    assert_eq!(boids::classify_neighbor(0, -100 * FP_SCALE), NeighborClass::Far);
}

#[test]
fn classify_diagonal() {
    // (30, 40) has distance 50 exactly: visible. (30, 39.99) is close.
    assert_eq!(boids::classify_neighbor(30 * FP_SCALE, 40 * FP_SCALE), NeighborClass::Visible);
    assert_eq!(boids::classify_neighbor(30 * FP_SCALE, 399_900), NeighborClass::Close);
}

#[test]
fn steering_alone_leaves_heading() {
    // A single-agent population has no neighbours to steer from.
    let mut a = agent(17, -20_000, 11_111, 2 * FP_SCALE);
    let snapshot = vec![(a.posx, a.posy)];
    boids::compute_steering(&mut a, &snapshot, 0);
    assert_eq!(a.heading, 11_111);
    assert_eq!(a.posx, 17);
    assert_eq!(a.posy, -20_000);
}

#[test]
fn steering_separation_exact_value() {
    // One close neighbour straight above: the repulsion accumulator is
    // (0, 10.0), atan2(10.0, 0) = pi/2, and the heading moves by
    // pi/2 * 0.05 = 785 fixed-point radians.
    let mut a = agent(0, 0, 0, 2 * FP_SCALE);
    let snapshot = vec![(0, 0), (0, 10 * FP_SCALE)];
    boids::compute_steering(&mut a, &snapshot, 0);
    assert_eq!(a.heading, 785);
}

#[test]
fn steering_alignment_exact_value() {
    // One visible neighbour straight above at 70.0: the centroid is
    // (0, 70.0), the desired angle pi/2, the difference pi/2, and the
    // heading moves by pi/2 * 0.01 = 157 fixed-point radians.
    let mut a = agent(0, 0, 0, 2 * FP_SCALE);
    let snapshot = vec![(0, 0), (0, 70 * FP_SCALE)];
    boids::compute_steering(&mut a, &snapshot, 0);
    assert_eq!(a.heading, 157);
}

#[test]
fn steering_ignores_far_neighbors() {
    let mut a = agent(0, 0, 4_321, 2 * FP_SCALE);
    let snapshot = vec![(0, 0), (100 * FP_SCALE, 0), (0, -250 * FP_SCALE)];
    boids::compute_steering(&mut a, &snapshot, 0);
    assert_eq!(a.heading, 4_321);
}

#[test]
fn steering_coincident_neighbor_is_no_adjustment() {
    // A neighbour at the agent's own position is close, but contributes a
    // zero displacement; a zero accumulator makes no adjustment.
    let mut a = agent(500, 600, -7_000, 2 * FP_SCALE);
    let snapshot = vec![(500, 600), (500, 600)];
    boids::compute_steering(&mut a, &snapshot, 0);
    assert_eq!(a.heading, -7_000);
}

#[test]
fn apply_input_noop_is_bit_for_bit() {
    let mut agents = boids::spawn_population(25, 3 * FP_SCALE, 7);
    let before = agents.clone();
    boids::apply_input(&mut agents, 0, 0);
    assert_eq!(agents, before);
}

#[test]
fn apply_input_turns_and_accelerates_every_agent() {
    let mut agents = vec![agent(1, 2, 100, FP_SCALE), agent(-3, 4, -200, 2 * FP_SCALE)];
    boids::apply_input(&mut agents, 50, 30);
    assert_eq!(agents[0].heading, 150);
    assert_eq!(agents[0].speed, FP_SCALE + 30);
    assert_eq!(agents[1].heading, -150);
    assert_eq!(agents[1].speed, 2 * FP_SCALE + 30);
    assert_eq!(agents[0].posx, 1);
    assert_eq!(agents[0].posy, 2);
}

#[test]
fn apply_input_floors_speed_at_zero() {
    let mut agents = vec![agent(0, 0, 0, 100)];
    boids::apply_input(&mut agents, 0, -200);
    assert_eq!(agents[0].speed, 0);
}

#[test]
fn apply_input_wraps_heading_into_half_open_interval() {
    // pi + one unit wraps to just past -pi; exactly -pi is normalized to
    // +pi, the included endpoint.
    let mut agents = vec![agent(0, 0, PI_FP, 0), agent(0, 0, 0, 0)];
    boids::apply_input(&mut agents, 1, 0);
    assert_eq!(agents[0].heading, -PI_FP + 1);
    boids::apply_input(&mut agents, -1, 0);
    assert_eq!(agents[0].heading, PI_FP);
    assert_eq!(agents[1].heading, 0);
}

#[test]
fn input_deltas_exact_rates() {
    // One second: the turn rate contributes 3.0 radians, the acceleration
    // 50.0 speed units; opposite intents cancel exactly.
    let dt = FP_SCALE;
    assert_eq!(boids::input_deltas(true, false, false, false, dt), (30_000, 0));
    assert_eq!(boids::input_deltas(false, true, false, false, dt), (-30_000, 0));
    assert_eq!(boids::input_deltas(false, false, true, false, dt), (0, 500_000));
    assert_eq!(boids::input_deltas(false, false, false, true, dt), (0, -500_000));
    assert_eq!(boids::input_deltas(true, true, true, true, dt), (0, 0));
    assert_eq!(boids::input_deltas(false, false, false, false, dt), (0, 0));
}

#[test]
fn tick_single_agent_moves_straight() {
    let mut agents = vec![agent(0, 0, 0, 2 * FP_SCALE)];
    let jitters = vec![0];
    boids::tick(&mut agents, Some((100 * FP_SCALE, 100 * FP_SCALE)), 0, 0, &jitters);
    assert_eq!(agents[0].posx, 0);
    assert_eq!(agents[0].posy, 2 * FP_SCALE);
    assert_eq!(agents[0].heading, 0);
    assert_eq!(agents[0].speed, 2 * FP_SCALE);
}

#[test]
fn tick_applies_override_after_steering() {
    let mut agents = vec![agent(0, 0, 0, 2 * FP_SCALE)];
    let jitters = vec![0];
    boids::tick(&mut agents, Some((100 * FP_SCALE, 100 * FP_SCALE)), 300, -5_000, &jitters);
    assert_eq!(agents[0].posy, 2 * FP_SCALE);
    assert_eq!(agents[0].heading, 300);
    assert_eq!(agents[0].speed, 2 * FP_SCALE - 5_000);
}

#[test]
fn tick_without_arena_skips_boundary_constraint() {
    // No arena size this tick: the agent sails past where an edge would
    // be, and the heading is not recomputed from a reflected velocity.
    let mut agents = vec![agent(0, 100 * FP_SCALE, 0, 2 * FP_SCALE)];
    let jitters = vec![0];
    boids::tick(&mut agents, None, 0, 0, &jitters);
    assert_eq!(agents[0].posy, 102 * FP_SCALE);
    assert_eq!(agents[0].heading, 0);
    // The next tick has bounds again and clamps from the inside out.
    boids::tick(&mut agents, Some((100 * FP_SCALE, 100 * FP_SCALE)), 0, 0, &jitters);
    assert_eq!(agents[0].posy, 100 * FP_SCALE);
}

#[test]
fn spawn_population_shape() {
    let agents = boids::spawn_population(100, 3 * FP_SCALE, 42);
    assert_eq!(agents.len(), 100);
    for a in &agents {
        assert_eq!(a.posx, 0);
        assert_eq!(a.posy, 0);
        assert_eq!(a.speed, 3 * FP_SCALE);
        assert!(-PI_FP < a.heading && a.heading <= PI_FP);
    }
}

#[test]
fn spawn_population_is_deterministic_per_seed() {
    let a = boids::spawn_population(10, 2 * FP_SCALE, 9);
    let b = boids::spawn_population(10, 2 * FP_SCALE, 9);
    assert_eq!(a, b);
}

#[test]
fn spawned_headings_vary() {
    // The seeded generator really draws: sixteen headings from one seed
    // cannot all coincide.
    let agents = boids::spawn_population(16, FP_SCALE, 123);
    let first = agents[0].heading;
    assert!(agents.iter().any(|a| a.heading != first));
}
