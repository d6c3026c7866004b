//! Property-style checks of the two state invariants: after any sequence
//! of updates the heading stays in `(-PI_FP, PI_FP]` and the speed never
//! goes negative.

use boids::Agent;
use boids::FP_SCALE;
use boids::PI_FP;
use rand::RngExt;
use rand::SeedableRng;

fn assert_all_well_formed(agents: &[Agent]) {
    for a in agents {
        assert!(
            -PI_FP < a.heading && a.heading <= PI_FP,
            "heading {} out of (-pi, pi]",
            a.heading
        );
        assert!(a.speed >= 0, "negative speed {}", a.speed);
    }
}

/// A tiny deterministic generator for choosing the operation sequence.
fn next_choice(state: &mut u64) -> u64 {
    *state = state.wrapping_mul(6364136223846793005).wrapping_add(1442695040888963407);
    *state >> 33
}

#[test]
fn invariants_hold_under_random_update_sequences() {
    let mut agents = boids::spawn_population(8, 2 * FP_SCALE, 31);
    let mut state: u64 = 0xfeed;
    let hw = 50 * FP_SCALE;
    let hh = 40 * FP_SCALE;
    for _ in 0..400 {
        let pick = next_choice(&mut state);
        match pick % 3 {
            0 => {
                let jitter = (pick % 401) as i64 - 200;
                for a in agents.iter_mut() {
                    a.update_position(jitter);
                }
            },
            1 => {
                for a in agents.iter_mut() {
                    a.constrain_position(hw, hh);
                }
            },
            _ => {
                let turn = (pick % 100_001) as i64 - 50_000;
                let accel = (pick % 20_001) as i64 - 10_000;
                boids::apply_input(&mut agents, turn, accel);
            },
        }
        assert_all_well_formed(&agents);
    }
}

#[test]
fn speed_never_negative_under_braking() {
    let mut agents = boids::spawn_population(5, FP_SCALE, 3);
    for _ in 0..50 {
        boids::apply_input(&mut agents, 0, -3_000);
        for a in agents.iter() {
            assert!(a.speed >= 0);
        }
    }
    for a in agents.iter() {
        assert_eq!(a.speed, 0);
    }
}

#[test]
fn random_ticks_preserve_invariants() {
    let mut rng = rand::rngs::StdRng::seed_from_u64(77);
    let mut agents = boids::spawn_population(30, 3 * FP_SCALE, 5);
    for step in 0..60 {
        let turn: i64 = rng.random_range(-2_000..2_000);
        let accel: i64 = rng.random_range(-1_000..1_000);
        boids::tick_random(&mut agents, Some((120 * FP_SCALE, 90 * FP_SCALE)), turn, accel, &mut rng);
        assert_eq!(agents.len(), 30, "population changed size at step {step}");
        assert_all_well_formed(&agents);
        for a in agents.iter() {
            assert!(a.posx.abs() <= 120 * FP_SCALE);
            assert!(a.posy.abs() <= 90 * FP_SCALE);
        }
    }
}

#[test]
fn jittered_updates_stay_normalized_near_pi() {
    // Drive the heading to the upper endpoint and jitter across it.
    let mut a = Agent { posx: 0, posy: 0, heading: PI_FP, speed: 0 };
    for step in 0..100 {
        a.update_position(if step % 2 == 0 { 150 } else { -80 });
        assert!(-PI_FP < a.heading && a.heading <= PI_FP);
    }
}
