//! A 2D flocking ("boids") simulation core.
//!
//! A fixed population of agents moves across a bounded plane centered at the
//! origin. Every tick each agent advances along its heading, bounces off the
//! arena edges, and then steers from a snapshot of its neighbours'
//! positions: away from crowding neighbours and loosely toward the centroid
//! of visible ones. A manual override can additionally turn and accelerate
//! the whole population uniformly.
//!
//! All quantities are fixed-point numbers: an `i64` counts units of
//! `1 / FP_SCALE`. Angles are radians in the same fixed-point form, kept
//! normalized to the half-open interval `(-PI_FP, PI_FP]`. Randomness — the
//! per-tick heading jitter and the initial headings — is injected, either
//! as plain values or as a seeded generator.

mod agent;
mod fixed;
mod flock;
mod randsrc;
mod trig;

pub use agent::Agent;
pub use agent::MAX_SPEED_FP;
pub use agent::POS_LIMIT_FP;
pub use agent::bounce_vel_x;
pub use agent::bounce_vel_y;
pub use agent::clamp_coord;
pub use agent::constrain_spec;
pub use agent::hits_bound;
pub use agent::kin_spec;
pub use agent::lemma_boundary_clamp;
pub use agent::vel_x;
pub use agent::vel_y;
pub use fixed::FP_LIMIT;
pub use fixed::FP_SCALE;
pub use fixed::HALF_PI_FP;
pub use fixed::PI_FP;
pub use fixed::TWO_PI_FP;
pub use fixed::floor_div;
pub use fixed::fp_mul;
pub use fixed::is_normalized;
pub use fixed::lemma_norm_angle_fixpoint;
pub use fixed::lemma_norm_angle_range;
pub use fixed::lemma_norm_angle_shift;
pub use fixed::norm_angle;
pub use fixed::normalize_angle;
pub use flock::ACCEL_RATE_FP;
pub use flock::ALIGNMENT_GAIN_FP;
pub use flock::CLOSE_RADIUS_FP;
pub use flock::INPUT_DELTA_LIMIT;
pub use flock::JITTER_AMPLITUDE_FP;
pub use flock::MAX_DT_FP;
pub use flock::MAX_POP;
pub use flock::NeighborClass;
pub use flock::SEPARATION_GAIN_FP;
pub use flock::TURN_RATE_FP;
pub use flock::VISIBLE_RADIUS_FP;
pub use flock::apply_input;
pub use flock::classify_neighbor;
pub use flock::compute_steering;
pub use flock::dist2;
pub use flock::input_deltas;
pub use flock::input_spec;
pub use flock::is_close;
pub use flock::is_visible;
pub use flock::lemma_radius_partition;
pub use flock::lemma_self_exclusion;
pub use flock::arena_ok;
pub use flock::moved_one;
pub use flock::moved_spec;
pub use flock::positions_of;
pub use flock::spawn_population;
pub use flock::speed_delta_spec;
pub use flock::steer_heading;
pub use flock::steer_spec;
pub use flock::steer_sums;
pub use flock::steered_spec;
pub use flock::SteerSums;
pub use flock::tick;
pub use flock::tick_random;
pub use flock::tick_spec;
pub use flock::turn_delta_spec;
pub use trig::ATAN2_ARG_LIMIT;
pub use trig::atan2_approx;
pub use trig::atan2_fp;
pub use trig::cos_approx;
pub use trig::cos_fp;
pub use trig::sin_approx;
pub use trig::sin_fp;
