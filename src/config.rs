//! World clock and tuning values, and the coin score.
use vstd::prelude::*;
use crate::player::Velocity;
use crate::train::{DT_LIMIT, SPEED_LIMIT};

verus! {

/// Largest lane spacing.
pub const SPACING_LIMIT: i64 = 1_000_000_000;
/// Largest acceleration.
pub const ACCELERATION_LIMIT: i64 = 1_000_000;
/// Largest difficulty scale: six times the base.
pub const MAX_DIFFICULTY: i64 = 6000;

/// Tuning values of a run. Speeds are thousandths of a unit per second,
/// the acceleration thousandths of a unit per second squared, the
/// difficulty scale thousandths, the other values thousandths of a unit.
pub struct GameConfig {
    pub base_speed: i64,
    pub speed_acceleration_rate: i64,
    pub current_speed: i64,
    pub barricade_spawn_base_interval: i64,
    pub difficulty_scale: i64,
    pub track_spacing: i64,
    pub barricade_advance_time: i64,
}

impl GameConfig {
    pub open spec fn wf(&self) -> bool {
        &&& 0 <= self.base_speed <= SPEED_LIMIT
        &&& 0 <= self.current_speed <= SPEED_LIMIT
        &&& 0 <= self.speed_acceleration_rate <= ACCELERATION_LIMIT
        &&& 0 <= self.track_spacing <= SPACING_LIMIT
        &&& 1000 <= self.difficulty_scale <= MAX_DIFFICULTY
    }

    /// The values a run starts with: speed fifteen units per second,
    /// acceleration a fifth of a unit per second squared, lanes two units apart.
    pub open spec fn initial() -> GameConfig {
        GameConfig {
            base_speed: 15_000,
            speed_acceleration_rate: 200,
            current_speed: 15_000,
            barricade_spawn_base_interval: 8000,
            difficulty_scale: 1000,
            track_spacing: 2000,
            barricade_advance_time: 4000,
        }
    }
}

impl Default for GameConfig {
    fn default() -> (r: GameConfig)
        ensures
            r == GameConfig::initial(),
    {
        GameConfig {
            base_speed: 15_000,
            speed_acceleration_rate: 200,
            current_speed: 15_000,
            barricade_spawn_base_interval: 8000,
            difficulty_scale: 1000,
            track_spacing: 2000,
            barricade_advance_time: 4000,
        }
    }
}

/// Speed after accelerating for `dt` milliseconds, capped at the largest speed.
pub open spec fn accelerated(speed: i64, rate: i64, dt: i64) -> i64 {
    let v = speed + rate * dt / 1000;
    if v > SPEED_LIMIT {
        SPEED_LIMIT
    } else {
        v as i64
    }
}

/// Raises the current speed by the acceleration over `dt` milliseconds, and
/// sets the player's forward speed to it.
pub fn accelerate_speed(config: &mut GameConfig, velocity: &mut Velocity, dt: i64)
    requires
        old(config).wf(),
        0 <= dt <= DT_LIMIT,
    ensures
        final(velocity).forward == final(config).current_speed,
        *final(config) == (GameConfig {
            current_speed: accelerated(old(config).current_speed, old(config).speed_acceleration_rate, dt),
            ..*old(config)
        }),
        final(config).wf(),
{
    assert(0 <= config.speed_acceleration_rate * dt <= ACCELERATION_LIMIT * DT_LIMIT) by (nonlinear_arith)
        requires
            0 <= config.speed_acceleration_rate <= ACCELERATION_LIMIT,
            0 <= dt <= DT_LIMIT,
    ;
    let v = config.current_speed + config.speed_acceleration_rate * dt / 1000;
    config.current_speed = if v > SPEED_LIMIT {
        SPEED_LIMIT
    } else {
        v
    };
    velocity.forward = config.current_speed;
}

/// Difficulty after `elapsed_ms` milliseconds: one plus a tenth per second,
/// the added part capped at five (in thousandths).
pub open spec fn difficulty_at(elapsed_ms: u64) -> i64 {
    let extra = elapsed_ms / 10;
    if extra > 5000 {
        6000
    } else {
        (1000 + extra) as i64
    }
}

/// Sets the difficulty scale from the time elapsed since start.
pub fn scale_difficulty(config: &mut GameConfig, elapsed_ms: u64)
    ensures
        *final(config) == (GameConfig { difficulty_scale: difficulty_at(elapsed_ms), ..*old(config) }),
{
    let extra = elapsed_ms / 10;
    config.difficulty_scale = if extra > 5000 {
        6000
    } else {
        1000 + extra as i64
    };
}

/// Coins collected in the current run.
pub struct Score {
    pub coins: u32,
}

impl Score {
    pub fn new() -> (r: Score)
        ensures
            r.coins == 0,
    {
        Score { coins: 0 }
    }

    pub fn reset(&mut self)
        ensures
            final(self).coins == 0,
    {
        self.coins = 0;
    }
}

} // verus!
