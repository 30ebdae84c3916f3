//! Hit detection of the player against obstacles and trains.
use vstd::prelude::*;
use crate::obstacle::{barricades_wf, Barricade, ObstacleType};
use crate::placed::coord_ok;
use crate::player::{AnimationState, CurrentTrack};
use crate::state::GameState;
use crate::train::{trains_wf, Train, TrainType, RAMP_LENGTH, TRAIN_TOP};

verus! {

/// Longitudinal reach within which an obstacle is tested.
pub const OBSTACLE_REACH: i64 = 800;
/// Height of the player's feet below its position.
pub const FEET_BELOW: i64 = 800;
/// Height of a JumpOver obstacle's centre.
pub const BARRIER_CENTRE: i64 = 450;
/// Lower edge of a SlideUnder obstacle.
pub const SIGN_BOTTOM: i64 = 1200;
/// Upper edge of a SlideUnder obstacle.
pub const SIGN_TOP: i64 = 1900;
/// Height of a sliding player above its position.
pub const SLIDING_HEIGHT: i64 = 400;
/// Height of a standing or jumping player above its position.
pub const STANDING_HEIGHT: i64 = 1000;
/// Tolerance above the expected ramp height within which a player passes.
pub const RAMP_TOLERANCE: i64 = 2000;
/// Extra length before a ramp and after its end that counts as the ramp zone.
pub const RAMP_ZONE_MARGIN: i64 = 2000;
/// Lowest position of a player still taken to be on a ramp.
pub const RAMP_FLOOR: i64 = -500;
/// Margin behind a train's back within which a high player is on or leaving it.
pub const TOP_BACK_MARGIN: i64 = 2000;
/// Margin past a train's front within which a high player is on or leaving it.
pub const TOP_FRONT_MARGIN: i64 = 3000;
/// Depth below a train's top at which feet still count as on top.
pub const TOP_TOLERANCE: i64 = 1500;
/// Height above which a player is in the air over a train.
pub const AIRBORNE_HEIGHT: i64 = 1500;
/// Margin around a train's body within which it can be hit.
pub const BODY_MARGIN: i64 = 500;

/// Whether a player on `lane` in `pose` at height `y` and position `z` hits obstacle `b`.
///
/// Only an obstacle of the player's lane within 0.8 units counts. A JumpOver
/// obstacle is cleared when the player's feet are at or above its top, its
/// centre height plus half its height (compared doubled, so the half is exact). A
/// SlideUnder obstacle is cleared when the player's vertical span lies wholly
/// above or wholly below its band.
pub open spec fn hits_obstacle(b: Barricade, lane: u8, pose: AnimationState, y: int, z: int) -> bool {
    let near = b.track_index == lane && -OBSTACLE_REACH <= z - b.z <= OBSTACLE_REACH;
    let feet = y - FEET_BELOW;
    near && match b.obstacle_type {
        ObstacleType::JumpOver => 2 * feet < 2 * BARRIER_CENTRE + b.shape.size_y,
        ObstacleType::SlideUnder => {
            let (top, bottom) = if pose == AnimationState::Sliding {
                (y + SLIDING_HEIGHT, y)
            } else {
                (y + STANDING_HEIGHT, feet)
            };
            !(bottom > SIGN_TOP || top < SIGN_BOTTOM)
        },
    }
}

/// Whether the player hits some obstacle of `obstacles`.
pub open spec fn hits_some_obstacle(obstacles: Seq<Barricade>, lane: u8, pose: AnimationState, y: int, z: int) -> bool {
    exists|k: int| 0 <= k < obstacles.len() && hits_obstacle(#[trigger] obstacles[k], lane, pose, y, z)
}

/// How far along a ramp starting at `start2` position `z2` lies, clamped to
/// the ramp's length; both positions and the result are doubled, so that a
/// train's half length is exact.
pub open spec fn ramp_run2(z2: int, start2: int) -> int {
    if z2 - start2 < 0 {
        0
    } else if z2 - start2 > 2 * RAMP_LENGTH {
        2 * RAMP_LENGTH
    } else {
        z2 - start2
    }
}

/// Feet at height `feet` are at most two units above the ramp surface at
/// doubled run `run2`; the surface rises in a straight line to the train's
/// top over the ramp's length. Compared without division, so exactly.
pub open spec fn near_ramp_surface(feet: int, run2: int) -> bool {
    (feet - RAMP_TOLERANCE) * (2 * RAMP_LENGTH) <= run2 * TRAIN_TOP
}

/// Whether a player on `lane` at height `y` and position `z` hits train `t`.
///
/// Tested in order: a player in the zone of a climbable train's ramp, not
/// below the ground and with feet within two units above the ramp, passes;
/// a player whose feet are at most 1.5 units below the train's top, from two
/// units behind it to three past it, is on top or leaving it; a player higher
/// than 1.5 units is in the air; a player outside the body by more than half a
/// unit misses; else a player below the top hits. The train's edges lie half
/// its length from its centre; positions are compared doubled, so that half
/// is exact.
pub open spec fn hits_train(t: Train, lane: u8, y: int, z: int) -> bool {
    let front2 = 2 * t.z + t.length;
    let back2 = 2 * t.z - t.length;
    let z2 = 2 * z;
    let feet = y - FEET_BELOW;
    let start2 = back2 - 2 * RAMP_LENGTH;
    let on_ramp = t.train_type == TrainType::StationaryWithRamp
        && start2 - 2 * RAMP_ZONE_MARGIN <= z2 <= back2 + 2 * RAMP_ZONE_MARGIN
        && y >= RAMP_FLOOR
        && near_ramp_surface(feet, ramp_run2(z2, start2));
    let on_top = back2 - 2 * TOP_BACK_MARGIN <= z2 <= front2 + 2 * TOP_FRONT_MARGIN
        && feet >= TRAIN_TOP - TOP_TOLERANCE;
    let airborne = y > AIRBORNE_HEIGHT;
    let beside = z2 < back2 - 2 * BODY_MARGIN || z2 > front2 + 2 * BODY_MARGIN;
    &&& t.track_index == lane
    &&& !on_ramp
    &&& !on_top
    &&& !airborne
    &&& !beside
    &&& feet < TRAIN_TOP
    &&& y < TRAIN_TOP
}

/// Whether the player hits some train of `trains`.
pub open spec fn hits_some_train(trains: Seq<Train>, lane: u8, y: int, z: int) -> bool {
    exists|k: int| 0 <= k < trains.len() && hits_train(#[trigger] trains[k], lane, y, z)
}

/// Whether a player on `lane` in `pose` at height `y` and position `z` hits obstacle `b`.
pub fn obstacle_hit(b: &Barricade, lane: u8, pose: AnimationState, y: i64, z: i64) -> (r: bool)
    requires
        b.wf(),
        coord_ok(y as int),
        coord_ok(z as int),
    ensures
        r == hits_obstacle(*b, lane, pose, y as int, z as int),
{
    if b.track_index != lane || z - b.z > OBSTACLE_REACH || b.z - z > OBSTACLE_REACH {
        return false;
    }
    let feet = y - FEET_BELOW;
    match b.obstacle_type {
        ObstacleType::JumpOver => 2 * feet < 2 * BARRIER_CENTRE + b.shape.size_y,
        ObstacleType::SlideUnder => {
            let (top, bottom) = if pose == AnimationState::Sliding {
                (y + SLIDING_HEIGHT, y)
            } else {
                (y + STANDING_HEIGHT, feet)
            };
            let above = bottom > SIGN_TOP;
            let below = top < SIGN_BOTTOM;
            !(above || below)
        },
    }
}

/// Whether a player on `lane` at height `y` and position `z` hits train `t`.
pub fn train_hit(t: &Train, lane: u8, y: i64, z: i64) -> (r: bool)
    requires
        t.wf(),
        coord_ok(y as int),
        coord_ok(z as int),
    ensures
        r == hits_train(*t, lane, y as int, z as int),
{
    if t.track_index != lane {
        return false;
    }
    let front2 = 2 * t.z + t.length;
    let back2 = 2 * t.z - t.length;
    let z2 = 2 * z;
    let feet = y - FEET_BELOW;
    if t.train_type == TrainType::StationaryWithRamp {
        let start2 = back2 - 2 * RAMP_LENGTH;
        if z2 >= start2 - 2 * RAMP_ZONE_MARGIN && z2 <= back2 + 2 * RAMP_ZONE_MARGIN {
            let run2 = if z2 - start2 < 0 {
                0
            } else if z2 - start2 > 2 * RAMP_LENGTH {
                2 * RAMP_LENGTH
            } else {
                z2 - start2
            };
            if y >= RAMP_FLOOR && (feet - RAMP_TOLERANCE) * (2 * RAMP_LENGTH) <= run2 * TRAIN_TOP {
                return false;
            }
        }
    }
    if z2 >= back2 - 2 * TOP_BACK_MARGIN && z2 <= front2 + 2 * TOP_FRONT_MARGIN
        && feet >= TRAIN_TOP - TOP_TOLERANCE {
        return false;
    }
    if y > AIRBORNE_HEIGHT {
        return false;
    }
    if z2 < back2 - 2 * BODY_MARGIN || z2 > front2 + 2 * BODY_MARGIN {
        return false;
    }
    feet < TRAIN_TOP && y < TRAIN_TOP
}

/// Tests the player against every obstacle; on a hit the phase becomes
/// GameOver and the result is true, else nothing changes.
pub fn detect_collisions(
    next_state: &mut GameState,
    track: CurrentTrack,
    pose: AnimationState,
    y: i64,
    z: i64,
    obstacles: &Vec<Barricade>,
) -> (hit: bool)
    requires
        barricades_wf(obstacles@),
        coord_ok(y as int),
        coord_ok(z as int),
    ensures
        hit == hits_some_obstacle(obstacles@, track.index(), pose, y as int, z as int),
        *final(next_state) == if hit {
            GameState::GameOver
        } else {
            *old(next_state)
        },
{
    let lane = track.as_index();
    let mut k: usize = 0;
    while k < obstacles.len()
        invariant
            0 <= k <= obstacles.len(),
            barricades_wf(obstacles@),
            coord_ok(y as int),
            coord_ok(z as int),
            lane == track.index(),
            *next_state == *old(next_state),
            forall|j: int| 0 <= j < k ==> !hits_obstacle(#[trigger] obstacles@[j], lane, pose, y as int, z as int),
        decreases obstacles.len() - k,
    {
        assert(obstacles@[k as int].wf());
        if obstacle_hit(&obstacles[k], lane, pose, y, z) {
            *next_state = GameState::GameOver;
            return true;
        }
        k += 1;
    }
    false
}

/// Tests the player against every train; on a hit the phase becomes
/// GameOver and the result is true, else nothing changes.
pub fn detect_train_collisions(
    next_state: &mut GameState,
    track: CurrentTrack,
    y: i64,
    z: i64,
    trains: &Vec<Train>,
) -> (hit: bool)
    requires
        trains_wf(trains@),
        coord_ok(y as int),
        coord_ok(z as int),
    ensures
        hit == hits_some_train(trains@, track.index(), y as int, z as int),
        *final(next_state) == if hit {
            GameState::GameOver
        } else {
            *old(next_state)
        },
{
    let lane = track.as_index();
    let mut k: usize = 0;
    while k < trains.len()
        invariant
            0 <= k <= trains.len(),
            trains_wf(trains@),
            coord_ok(y as int),
            coord_ok(z as int),
            lane == track.index(),
            *next_state == *old(next_state),
            forall|j: int| 0 <= j < k ==> !hits_train(#[trigger] trains@[j], lane, y as int, z as int),
        decreases trains.len() - k,
    {
        assert(trains@[k as int].wf());
        if train_hit(&trains[k], lane, y, z) {
            *next_state = GameState::GameOver;
            return true;
        }
        k += 1;
    }
    false
}

} // verus!
