//! Obstacles: the generator that places them ahead of the player, the
//! clearance they keep from climbable trains, and recycling.
use vstd::prelude::*;
use vstd::wrapping::u32_specs::{wrapping_add, wrapping_mul};
use crate::placed::{
    at_or_ahead, coord_ok, furthest_position, furthest_z, lemma_frontier_in_range, player_pos_ok,
    positions, retain_from, Placed,
};
use crate::rng::{fold, fold_position, mix, pseudo_random};
use crate::train::{trains_wf, Train, TrainType, RAMP_LENGTH};

verus! {

/// Obstacles appear only once the player has passed this position.
pub const OBSTACLE_GRACE_Z: i64 = 20_000;
/// A new obstacle is placed when the frontier is nearer than this to the player.
pub const MIN_SPAWN_DISTANCE: i64 = 50_000;
/// The frontier is never pushed beyond this distance ahead of the player.
pub const MAX_SPAWN_DISTANCE: i64 = 100_000;
/// Spacing of an obstacle that extends the frontier.
pub const MIN_OBSTACLE_GAP: i64 = 20_000;
/// Distance ahead of the player of an obstacle placed on a thin frontier.
pub const FIRST_SPAWN_AHEAD: i64 = 65_000;
/// Clearance kept before a ramp and after a climbable train.
pub const RAMP_BUFFER: i64 = 20_000;
/// Obstacles further than this behind the camera are removed.
pub const OBSTACLE_RECYCLE_MARGIN: i64 = 20_000;
pub const FIRST_SALT: u32 = 0xDEAD_BEEF;
pub const FILL_SALT: u32 = 0xCAFE_BABE;

#[derive(Clone, Copy, PartialEq, Eq, Debug, Structural)]
pub enum ObstacleType {
    /// A low barrier that must be jumped.
    JumpOver,
    /// An overhead barrier that must be slid under or jumped over.
    SlideUnder,
}

/// Extent of an obstacle's hit box.
#[derive(Clone, Copy, PartialEq, Eq, Debug, Structural)]
pub struct CollisionShape {
    pub size_x: i64,
    pub size_y: i64,
    pub size_z: i64,
}

#[derive(Clone, Copy, PartialEq, Eq, Debug, Structural)]
pub struct Barricade {
    pub track_index: u8,
    pub obstacle_type: ObstacleType,
    pub z: i64,
    pub shape: CollisionShape,
}

impl Placed for Barricade {
    open spec fn pos(&self) -> i64 {
        self.z
    }

    fn z(&self) -> (r: i64) {
        self.z
    }
}

impl Barricade {
    pub open spec fn wf(&self) -> bool {
        &&& self.track_index < 3
        &&& coord_ok(self.z as int)
        &&& 0 <= self.shape.size_y <= 1_000_000
    }
}

/// Every obstacle of `obstacles` is well formed.
pub open spec fn barricades_wf(obstacles: Seq<Barricade>) -> bool {
    forall|i: int| 0 <= i < obstacles.len() ==> #[trigger] obstacles[i].wf()
}

/// The hit box every obstacle gets.
pub open spec fn standard_shape() -> CollisionShape {
    CollisionShape { size_x: 1500, size_y: 700, size_z: 300 }
}

/// The span around a climbable train on its lane where no obstacle may stand:
/// from twenty units before its ramp to twenty units past its end.
pub open spec fn in_ramp_danger_zone(t: Train, lane: u8, z: int) -> bool {
    &&& t.train_type == TrainType::StationaryWithRamp
    &&& t.track_index == lane
    &&& t.z - t.length / 2 - RAMP_LENGTH - RAMP_BUFFER <= z
    &&& z <= t.z + t.length / 2 + RAMP_BUFFER
}

/// Some train of `trains` keeps position `z` of `lane` clear.
pub open spec fn ramp_conflict(trains: Seq<Train>, lane: u8, z: int) -> bool {
    exists|j: int| 0 <= j < trains.len() && in_ramp_danger_zone(#[trigger] trains[j], lane, z)
}

/// Seed of an obstacle placed on a thin frontier.
pub open spec fn first_obstacle_seed(count: u32, z: i64) -> u32 {
    mix(wrapping_add(wrapping_add(count, fold_position(z, 37)), FIRST_SALT))
}

/// Seed of an obstacle that extends the frontier.
pub open spec fn fill_obstacle_seed(count: u32, z: i64) -> u32 {
    mix(wrapping_add(wrapping_add(wrapping_mul(count, 31), fold_position(z, 53)), FILL_SALT))
}

/// The obstacle a seed gives at `z`, unless a climbable train keeps that spot clear.
pub open spec fn seeded_obstacle(trains: Seq<Train>, seed: u32, z: i64, slide: bool) -> Option<Barricade> {
    let lane = (seed % 3) as u8;
    if ramp_conflict(trains, lane, z as int) {
        None
    } else {
        Some(
            Barricade {
                track_index: lane,
                obstacle_type: if slide {
                    ObstacleType::SlideUnder
                } else {
                    ObstacleType::JumpOver
                },
                z,
                shape: standard_shape(),
            },
        )
    }
}

/// The obstacle the generator places this tick, if any.
pub open spec fn planned_obstacle(obstacles: Seq<Barricade>, trains: Seq<Train>, player_z: i64) -> Option<Barricade> {
    let count = obstacles.len() as u32;
    let furthest = furthest_z(positions(obstacles), player_z);
    if player_z < OBSTACLE_GRACE_Z {
        None
    } else if furthest < player_z + MIN_SPAWN_DISTANCE {
        let z = (player_z + FIRST_SPAWN_AHEAD) as i64;
        let seed = first_obstacle_seed(count, z);
        seeded_obstacle(trains, seed, z, (seed / 7) % 4 == 0)
    } else if furthest + MIN_OBSTACLE_GAP < player_z + MAX_SPAWN_DISTANCE {
        let z = (furthest + MIN_OBSTACLE_GAP) as i64;
        let seed = fill_obstacle_seed(count, z);
        seeded_obstacle(trains, seed, z, (seed / 5) % 3 == 0)
    } else {
        None
    }
}

/// Whether `z` on `lane` lies in the danger zone of a climbable train.
pub fn conflicts_with_ramp(trains: &Vec<Train>, track_index: u8, z: i64) -> (r: bool)
    requires
        trains_wf(trains@),
        coord_ok(z as int),
    ensures
        r == ramp_conflict(trains@, track_index, z as int),
{
    let mut i: usize = 0;
    while i < trains.len()
        invariant
            0 <= i <= trains.len(),
            trains_wf(trains@),
            forall|j: int| 0 <= j < i ==> !in_ramp_danger_zone(#[trigger] trains@[j], track_index, z as int),
        decreases trains.len() - i,
    {
        let t = trains[i];
        assert(t.wf());
        if t.train_type == TrainType::StationaryWithRamp && t.track_index == track_index {
            let half = t.length / 2;
            let ramp_start = t.z - half - RAMP_LENGTH - RAMP_BUFFER;
            let train_end = t.z + half + RAMP_BUFFER;
            if z >= ramp_start && z <= train_end {
                assert(in_ramp_danger_zone(trains@[i as int], track_index, z as int));
                return true;
            }
        }
        i += 1;
    }
    false
}

/// Records an obstacle of the given kind at `z_position` on a lane.
pub fn spawn_obstacle(
    obstacles: &mut Vec<Barricade>,
    track_index: u8,
    z_position: i64,
    obstacle_type: ObstacleType,
) -> (r: Barricade)
    ensures
        r == (Barricade { track_index, obstacle_type, z: z_position, shape: standard_shape() }),
        final(obstacles)@ == old(obstacles)@.push(r),
{
    let r = Barricade {
        track_index,
        obstacle_type,
        z: z_position,
        shape: CollisionShape { size_x: 1500, size_y: 700, size_z: 300 },
    };
    obstacles.push(r);
    r
}

fn place_seeded(
    obstacles: &mut Vec<Barricade>,
    trains: &Vec<Train>,
    seed: u32,
    z: i64,
    slide: bool,
) -> (r: Option<Barricade>)
    requires
        trains_wf(trains@),
        coord_ok(z as int),
    ensures
        r == seeded_obstacle(trains@, seed, z, slide),
        final(obstacles)@ == match r {
            Some(b) => old(obstacles)@.push(b),
            None => old(obstacles)@,
        },
{
    let lane = (seed % 3) as u8;
    if conflicts_with_ramp(trains, lane, z) {
        return None;
    }
    let kind = if slide {
        ObstacleType::SlideUnder
    } else {
        ObstacleType::JumpOver
    };
    Some(spawn_obstacle(obstacles, lane, z, kind))
}

/// Places at most one obstacle ahead of a player at `player_z`.
///
/// Nothing happens before the grace position. When the furthest obstacle (or
/// the player, if none is further) is less than fifty units ahead, the
/// candidate stands 65 units ahead of the player; else, while the frontier is
/// short of a hundred units ahead, it stands twenty units past the frontier if
/// that is still short of it. Lane and kind come from a seed of the obstacle
/// count and the candidate position; a candidate inside a climbable train's
/// danger zone is dropped for this tick.
pub fn generate_obstacles_procedurally(
    obstacles: &mut Vec<Barricade>,
    trains: &Vec<Train>,
    player_z: i64,
) -> (r: Option<Barricade>)
    requires
        barricades_wf(old(obstacles)@),
        old(obstacles)@.len() <= u32::MAX,
        trains_wf(trains@),
        player_pos_ok(player_z as int),
    ensures
        r == planned_obstacle(old(obstacles)@, trains@, player_z),
        barricades_wf(final(obstacles)@),
        final(obstacles)@ == match r {
            Some(b) => old(obstacles)@.push(b),
            None => old(obstacles)@,
        },
        r matches Some(b) ==> forall|j: int|
            0 <= j < trains@.len() ==> !in_ramp_danger_zone(#[trigger] trains@[j], b.track_index, b.z as int),
        r matches Some(b) ==> b.z > furthest_z(positions(old(obstacles)@), player_z),
{
    if player_z < OBSTACLE_GRACE_Z {
        return None;
    }
    let count = obstacles.len() as u32;
    let furthest = furthest_position(obstacles, player_z);
    proof {
        assert forall|i: int| 0 <= i < obstacles@.len() implies coord_ok((#[trigger] obstacles@[i]).pos() as int) by {
            assert(obstacles@[i].wf());
        }
        lemma_frontier_in_range(obstacles@, player_z);
    }
    if furthest < player_z + MIN_SPAWN_DISTANCE {
        let z = player_z + FIRST_SPAWN_AHEAD;
        let seed = pseudo_random(count.wrapping_add(fold(z, 37)).wrapping_add(FIRST_SALT));
        let r = place_seeded(obstacles, trains, seed, z, (seed / 7) % 4 == 0);
        proof {
            lemma_push_keeps_wf(old(obstacles)@, r);
        }
        r
    } else if furthest + MIN_OBSTACLE_GAP < player_z + MAX_SPAWN_DISTANCE {
        let z = furthest + MIN_OBSTACLE_GAP;
        let seed = pseudo_random(
            count.wrapping_mul(31).wrapping_add(fold(z, 53)).wrapping_add(FILL_SALT),
        );
        let r = place_seeded(obstacles, trains, seed, z, (seed / 5) % 3 == 0);
        proof {
            lemma_push_keeps_wf(old(obstacles)@, r);
        }
        r
    } else {
        None
    }
}

proof fn lemma_push_keeps_wf(obstacles: Seq<Barricade>, r: Option<Barricade>)
    requires
        barricades_wf(obstacles),
        r matches Some(b) ==> b.wf(),
    ensures
        barricades_wf(match r {
            Some(b) => obstacles.push(b),
            None => obstacles,
        }),
{
    if let Some(b) = r {
        assert forall|i: int| 0 <= i < obstacles.len() + 1 implies #[trigger] obstacles.push(b)[i].wf() by {
            if i < obstacles.len() {
                assert(obstacles.push(b)[i] == obstacles[i]);
            }
        }
    }
}

/// Removes the obstacles more than twenty units behind the camera; the
/// result marks, index by index, the obstacles removed.
pub fn recycle_barricades(obstacles: &mut Vec<Barricade>, camera_z: i64) -> (removed: Vec<bool>)
    requires
        coord_ok(camera_z as int),
    ensures
        final(obstacles)@ == old(obstacles)@.filter(at_or_ahead::<Barricade>((camera_z - OBSTACLE_RECYCLE_MARGIN) as i64)),
        removed@.len() == old(obstacles)@.len(),
        forall|i: int|
            0 <= i < removed@.len() ==> removed@[i] == (old(obstacles)@[i].z < camera_z - OBSTACLE_RECYCLE_MARGIN),
{
    retain_from(obstacles, camera_z - OBSTACLE_RECYCLE_MARGIN)
}

/// The obstacle choice is reproducible: it depends on the live obstacles only
/// through their count and positions, so two worlds that agree on those, on
/// the trains and on the player's position get the same obstacle, lane and kind.
pub proof fn lemma_obstacle_choice_deterministic(
    a: Seq<Barricade>,
    b: Seq<Barricade>,
    trains: Seq<Train>,
    player_z: i64,
)
    requires
        a.len() == b.len(),
        positions(a) == positions(b),
    ensures
        planned_obstacle(a, trains, player_z) == planned_obstacle(b, trains, player_z),
{
}

} // verus!
