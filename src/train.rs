//! Trains: placement ahead of the player, convoy motion and recycling.
use vstd::prelude::*;
use vstd::wrapping::u32_specs::{wrapping_add, wrapping_mul};
use crate::placed::{
    at_or_ahead, coord_ok, furthest_position, furthest_z, lemma_frontier_in_range, player_pos_ok,
    positions, retain_from, Placed,
};
use crate::rng::{fold, fold_position, mix, pseudo_random};

verus! {

/// Length of every generated train.
pub const TRAIN_LENGTH: i64 = 8000;
/// Height of a train's top platform above the ground.
pub const TRAIN_TOP: i64 = 2300;
/// Longitudinal extent of the ramp in front of a climbable train.
pub const RAMP_LENGTH: i64 = 6000;
/// Number of step colliders that make up a ramp.
pub const RAMP_STEPS: usize = 20;
/// Longitudinal extent of one ramp step.
pub const RAMP_STEP_LENGTH: i64 = 300;
/// Trains appear only once the player has passed this position.
pub const TRAIN_GRACE_Z: i64 = 50_000;
/// A new train is placed when the frontier is nearer than this to the player.
pub const TRAIN_MIN_SPAWN_DISTANCE: i64 = 80_000;
/// The frontier is never pushed beyond this distance ahead of the player.
pub const TRAIN_MAX_SPAWN_DISTANCE: i64 = 150_000;
/// Spacing of a train that extends the frontier.
pub const MIN_TRAIN_GAP: i64 = 40_000;
/// Distance ahead of the player of a train placed on a thin frontier.
pub const TRAIN_FIRST_AHEAD: i64 = 100_000;
/// Smallest gap a moving train keeps to the train ahead of it, before its own step.
pub const MIN_CONVOY_GAP: i64 = 2000;
/// Trains and their tops further than this behind the camera are removed.
pub const TRAIN_RECYCLE_MARGIN: i64 = 30_000;
/// Ramps and fixtures further than this behind the camera are removed.
pub const PART_RECYCLE_MARGIN: i64 = 35_000;
/// Largest time step, in milliseconds.
pub const DT_LIMIT: i64 = 1_000_000;
pub const TRAIN_FIRST_SALT: u32 = 0xBEEF_CAFE;
pub const TRAIN_FILL_SALT: u32 = 0xDEAD_FACE;

/// Largest length a train record may have.
pub const LENGTH_LIMIT: i64 = 1_000_000_000;
/// Largest speed a train record may have.
pub const SPEED_LIMIT: i64 = 1_000_000_000;

#[derive(Clone, Copy, PartialEq, Eq, Debug, Structural)]
pub enum TrainType {
    /// Sits still; the player must change lanes.
    Stationary,
    /// Sits still and has a ramp up to its top.
    StationaryWithRamp,
    /// Comes towards the player.
    Moving,
}

#[derive(Clone, Copy, PartialEq, Eq, Debug, Structural)]
pub struct Train {
    pub track_index: u8,
    pub train_type: TrainType,
    pub length: i64,
    /// Thousandths of a unit per second; zero unless moving.
    pub speed: i64,
    /// Longitudinal position of the train's centre.
    pub z: i64,
}

impl Placed for Train {
    open spec fn pos(&self) -> i64 {
        self.z
    }

    fn z(&self) -> (r: i64) {
        self.z
    }
}

impl Train {
    pub open spec fn wf(&self) -> bool {
        &&& self.track_index < 3
        &&& 0 <= self.length <= LENGTH_LIMIT
        &&& 0 <= self.speed <= SPEED_LIMIT
        &&& coord_ok(self.z as int)
    }
}

/// Every train of `trains` is well formed.
pub open spec fn trains_wf(trains: Seq<Train>) -> bool {
    forall|i: int| 0 <= i < trains.len() ==> #[trigger] trains[i].wf()
}

#[derive(Clone, Copy, PartialEq, Eq, Debug, Structural)]
pub enum TrainPartKind {
    /// The sloped ramp in front of a climbable train.
    Ramp,
    /// The walkable platform on top of a train.
    Top,
    /// A ramp step collider, the bridge onto the top, or a ramp rail.
    Fixture,
}

/// A piece of a train placed apart from the train itself.
#[derive(Clone, Copy, PartialEq, Eq, Debug, Structural)]
pub struct TrainPart {
    pub kind: TrainPartKind,
    pub z: i64,
}

/// The pieces placed with train `t`: for a climbable train its ramp, the
/// ramp's steps, the bridge onto the top and the ramp's two rails; for every
/// train its top, last.
pub open spec fn part_layout(t: Train) -> Seq<TrainPart> {
    let top = seq![TrainPart { kind: TrainPartKind::Top, z: t.z }];
    if t.train_type == TrainType::StationaryWithRamp {
        let back = t.z - t.length / 2;
        let ramp_start = back - RAMP_LENGTH;
        let ramp_centre = (back - RAMP_LENGTH / 2) as i64;
        seq![TrainPart { kind: TrainPartKind::Ramp, z: ramp_centre }]
            + Seq::new(
            RAMP_STEPS as nat,
            |i: int|
                TrainPart {
                    kind: TrainPartKind::Fixture,
                    z: (ramp_start + i * RAMP_STEP_LENGTH + RAMP_STEP_LENGTH / 2) as i64,
                },
        ) + seq![
            TrainPart { kind: TrainPartKind::Fixture, z: (back - 250) as i64 },
            TrainPart { kind: TrainPartKind::Fixture, z: ramp_centre },
            TrainPart { kind: TrainPartKind::Fixture, z: ramp_centre },
        ] + top
    } else {
        top
    }
}

/// The record of a train placed on `lane` at `z`; a moving one runs at
/// seven tenths of `current_speed`.
pub open spec fn train_record(lane: u8, z: i64, kind: TrainType, current_speed: i64) -> Train {
    Train {
        track_index: lane,
        train_type: kind,
        length: TRAIN_LENGTH,
        speed: if kind == TrainType::Moving {
            (current_speed * 7 / 10) as i64
        } else {
            0
        },
        z,
    }
}

/// Records a train of the given kind at `z_position` on a lane, and the
/// pieces placed with it.
pub fn spawn_train(
    trains: &mut Vec<Train>,
    parts: &mut Vec<TrainPart>,
    track_index: u8,
    z_position: i64,
    train_type: TrainType,
    current_speed: i64,
) -> (r: Train)
    requires
        coord_ok(z_position as int),
        0 <= current_speed <= SPEED_LIMIT,
    ensures
        r == train_record(track_index, z_position, train_type, current_speed),
        final(trains)@ == old(trains)@.push(r),
        final(parts)@ == old(parts)@ + part_layout(r),
{
    let speed = match train_type {
        TrainType::Moving => current_speed * 7 / 10,
        _ => 0,
    };
    let r = Train { track_index, train_type, length: TRAIN_LENGTH, speed, z: z_position };
    trains.push(r);
    let ghost start = parts@;
    if train_type == TrainType::StationaryWithRamp {
        let back = z_position - TRAIN_LENGTH / 2;
        let ramp_start = back - RAMP_LENGTH;
        let ramp_centre = back - RAMP_LENGTH / 2;
        parts.push(TrainPart { kind: TrainPartKind::Ramp, z: ramp_centre });
        let mut i: usize = 0;
        while i < RAMP_STEPS
            invariant
                0 <= i <= RAMP_STEPS,
                coord_ok(z_position as int),
                back == z_position - TRAIN_LENGTH / 2,
                ramp_start == back - RAMP_LENGTH,
                ramp_centre == back - RAMP_LENGTH / 2,
                parts@ == start + seq![TrainPart { kind: TrainPartKind::Ramp, z: ramp_centre }]
                    + Seq::new(
                    i as nat,
                    |k: int|
                        TrainPart {
                            kind: TrainPartKind::Fixture,
                            z: (ramp_start + k * RAMP_STEP_LENGTH + RAMP_STEP_LENGTH / 2) as i64,
                        },
                ),
            decreases RAMP_STEPS - i,
        {
            let step_z = ramp_start + (i as i64) * RAMP_STEP_LENGTH + RAMP_STEP_LENGTH / 2;
            parts.push(TrainPart { kind: TrainPartKind::Fixture, z: step_z });
            i += 1;
        }
        parts.push(TrainPart { kind: TrainPartKind::Fixture, z: back - 250 });
        parts.push(TrainPart { kind: TrainPartKind::Fixture, z: ramp_centre });
        parts.push(TrainPart { kind: TrainPartKind::Fixture, z: ramp_centre });
    }
    parts.push(TrainPart { kind: TrainPartKind::Top, z: z_position });
    assert(parts@ =~= start + part_layout(r));
    r
}

/// Kind of a train from its seed: a fifth climbable, two fifths stationary,
/// two fifths moving.
pub open spec fn kind_of_seed(seed: u32) -> TrainType {
    let k = seed % 5;
    if k == 0 {
        TrainType::StationaryWithRamp
    } else if k == 1 || k == 2 {
        TrainType::Stationary
    } else {
        TrainType::Moving
    }
}

fn train_kind(seed: u32) -> (r: TrainType)
    ensures
        r == kind_of_seed(seed),
{
    match seed % 5 {
        0 => TrainType::StationaryWithRamp,
        1 | 2 => TrainType::Stationary,
        _ => TrainType::Moving,
    }
}

/// Seed of a train placed on a thin frontier.
pub open spec fn first_train_seed(count: u32, z: i64) -> u32 {
    mix(wrapping_add(wrapping_add(count, fold_position(z, 23)), TRAIN_FIRST_SALT))
}

/// Seed of a train that extends the frontier.
pub open spec fn fill_train_seed(count: u32, z: i64) -> u32 {
    mix(wrapping_add(wrapping_add(wrapping_mul(count, 23), fold_position(z, 41)), TRAIN_FILL_SALT))
}

/// The train the generator places this tick, if any.
pub open spec fn planned_train(trains: Seq<Train>, player_z: i64, current_speed: i64) -> Option<Train> {
    let count = trains.len() as u32;
    let furthest = furthest_z(positions(trains), player_z);
    if player_z < TRAIN_GRACE_Z {
        None
    } else if furthest < player_z + TRAIN_MIN_SPAWN_DISTANCE {
        let z = (player_z + TRAIN_FIRST_AHEAD) as i64;
        let seed = first_train_seed(count, z);
        Some(train_record((seed % 3) as u8, z, kind_of_seed(seed), current_speed))
    } else if furthest + MIN_TRAIN_GAP < player_z + TRAIN_MAX_SPAWN_DISTANCE {
        let z = (furthest + MIN_TRAIN_GAP) as i64;
        let seed = fill_train_seed(count, z);
        Some(train_record((seed % 3) as u8, z, kind_of_seed(seed), current_speed))
    } else {
        None
    }
}

/// Places at most one train ahead of a player at `player_z`, with its pieces.
///
/// Nothing happens before the grace position. When the furthest train (or the
/// player, if none is further) is less than 80 units ahead, the train stands a
/// hundred units ahead of the player; else it stands forty units past the
/// frontier if that is short of 150 units ahead. Lane and kind come from a
/// seed of the train count and the chosen position.
pub fn generate_trains_procedurally(
    trains: &mut Vec<Train>,
    parts: &mut Vec<TrainPart>,
    player_z: i64,
    current_speed: i64,
) -> (r: Option<Train>)
    requires
        trains_wf(old(trains)@),
        old(trains)@.len() <= u32::MAX,
        player_pos_ok(player_z as int),
        0 <= current_speed <= SPEED_LIMIT,
    ensures
        r == planned_train(old(trains)@, player_z, current_speed),
        r matches Some(t) ==> t.z > furthest_z(positions(old(trains)@), player_z),
        trains_wf(final(trains)@),
        final(trains)@ == match r {
            Some(t) => old(trains)@.push(t),
            None => old(trains)@,
        },
        final(parts)@ == match r {
            Some(t) => old(parts)@ + part_layout(t),
            None => old(parts)@,
        },
{
    if player_z < TRAIN_GRACE_Z {
        return None;
    }
    let count = trains.len() as u32;
    let furthest = furthest_position(trains, player_z);
    proof {
        assert forall|i: int| 0 <= i < trains@.len() implies coord_ok((#[trigger] trains@[i]).pos() as int) by {
            assert(trains@[i].wf());
        }
        lemma_frontier_in_range(trains@, player_z);
    }
    let z;
    let seed;
    if furthest < player_z + TRAIN_MIN_SPAWN_DISTANCE {
        z = player_z + TRAIN_FIRST_AHEAD;
        seed = pseudo_random(count.wrapping_add(fold(z, 23)).wrapping_add(TRAIN_FIRST_SALT));
    } else if furthest + MIN_TRAIN_GAP < player_z + TRAIN_MAX_SPAWN_DISTANCE {
        z = furthest + MIN_TRAIN_GAP;
        seed = pseudo_random(
            count.wrapping_mul(23).wrapping_add(fold(z, 41)).wrapping_add(TRAIN_FILL_SALT),
        );
    } else {
        return None;
    }
    let kind = train_kind(seed);
    let t = spawn_train(trains, parts, (seed % 3) as u8, z, kind, current_speed);
    assert(t.wf());
    assert forall|i: int| 0 <= i < trains@.len() implies #[trigger] trains@[i].wf() by {
        if i < trains@.len() - 1 {
            assert(trains@[i] == old(trains)@[i]);
        }
    }
    Some(t)
}

/// Distance a train at `speed` covers in `dt` milliseconds.
pub open spec fn step_length(speed: i64, dt: i64) -> int {
    speed * dt / 1000
}

/// Train `other` blocks moving train `me`: it is on the same lane, its front
/// edge lies ahead of `me`'s back edge (towards the player) and the gap
/// between them is under two units plus the distance `me` covers at its speed
/// in `dt` milliseconds. Edges lie half a length from a train's centre; the
/// comparison is made on doubled positions, and in millionths for the
/// distance covered, so that it is exact.
pub open spec fn blocks(me: Train, other: Train, dt: i64) -> bool {
    let my_back2 = 2 * me.z - me.length;
    let other_front2 = 2 * other.z + other.length;
    &&& other.track_index == me.track_index
    &&& other_front2 < my_back2
    &&& 1000 * (my_back2 - other_front2) < 2 * (1000 * MIN_CONVOY_GAP + me.speed * dt)
}

/// Some other train of `trains` blocks train `i`.
pub open spec fn blocked(trains: Seq<Train>, i: int, dt: i64) -> bool {
    exists|j: int| 0 <= j < trains.len() && j != i && blocks(trains[i], #[trigger] trains[j], dt)
}

/// Train `i` after one step: a moving train that nothing blocks advances
/// towards the player by its step; every other train stays.
pub open spec fn moved_train(trains: Seq<Train>, i: int, dt: i64) -> Train {
    let t = trains[i];
    if t.train_type == TrainType::Moving && !blocked(trains, i, dt) {
        Train { z: (t.z - step_length(t.speed, dt)) as i64, ..t }
    } else {
        t
    }
}

/// Every moving train of `trains` can take its step without leaving the world.
pub open spec fn steps_in_range(trains: Seq<Train>, dt: i64) -> bool {
    forall|i: int|
        0 <= i < trains.len() && (#[trigger] trains[i]).train_type == TrainType::Moving
            ==> coord_ok(trains[i].z - step_length(trains[i].speed, dt))
}

fn is_blocked(trains: &Vec<Train>, i: usize, dt: i64) -> (r: bool)
    requires
        i < trains@.len(),
        trains_wf(trains@),
        0 <= dt <= DT_LIMIT,
    ensures
        r == blocked(trains@, i as int, dt),
{
    let me = trains[i];
    assert(me.wf());
    let my_back2 = 2 * me.z - me.length;
    assert(0 <= me.speed * dt <= SPEED_LIMIT * DT_LIMIT) by (nonlinear_arith)
        requires
            0 <= me.speed <= SPEED_LIMIT,
            0 <= dt <= DT_LIMIT,
    ;
    let reach = 2 * (1000 * MIN_CONVOY_GAP + me.speed * dt);
    let mut j: usize = 0;
    while j < trains.len()
        invariant
            0 <= j <= trains.len(),
            i < trains@.len(),
            trains_wf(trains@),
            me == trains@[i as int],
            me.wf(),
            my_back2 == 2 * me.z - me.length,
            reach == 2 * (1000 * MIN_CONVOY_GAP + me.speed * dt),
            forall|k: int| 0 <= k < j && k != i ==> !blocks(me, #[trigger] trains@[k], dt),
        decreases trains.len() - j,
    {
        if j != i {
            let other = trains[j];
            assert(other.wf());
            if other.track_index == me.track_index {
                let other_front2 = 2 * other.z + other.length;
                if other_front2 < my_back2 && 1000 * (my_back2 - other_front2) < reach {
                    assert(blocks(me, trains@[j as int], dt));
                    return true;
                }
            }
        }
        j += 1;
    }
    false
}

/// Advances every moving train that is not blocked by `dt` milliseconds of
/// its speed towards the player. Blocking is judged on the positions before
/// any train moves, so trains queue behind one another instead of overlapping.
pub fn move_trains(trains: &mut Vec<Train>, dt: i64)
    requires
        trains_wf(old(trains)@),
        0 <= dt <= DT_LIMIT,
        steps_in_range(old(trains)@, dt),
    ensures
        final(trains)@.len() == old(trains)@.len(),
        forall|i: int| 0 <= i < old(trains)@.len() ==> #[trigger] final(trains)@[i] == moved_train(old(trains)@, i, dt),
        trains_wf(final(trains)@),
{
    let mut moved: Vec<Train> = Vec::new();
    let mut i: usize = 0;
    while i < trains.len()
        invariant
            0 <= i <= trains.len(),
            trains_wf(trains@),
            0 <= dt <= DT_LIMIT,
            steps_in_range(trains@, dt),
            moved@.len() == i,
            forall|k: int| 0 <= k < i ==> #[trigger] moved@[k] == moved_train(trains@, k, dt),
            forall|k: int| 0 <= k < i ==> (#[trigger] moved@[k]).wf(),
        decreases trains.len() - i,
    {
        let t = trains[i];
        assert(t.wf());
        if t.train_type == TrainType::Moving && !is_blocked(trains, i, dt) {
            assert(0 <= t.speed * dt <= SPEED_LIMIT * DT_LIMIT) by (nonlinear_arith)
                requires
                    0 <= t.speed <= SPEED_LIMIT,
                    0 <= dt <= DT_LIMIT,
            ;
            moved.push(Train { z: t.z - t.speed * dt / 1000, ..t });
        } else {
            moved.push(t);
        }
        i += 1;
    }
    *trains = moved;
}

/// Trains queue rather than overlap: after a step, the gap between a train
/// and a train ahead of it on its lane is at least the smaller of the old gap
/// and two units (gaps measured doubled, between back and front edges).
pub proof fn lemma_convoy_keeps_gap(trains: Seq<Train>, i: int, j: int, dt: i64)
    requires
        trains_wf(trains),
        0 <= dt <= DT_LIMIT,
        steps_in_range(trains, dt),
        0 <= i < trains.len(),
        0 <= j < trains.len(),
        i != j,
        trains[i].track_index == trains[j].track_index,
        2 * trains[j].z + trains[j].length < 2 * trains[i].z - trains[i].length,
    ensures
        ({
            let gap2 = (2 * trains[i].z - trains[i].length) - (2 * trains[j].z + trains[j].length);
            let new_gap2 = (2 * moved_train(trains, i, dt).z - trains[i].length) - (2 * moved_train(
                trains,
                j,
                dt,
            ).z + trains[j].length);
            new_gap2 >= gap2 || new_gap2 >= 2 * MIN_CONVOY_GAP
        }),
{
    let ti = trains[i];
    let tj = trains[j];
    assert(ti.wf() && tj.wf());
    assert(0 <= step_length(tj.speed, dt)) by (nonlinear_arith)
        requires
            0 <= tj.speed,
            0 <= dt,
    ;
    assert(moved_train(trains, j, dt).z <= tj.z);
    if ti.train_type == TrainType::Moving && !blocked(trains, i, dt) {
        assert(!blocks(ti, trains[j], dt));
        assert(moved_train(trains, i, dt).z == ti.z - step_length(ti.speed, dt));
        assert(1000 * step_length(ti.speed, dt) <= ti.speed * dt) by (nonlinear_arith)
            requires
                0 <= ti.speed,
                0 <= dt,
        ;
    }
}

/// A piece stays while it stands within its margin behind the camera:
/// thirty units for a top, thirty-five for a ramp or fixture.
pub open spec fn part_kept(p: TrainPart, camera_z: i64) -> bool {
    if p.kind == TrainPartKind::Top {
        p.z >= camera_z - TRAIN_RECYCLE_MARGIN
    } else {
        p.z >= camera_z - PART_RECYCLE_MARGIN
    }
}

/// Keeps a piece that [`part_kept`] keeps.
pub open spec fn part_kept_by(camera_z: i64) -> spec_fn(TrainPart) -> bool {
    |p: TrainPart| part_kept(p, camera_z)
}

/// Removes the trains more than thirty units behind the camera, and the
/// pieces behind their own margin; the results mark, index by index, the
/// trains and the pieces removed.
pub fn recycle_trains(trains: &mut Vec<Train>, parts: &mut Vec<TrainPart>, camera_z: i64) -> (r: (Vec<bool>, Vec<bool>))
    requires
        coord_ok(camera_z as int),
    ensures
        final(trains)@ == old(trains)@.filter(at_or_ahead::<Train>((camera_z - TRAIN_RECYCLE_MARGIN) as i64)),
        r.0@.len() == old(trains)@.len(),
        forall|i: int| 0 <= i < r.0@.len() ==> r.0@[i] == (old(trains)@[i].z < camera_z - TRAIN_RECYCLE_MARGIN),
        final(parts)@ == old(parts)@.filter(part_kept_by(camera_z)),
        r.1@.len() == old(parts)@.len(),
        forall|i: int| 0 <= i < r.1@.len() ==> r.1@[i] == !part_kept(old(parts)@[i], camera_z),
{
    let removed_trains = retain_from(trains, camera_z - TRAIN_RECYCLE_MARGIN);
    let ghost orig = parts@;
    let mut kept: Vec<TrainPart> = Vec::new();
    let mut removed: Vec<bool> = Vec::new();
    let mut i: usize = 0;
    while i < parts.len()
        invariant
            parts@ == orig,
            coord_ok(camera_z as int),
            0 <= i <= orig.len(),
            kept@ == orig.take(i as int).filter(part_kept_by(camera_z)),
            removed@.len() == i,
            forall|j: int| 0 <= j < i ==> removed@[j] == !part_kept(orig[j], camera_z),
        decreases orig.len() - i,
    {
        proof {
            reveal(Seq::filter);
            assert(orig.take(i + 1).drop_last() =~= orig.take(i as int));
        }
        let p = parts[i];
        let margin = if p.kind == TrainPartKind::Top {
            TRAIN_RECYCLE_MARGIN
        } else {
            PART_RECYCLE_MARGIN
        };
        let keep = p.z >= camera_z - margin;
        if keep {
            kept.push(p);
        }
        removed.push(!keep);
        i += 1;
    }
    assert(orig.take(orig.len() as int) =~= orig);
    *parts = kept;
    (removed_trains, removed)
}

/// The train choice is reproducible: it depends on the live trains only
/// through their count and positions, so two worlds that agree on those, on
/// the player's position and on the speed get the same train, lane and kind.
pub proof fn lemma_train_choice_deterministic(a: Seq<Train>, b: Seq<Train>, player_z: i64, current_speed: i64)
    requires
        a.len() == b.len(),
        positions(a) == positions(b),
    ensures
        planned_train(a, player_z, current_speed) == planned_train(b, player_z, current_speed),
{
}

} // verus!
