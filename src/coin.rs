//! Coins: batches placed ahead of the player in one of four layouts, kept
//! clear of trains and obstacles; pickup and recycling.
use vstd::prelude::*;
use vstd::wrapping::u32_specs::wrapping_add;
use crate::config::{Score, SPACING_LIMIT};
use crate::obstacle::{barricades_wf, Barricade};
use crate::placed::{
    at_or_ahead, coord_ok, furthest_position, furthest_z, lemma_frontier_in_range, player_pos_ok,
    positions, retain_from, Placed, COORD_LIMIT,
};
use crate::player::{lane_offset, lane_x};
use crate::rng::{fold, fold_position, mix, pseudo_random};
use crate::train::{trains_wf, Train};

verus! {

broadcast use vstd::seq_lib::group_filter_ensures;

/// Coins appear only once the player has passed this position.
pub const COIN_GRACE_Z: i64 = 15_000;
/// A batch is placed when the frontier is nearer than this to the player.
pub const COIN_MIN_SPAWN_DISTANCE: i64 = 40_000;
/// No coin is placed this far or further ahead of the player.
pub const COIN_MAX_SPAWN_DISTANCE: i64 = 120_000;
/// Spacing between a batch and the frontier.
pub const MIN_COIN_GAP: i64 = 8000;
/// A batch is placed while fewer coins than this are live.
pub const MIN_LIVE_COINS: usize = 10;
/// Clearance a coin keeps from an obstacle, and beyond a train's half length.
pub const COIN_CLEARANCE: i64 = 2000;
/// Height of a coin above the ground, before its layout offset.
pub const COIN_HEIGHT: i64 = 800;
/// Coins further than this behind the camera are removed.
pub const COIN_RECYCLE_MARGIN: i64 = 15_000;
pub const COIN_SALT: u32 = 0x0C01_CA7E;

#[derive(Clone, Copy, PartialEq, Eq, Debug, Structural)]
pub struct Coin {
    pub track_index: u8,
    pub z: i64,
    /// Height above the standard coin height.
    pub y_offset: i64,
}

impl Placed for Coin {
    open spec fn pos(&self) -> i64 {
        self.z
    }

    fn z(&self) -> (r: i64) {
        self.z
    }
}

impl Coin {
    pub open spec fn wf(&self) -> bool {
        &&& self.track_index < 3
        &&& coord_ok(self.z as int)
        &&& 0 <= self.y_offset <= 1000
    }
}

/// Every coin of `coins` is well formed.
pub open spec fn coins_wf(coins: Seq<Coin>) -> bool {
    forall|i: int| 0 <= i < coins.len() ==> #[trigger] coins[i].wf()
}

/// Position `z` of `lane` is at least two units from every obstacle of that
/// lane, and further than half a train's length plus two units from every
/// train of that lane.
pub open spec fn coin_clear(lane: u8, z: int, trains: Seq<Train>, obstacles: Seq<Barricade>) -> bool {
    &&& forall|j: int|
        0 <= j < trains.len() && (#[trigger] trains[j]).track_index == lane ==> {
            let half = trains[j].length / 2 + COIN_CLEARANCE;
            z < trains[j].z - half || z > trains[j].z + half
        }
    &&& forall|k: int|
        0 <= k < obstacles.len() && (#[trigger] obstacles[k]).track_index == lane ==> {
            z - obstacles[k].z >= COIN_CLEARANCE || obstacles[k].z - z >= COIN_CLEARANCE
        }
}

/// Whether `z` on `lane` is clear of every train and obstacle of that lane.
pub fn position_is_clear(lane: u8, z: i64, trains: &Vec<Train>, obstacles: &Vec<Barricade>) -> (r: bool)
    requires
        coord_ok(z as int),
        trains_wf(trains@),
        barricades_wf(obstacles@),
    ensures
        r == coin_clear(lane, z as int, trains@, obstacles@),
{
    let mut j: usize = 0;
    while j < trains.len()
        invariant
            0 <= j <= trains.len(),
            trains_wf(trains@),
            coord_ok(z as int),
            forall|i: int|
                0 <= i < j && (#[trigger] trains@[i]).track_index == lane ==> {
                    let half = trains@[i].length / 2 + COIN_CLEARANCE;
                    z < trains@[i].z - half || z > trains@[i].z + half
                },
        decreases trains.len() - j,
    {
        let t = trains[j];
        assert(t.wf());
        if t.track_index == lane {
            let half = t.length / 2 + COIN_CLEARANCE;
            if z >= t.z - half && z <= t.z + half {
                return false;
            }
        }
        j += 1;
    }
    let mut k: usize = 0;
    while k < obstacles.len()
        invariant
            0 <= k <= obstacles.len(),
            barricades_wf(obstacles@),
            coord_ok(z as int),
            forall|i: int|
                0 <= i < k && (#[trigger] obstacles@[i]).track_index == lane ==> {
                    z - obstacles@[i].z >= COIN_CLEARANCE || obstacles@[i].z - z >= COIN_CLEARANCE
                },
        decreases obstacles.len() - k,
    {
        let b = obstacles[k];
        assert(b.wf());
        if b.track_index == lane && z - b.z < COIN_CLEARANCE && b.z - z < COIN_CLEARANCE {
            return false;
        }
        k += 1;
    }
    true
}

/// Seed of a coin batch.
pub open spec fn coin_seed(count: u32, base_z: i64) -> u32 {
    mix(wrapping_add(wrapping_add(count, fold_position(base_z, 73)), COIN_SALT))
}

/// Number of coins in the layout a seed picks: three for the cluster, else five.
pub open spec fn layout_size(seed: u32) -> nat {
    if seed % 4 == 3 {
        3
    } else {
        5
    }
}

/// Height offsets of the arc layout: `0, 0.5, 1, 0.5, 0` units.
pub open spec fn arc_height(i: int) -> i64 {
    if i == 2 {
        1000
    } else if i == 1 || i == 3 {
        500
    } else {
        0
    }
}

/// Coin `i` of the layout that `seed` picks, for a batch based at `base_z`:
/// a straight run two units apart on one lane; a diagonal run 2.5 units apart
/// stepping across lanes one way or the other; an arc two units apart on one
/// lane; or one coin on each lane, half a unit further per lane.
pub open spec fn candidate(seed: u32, base_z: i64, i: int) -> Coin {
    let pattern = seed % 4;
    let lane = ((seed / 4) % 3) as u8;
    if pattern == 0 {
        Coin { track_index: lane, z: (base_z + 2000 * i) as i64, y_offset: 0 }
    } else if pattern == 1 {
        let direction: int = if (seed / 12) % 2 == 0 { 1 } else { -1 };
        Coin {
            track_index: ((lane + direction * (i % 3)) % 3) as u8,
            z: (base_z + 2500 * i) as i64,
            y_offset: 0,
        }
    } else if pattern == 2 {
        Coin { track_index: lane, z: (base_z + 2000 * i) as i64, y_offset: arc_height(i) }
    } else {
        Coin { track_index: i as u8, z: (base_z + 500 * i) as i64, y_offset: 0 }
    }
}

/// The layout that `seed` picks, based at `base_z`, before any coin is dropped.
pub open spec fn layout(seed: u32, base_z: i64) -> Seq<Coin> {
    Seq::new(layout_size(seed), |i: int| candidate(seed, base_z, i))
}

/// A coin is placed when it stands short of the far limit and clear of
/// trains and obstacles.
pub open spec fn coin_allowed(c: Coin, player_z: i64, trains: Seq<Train>, obstacles: Seq<Barricade>) -> bool {
    &&& c.z < player_z + COIN_MAX_SPAWN_DISTANCE
    &&& coin_clear(c.track_index, c.z as int, trains, obstacles)
}

/// Keeps a coin that [`coin_allowed`] allows.
pub open spec fn allowed_by(player_z: i64, trains: Seq<Train>, obstacles: Seq<Barricade>) -> spec_fn(Coin) -> bool {
    |c: Coin| coin_allowed(c, player_z, trains, obstacles)
}

/// Base of the next batch: eight units past the frontier when that lies ahead
/// of the player, else forty units ahead of the player.
pub open spec fn batch_base(furthest: i64, player_z: i64) -> i64 {
    if furthest > player_z {
        (furthest + MIN_COIN_GAP) as i64
    } else {
        (player_z + COIN_MIN_SPAWN_DISTANCE) as i64
    }
}

/// The coins the generator places this tick, in order.
pub open spec fn planned_coins(coins: Seq<Coin>, trains: Seq<Train>, obstacles: Seq<Barricade>, player_z: i64) -> Seq<Coin> {
    let count = coins.len() as u32;
    let furthest = furthest_z(positions(coins), player_z);
    if player_z < COIN_GRACE_Z {
        Seq::empty()
    } else if furthest < player_z + COIN_MIN_SPAWN_DISTANCE || coins.len() < MIN_LIVE_COINS {
        let base = batch_base(furthest, player_z);
        layout(coin_seed(count, base), base).filter(allowed_by(player_z, trains, obstacles))
    } else {
        Seq::empty()
    }
}

fn candidate_coin(seed: u32, base_z: i64, i: usize) -> (r: Coin)
    requires
        i < layout_size(seed),
        -COORD_LIMIT <= base_z <= COORD_LIMIT + MIN_COIN_GAP,
    ensures
        r == candidate(seed, base_z, i as int),
        r.track_index < 3,
        0 <= r.y_offset <= 1000,
        base_z <= r.z <= base_z + 10_000,
{
    let pattern = seed % 4;
    let lane = ((seed / 4) % 3) as u8;
    let k = i as i64;
    if pattern == 0 {
        Coin { track_index: lane, z: base_z + 2000 * k, y_offset: 0 }
    } else if pattern == 1 {
        let step = (i % 3) as i64;
        let shifted: i64 = if (seed / 12) % 2 == 0 {
            lane as i64 + step
        } else {
            lane as i64 + 3 - step
        };
        let direction: Ghost<int> = Ghost(if (seed / 12) % 2 == 0 { 1 } else { -1 });
        assert(shifted % 3 == (lane + direction@ * (i % 3)) % 3) by {
            let x = lane + direction@ * (i % 3);
            if direction@ == -1 {
                assert(x == lane - (i % 3)) by (nonlinear_arith)
                    requires
                        x == lane + direction@ * (i % 3),
                        direction@ == -1,
                ;
                assert(shifted == x + 3);
                assert((x + 3) % 3 == x % 3) by (nonlinear_arith);
            } else {
                assert(x == lane + (i % 3)) by (nonlinear_arith)
                    requires
                        x == lane + direction@ * (i % 3),
                        direction@ == 1,
                ;
            }
        }
        Coin { track_index: (shifted % 3) as u8, z: base_z + 2500 * k, y_offset: 0 }
    } else if pattern == 2 {
        let y = if i == 2 {
            1000
        } else if i == 1 || i == 3 {
            500
        } else {
            0
        };
        Coin { track_index: lane, z: base_z + 2000 * k, y_offset: y }
    } else {
        Coin { track_index: i as u8, z: base_z + 500 * k, y_offset: 0 }
    }
}

/// Records a coin at `z_position` on a lane, `y_offset` above the standard height.
pub fn spawn_coin(coins: &mut Vec<Coin>, track_index: u8, z_position: i64, y_offset: i64) -> (r: Coin)
    ensures
        r == (Coin { track_index, z: z_position, y_offset }),
        final(coins)@ == old(coins)@.push(r),
{
    let r = Coin { track_index, z: z_position, y_offset };
    coins.push(r);
    r
}

/// Places a batch of coins ahead of a player at `player_z` and returns it.
///
/// Nothing happens before the grace position. A batch comes when the furthest
/// coin (or the player, if none is further) is less than forty units ahead,
/// or fewer than ten coins are live. A seed of the coin count and the batch
/// base picks the layout; each coin of it is placed only if it stands short
/// of 120 units ahead and clear of trains and obstacles on its lane.
pub fn generate_coins_procedurally(
    coins: &mut Vec<Coin>,
    trains: &Vec<Train>,
    obstacles: &Vec<Barricade>,
    player_z: i64,
) -> (r: Vec<Coin>)
    requires
        coins_wf(old(coins)@),
        old(coins)@.len() <= u32::MAX,
        trains_wf(trains@),
        barricades_wf(obstacles@),
        player_pos_ok(player_z as int),
    ensures
        r@ == planned_coins(old(coins)@, trains@, obstacles@, player_z),
        final(coins)@ == old(coins)@ + r@,
        coins_wf(final(coins)@),
        forall|k: int| 0 <= k < r@.len() ==> (#[trigger] r@[k]).z > furthest_z(positions(old(coins)@), player_z),
        forall|k: int|
            0 <= k < r@.len() ==> coin_clear(
                (#[trigger] r@[k]).track_index,
                r@[k].z as int,
                trains@,
                obstacles@,
            ),
{
    let ghost orig = coins@;
    let mut placed: Vec<Coin> = Vec::new();
    if player_z < COIN_GRACE_Z {
        assert(coins@ =~= orig + placed@);
        return placed;
    }
    let count = coins.len() as u32;
    let furthest = furthest_position(coins, player_z);
    proof {
        assert forall|i: int| 0 <= i < coins@.len() implies coord_ok((#[trigger] coins@[i]).pos() as int) by {
            assert(coins@[i].wf());
        }
        lemma_frontier_in_range(coins@, player_z);
    }
    if !(furthest < player_z + COIN_MIN_SPAWN_DISTANCE || coins.len() < MIN_LIVE_COINS) {
        assert(coins@ =~= orig + placed@);
        return placed;
    }
    let base = if furthest > player_z {
        furthest + MIN_COIN_GAP
    } else {
        player_z + COIN_MIN_SPAWN_DISTANCE
    };
    let seed = pseudo_random(count.wrapping_add(fold(base, 73)).wrapping_add(COIN_SALT));
    let n: usize = if seed % 4 == 3 {
        3
    } else {
        5
    };
    let ghost cands = layout(seed, base);
    let ghost allowed = allowed_by(player_z, trains@, obstacles@);
    let mut i: usize = 0;
    while i < n
        invariant
            0 <= i <= n,
            n == layout_size(seed),
            cands == layout(seed, base),
            allowed == allowed_by(player_z, trains@, obstacles@),
            -COORD_LIMIT <= base <= COORD_LIMIT + MIN_COIN_GAP,
            player_pos_ok(player_z as int),
            trains_wf(trains@),
            barricades_wf(obstacles@),
            coins_wf(coins@),
            placed@ == cands.take(i as int).filter(allowed),
            coins@ == orig + placed@,
            base > furthest_z(positions(orig), player_z),
            forall|k: int| 0 <= k < placed@.len() ==> (#[trigger] placed@[k]).z >= base,
        decreases n - i,
    {
        proof {
            reveal(Seq::filter);
            assert(cands.take(i + 1).drop_last() =~= cands.take(i as int));
        }
        let c = candidate_coin(seed, base, i);
        if c.z < player_z + COIN_MAX_SPAWN_DISTANCE && position_is_clear(c.track_index, c.z, trains, obstacles) {
            let ghost before = coins@;
            spawn_coin(coins, c.track_index, c.z, c.y_offset);
            placed.push(c);
            assert forall|k: int| 0 <= k < coins@.len() implies #[trigger] coins@[k].wf() by {
                if k < before.len() {
                    assert(coins@[k] == before[k]);
                }
            }
        }
        assert(coins@ =~= orig + placed@);
        i += 1;
    }
    assert(cands.take(n as int) =~= cands);
    assert forall|k: int| 0 <= k < placed@.len() implies coin_clear(
        (#[trigger] placed@[k]).track_index,
        placed@[k].z as int,
        trains@,
        obstacles@,
    ) by {
        assert(allowed(placed@[k]));
    }
    placed
}

/// Removes the coins more than fifteen units behind the camera; the result
/// marks, index by index, the coins removed.
pub fn recycle_coins(coins: &mut Vec<Coin>, camera_z: i64) -> (removed: Vec<bool>)
    requires
        coord_ok(camera_z as int),
    ensures
        final(coins)@ == old(coins)@.filter(at_or_ahead::<Coin>((camera_z - COIN_RECYCLE_MARGIN) as i64)),
        removed@.len() == old(coins)@.len(),
        forall|i: int| 0 <= i < removed@.len() ==> removed@[i] == (old(coins)@[i].z < camera_z - COIN_RECYCLE_MARGIN),
{
    retain_from(coins, camera_z - COIN_RECYCLE_MARGIN)
}

/// Distance between two values.
pub open spec fn dist(a: int, b: int) -> int {
    if a >= b {
        a - b
    } else {
        b - a
    }
}

/// A player at `(x, y, z)` picks coin `c` up: within one unit of it
/// sideways and along the track, and within one and a half units vertically.
pub open spec fn touches(c: Coin, x: i64, y: i64, z: i64, spacing: i64) -> bool {
    &&& dist(x as int, lane_x(c.track_index, spacing)) < 1000
    &&& dist(y as int, COIN_HEIGHT + c.y_offset) < 1500
    &&& dist(z as int, c.z as int) < 1000
}

/// Keeps a coin that the player does not touch.
pub open spec fn untouched_by(x: i64, y: i64, z: i64, spacing: i64) -> spec_fn(Coin) -> bool {
    |c: Coin| !touches(c, x, y, z, spacing)
}

/// Picks up every coin the player touches, adding one to the score for
/// each; the result marks, index by index, the coins picked up.
pub fn collect_coins(
    coins: &mut Vec<Coin>,
    score: &mut Score,
    x: i64,
    y: i64,
    z: i64,
    spacing: i64,
) -> (collected: Vec<bool>)
    requires
        coins_wf(old(coins)@),
        coord_ok(x as int),
        coord_ok(y as int),
        coord_ok(z as int),
        0 <= spacing <= SPACING_LIMIT,
        old(score).coins + old(coins)@.len() <= u32::MAX,
    ensures
        final(coins)@ == old(coins)@.filter(untouched_by(x, y, z, spacing)),
        collected@.len() == old(coins)@.len(),
        forall|i: int| 0 <= i < collected@.len() ==> collected@[i] == touches(old(coins)@[i], x, y, z, spacing),
        final(score).coins == old(score).coins + old(coins)@.len() - final(coins)@.len(),
        coins_wf(final(coins)@),
{
    let ghost orig = coins@;
    let ghost start = score.coins;
    let mut kept: Vec<Coin> = Vec::new();
    let mut collected: Vec<bool> = Vec::new();
    let mut i: usize = 0;
    while i < coins.len()
        invariant
            coins@ == orig,
            coins_wf(orig),
            coord_ok(x as int),
            coord_ok(y as int),
            coord_ok(z as int),
            0 <= spacing <= SPACING_LIMIT,
            start + orig.len() <= u32::MAX,
            0 <= i <= orig.len(),
            kept@ == orig.take(i as int).filter(untouched_by(x, y, z, spacing)),
            kept@.len() <= i,
            coins_wf(kept@),
            score.coins == start + i - kept@.len(),
            collected@.len() == i,
            forall|j: int| 0 <= j < i ==> collected@[j] == touches(orig[j], x, y, z, spacing),
        decreases orig.len() - i,
    {
        proof {
            reveal(Seq::filter);
            assert(orig.take(i + 1).drop_last() =~= orig.take(i as int));
        }
        let c = coins[i];
        assert(c.wf());
        let cx = lane_offset(c.track_index, spacing);
        let dx = if x >= cx { x - cx } else { cx - x };
        let cy = COIN_HEIGHT + c.y_offset;
        let dy = if y >= cy { y - cy } else { cy - y };
        let dz = if z >= c.z { z - c.z } else { c.z - z };
        let hit = dx < 1000 && dy < 1500 && dz < 1000;
        if hit {
            score.coins = score.coins + 1;
        } else {
            kept.push(c);
        }
        collected.push(hit);
        i += 1;
    }
    assert(orig.take(orig.len() as int) =~= orig);
    *coins = kept;
    collected
}

/// The coin layout is reproducible: it depends on the live coins only
/// through their count and positions, so two worlds that agree on those, on
/// trains, obstacles and the player's position get the same batch.
pub proof fn lemma_coin_choice_deterministic(
    a: Seq<Coin>,
    b: Seq<Coin>,
    trains: Seq<Train>,
    obstacles: Seq<Barricade>,
    player_z: i64,
)
    requires
        a.len() == b.len(),
        positions(a) == positions(b),
    ensures
        planned_coins(a, trains, obstacles, player_z) == planned_coins(b, trains, obstacles, player_z),
{
}

} // verus!
