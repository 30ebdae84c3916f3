use runner_core::coin::{generate_coins_procedurally, position_is_clear, Coin};
use runner_core::obstacle::{
    conflicts_with_ramp, generate_obstacles_procedurally, recycle_barricades, spawn_obstacle,
    Barricade, ObstacleType,
};
use runner_core::rng::{fold, pseudo_random};
use runner_core::train::{generate_trains_procedurally, spawn_train, Train, TrainPart, TrainPartKind, TrainType};

fn xorshift(seed: u32) -> u32 {
    let mut x = seed;
    x ^= x << 13;
    x ^= x >> 17;
    x ^= x << 5;
    x
}

fn ramp_train(lane: u8, z: i64) -> Train {
    Train { track_index: lane, train_type: TrainType::StationaryWithRamp, length: 8000, speed: 0, z }
}

#[test]
fn pseudo_random_is_xorshift() {
    assert_eq!(pseudo_random(1), 270369);
    assert_eq!(pseudo_random(0), 0);
    assert_eq!(pseudo_random(0xDEADBEEF), xorshift(0xDEADBEEF));
}

#[test]
fn fold_scales_and_saturates() {
    assert_eq!(fold(90_000, 37), 333);
    assert_eq!(fold(-5_000, 37), 0);
    assert_eq!(fold(0, 73), 0);
    assert_eq!(fold(1_000_000_000_000_000, 73), u32::MAX);
}

#[test]
fn first_obstacle_after_grace() {
    let mut obstacles: Vec<Barricade> = Vec::new();
    let trains: Vec<Train> = Vec::new();
    let placed = generate_obstacles_procedurally(&mut obstacles, &trains, 25_000).unwrap();
    let seed = xorshift(333u32.wrapping_add(0xDEADBEEF));
    assert_eq!(seed, 3018071625);
    assert_eq!(placed.z, 90_000);
    assert_eq!(placed.track_index as u32, seed % 3);
    assert_eq!(placed.track_index, 0);
    assert_eq!(placed.obstacle_type, ObstacleType::JumpOver);
    assert_eq!(obstacles.len(), 1);
    assert_eq!(obstacles[0], placed);
}

#[test]
fn no_obstacle_in_grace_period() {
    let mut obstacles: Vec<Barricade> = Vec::new();
    let trains: Vec<Train> = Vec::new();
    assert!(generate_obstacles_procedurally(&mut obstacles, &trains, 19_999).is_none());
    assert!(obstacles.is_empty());
}

#[test]
fn fill_obstacle_extends_frontier() {
    let mut obstacles: Vec<Barricade> = Vec::new();
    spawn_obstacle(&mut obstacles, 2, 90_000, ObstacleType::JumpOver);
    let trains: Vec<Train> = Vec::new();
    let placed = generate_obstacles_procedurally(&mut obstacles, &trains, 40_000).unwrap();
    assert_eq!(placed.z, 110_000);
    assert_eq!(placed.track_index, 1);
    assert_eq!(placed.obstacle_type, ObstacleType::JumpOver);
    assert_eq!(obstacles.len(), 2);
}

#[test]
fn frontier_far_enough_places_nothing() {
    let mut obstacles: Vec<Barricade> = Vec::new();
    spawn_obstacle(&mut obstacles, 0, 130_000, ObstacleType::JumpOver);
    let trains: Vec<Train> = Vec::new();
    assert!(generate_obstacles_procedurally(&mut obstacles, &trains, 40_000).is_none());
    assert_eq!(obstacles.len(), 1);
}

#[test]
fn obstacle_dropped_inside_ramp_danger_zone() {
    let mut obstacles: Vec<Barricade> = Vec::new();
    // the candidate at 90 lands on lane 0; the zone of this train is [40, 114]
    let trains = vec![ramp_train(0, 70_000)];
    assert!(conflicts_with_ramp(&trains, 0, 90_000));
    assert!(!conflicts_with_ramp(&trains, 1, 90_000));
    assert!(generate_obstacles_procedurally(&mut obstacles, &trains, 25_000).is_none());
    assert!(obstacles.is_empty());
}

#[test]
fn ramp_danger_zone_edges() {
    let trains = vec![ramp_train(1, 100_000)];
    assert!(conflicts_with_ramp(&trains, 1, 100_000 - 4000 - 26_000));
    assert!(!conflicts_with_ramp(&trains, 1, 100_000 - 4000 - 26_001));
    assert!(conflicts_with_ramp(&trains, 1, 100_000 + 4000 + 20_000));
    assert!(!conflicts_with_ramp(&trains, 1, 100_000 + 4000 + 20_001));
    let plain = vec![Train { train_type: TrainType::Stationary, ..ramp_train(1, 100_000) }];
    assert!(!conflicts_with_ramp(&plain, 1, 100_000));
}

#[test]
fn obstacle_choice_is_reproducible() {
    let trains: Vec<Train> = Vec::new();
    let mut a: Vec<Barricade> = Vec::new();
    let mut b: Vec<Barricade> = Vec::new();
    spawn_obstacle(&mut a, 1, 70_000, ObstacleType::SlideUnder);
    spawn_obstacle(&mut b, 2, 70_000, ObstacleType::JumpOver);
    let ra = generate_obstacles_procedurally(&mut a, &trains, 30_000);
    let rb = generate_obstacles_procedurally(&mut b, &trains, 30_000);
    assert!(ra.is_some());
    assert_eq!(ra, rb);
}

#[test]
fn recycle_barricades_behind_camera() {
    let mut obstacles: Vec<Barricade> = Vec::new();
    spawn_obstacle(&mut obstacles, 0, 10_000, ObstacleType::JumpOver);
    spawn_obstacle(&mut obstacles, 1, 29_999, ObstacleType::JumpOver);
    spawn_obstacle(&mut obstacles, 2, 30_000, ObstacleType::SlideUnder);
    let removed = recycle_barricades(&mut obstacles, 50_000);
    assert_eq!(removed, vec![true, true, false]);
    assert_eq!(obstacles.len(), 1);
    assert_eq!(obstacles[0].z, 30_000);
}

#[test]
fn first_train_after_grace() {
    let mut trains: Vec<Train> = Vec::new();
    let mut parts: Vec<TrainPart> = Vec::new();
    assert!(generate_trains_procedurally(&mut trains, &mut parts, 49_999, 15_000).is_none());
    let t = generate_trains_procedurally(&mut trains, &mut parts, 60_000, 15_000).unwrap();
    let seed = xorshift(368u32.wrapping_add(0xBEEFCAFE));
    assert_eq!(seed, 2871514175);
    assert_eq!(seed % 5, 0);
    assert_eq!(t.z, 160_000);
    assert_eq!(t.track_index, 2);
    assert_eq!(t.train_type, TrainType::StationaryWithRamp);
    assert_eq!(t.speed, 0);
    assert_eq!(t.length, 8000);
    assert_eq!(parts.len(), 25);
    assert_eq!(parts[0], TrainPart { kind: TrainPartKind::Ramp, z: 153_000 });
    assert_eq!(parts[24], TrainPart { kind: TrainPartKind::Top, z: 160_000 });
}

#[test]
fn train_kind_follows_seed_mod_five() {
    let mut trains: Vec<Train> = Vec::new();
    let mut parts: Vec<TrainPart> = Vec::new();
    // at 50 units with no trains the seed is 0xABC4F345, which is 4 mod 5
    let seed = xorshift(fold(150_000, 23).wrapping_add(0xBEEFCAFE));
    assert_eq!(seed, 0xABC4F345);
    let t = generate_trains_procedurally(&mut trains, &mut parts, 50_000, 15_000).unwrap();
    assert_eq!(t.z, 150_000);
    assert_eq!(t.train_type, TrainType::Moving);
    assert_eq!(t.speed, 10_500);
    assert_eq!(t.track_index as u32, seed % 3);
    assert_eq!(parts, vec![TrainPart { kind: TrainPartKind::Top, z: 150_000 }]);
}

#[test]
fn fill_train_extends_frontier() {
    let mut trains: Vec<Train> = Vec::new();
    let mut parts: Vec<TrainPart> = Vec::new();
    spawn_train(&mut trains, &mut parts, 0, 160_000, TrainType::Stationary, 15_000);
    let t = generate_trains_procedurally(&mut trains, &mut parts, 80_000, 15_000).unwrap();
    assert_eq!(t.z, 200_000);
    assert_eq!(t.track_index, 1);
    assert_eq!(t.train_type, TrainType::Moving);
    assert_eq!(t.speed, 10_500);
    assert_eq!(trains.len(), 2);
}

#[test]
fn moving_train_runs_at_seven_tenths() {
    let mut trains: Vec<Train> = Vec::new();
    let mut parts: Vec<TrainPart> = Vec::new();
    let t = spawn_train(&mut trains, &mut parts, 1, 50_000, TrainType::Moving, 15_000);
    assert_eq!(t.speed, 10_500);
    assert_eq!(parts.len(), 1);
}

#[test]
fn ramp_train_places_ramp_steps_and_top() {
    let mut trains: Vec<Train> = Vec::new();
    let mut parts: Vec<TrainPart> = Vec::new();
    spawn_train(&mut trains, &mut parts, 0, 100_000, TrainType::StationaryWithRamp, 15_000);
    assert_eq!(parts.len(), 1 + 20 + 3 + 1);
    assert_eq!(parts[0], TrainPart { kind: TrainPartKind::Ramp, z: 93_000 });
    assert_eq!(parts[1], TrainPart { kind: TrainPartKind::Fixture, z: 90_150 });
    assert_eq!(parts[20], TrainPart { kind: TrainPartKind::Fixture, z: 95_850 });
    assert_eq!(parts[21], TrainPart { kind: TrainPartKind::Fixture, z: 95_750 });
    assert_eq!(parts[24], TrainPart { kind: TrainPartKind::Top, z: 100_000 });
}

#[test]
fn coin_cluster_on_three_lanes() {
    let mut coins: Vec<Coin> = Vec::new();
    let trains: Vec<Train> = Vec::new();
    let obstacles: Vec<Barricade> = Vec::new();
    let batch = generate_coins_procedurally(&mut coins, &trains, &obstacles, 20_000);
    assert_eq!(
        batch,
        vec![
            Coin { track_index: 0, z: 60_000, y_offset: 0 },
            Coin { track_index: 1, z: 60_500, y_offset: 0 },
            Coin { track_index: 2, z: 61_000, y_offset: 0 },
        ]
    );
    assert_eq!(coins, batch);
}

#[test]
fn coin_straight_run() {
    let mut coins: Vec<Coin> = Vec::new();
    let trains: Vec<Train> = Vec::new();
    let obstacles: Vec<Barricade> = Vec::new();
    let batch = generate_coins_procedurally(&mut coins, &trains, &obstacles, 21_000);
    let zs: Vec<i64> = batch.iter().map(|c| c.z).collect();
    assert_eq!(zs, vec![61_000, 63_000, 65_000, 67_000, 69_000]);
    assert!(batch.iter().all(|c| c.track_index == 2 && c.y_offset == 0));
}

#[test]
fn coin_arc_heights() {
    let mut coins: Vec<Coin> = Vec::new();
    let trains: Vec<Train> = Vec::new();
    let obstacles: Vec<Barricade> = Vec::new();
    let batch = generate_coins_procedurally(&mut coins, &trains, &obstacles, 22_000);
    let ys: Vec<i64> = batch.iter().map(|c| c.y_offset).collect();
    assert_eq!(ys, vec![0, 500, 1000, 500, 0]);
    assert!(batch.iter().all(|c| c.track_index == 1));
    assert_eq!(batch[4].z, 70_000);
}

#[test]
fn coin_diagonal_steps_across_lanes() {
    let mut coins: Vec<Coin> = Vec::new();
    let trains: Vec<Train> = Vec::new();
    let obstacles: Vec<Barricade> = Vec::new();
    let batch = generate_coins_procedurally(&mut coins, &trains, &obstacles, 23_000);
    let lanes: Vec<u8> = batch.iter().map(|c| c.track_index).collect();
    let zs: Vec<i64> = batch.iter().map(|c| c.z).collect();
    assert_eq!(lanes, vec![2, 1, 0, 2, 1]);
    assert_eq!(zs, vec![63_000, 65_500, 68_000, 70_500, 73_000]);
}

#[test]
fn coins_skip_blocked_spots() {
    let mut coins: Vec<Coin> = Vec::new();
    // the cluster based at 60: a train on lane 0 and an obstacle next to lane 2's coin
    let trains = vec![Train { track_index: 0, train_type: TrainType::Stationary, length: 8000, speed: 0, z: 66_000 }];
    let mut obstacles: Vec<Barricade> = Vec::new();
    spawn_obstacle(&mut obstacles, 2, 62_999, ObstacleType::JumpOver);
    let batch = generate_coins_procedurally(&mut coins, &trains, &obstacles, 20_000);
    assert_eq!(batch, vec![Coin { track_index: 1, z: 60_500, y_offset: 0 }]);
    assert!(!position_is_clear(0, 60_000, &trains, &obstacles));
    assert!(position_is_clear(0, 59_999, &trains, &obstacles));
    assert!(!position_is_clear(2, 61_000, &trains, &obstacles));
    assert!(position_is_clear(2, 60_999, &trains, &obstacles));
}

#[test]
fn coins_wait_while_enough_are_ahead() {
    let mut coins: Vec<Coin> = Vec::new();
    for i in 0..10 {
        coins.push(Coin { track_index: 0, z: 60_000 + 2000 * i, y_offset: 0 });
    }
    let trains: Vec<Train> = Vec::new();
    let obstacles: Vec<Barricade> = Vec::new();
    assert!(generate_coins_procedurally(&mut coins, &trains, &obstacles, 20_000).is_empty());
    assert_eq!(coins.len(), 10);
    assert!(generate_coins_procedurally(&mut coins, &trains, &obstacles, 14_999).is_empty());
}

#[test]
fn coins_stop_short_of_far_limit() {
    let mut coins = vec![Coin { track_index: 1, z: 135_000, y_offset: 0 }];
    let trains: Vec<Train> = Vec::new();
    let obstacles: Vec<Barricade> = Vec::new();
    // fewer than ten coins: a batch based at 143 is wholly past 20 + 120
    let batch = generate_coins_procedurally(&mut coins, &trains, &obstacles, 20_000);
    assert!(batch.is_empty());
    assert_eq!(coins.len(), 1);
}

#[test]
fn train_and_coin_choices_are_reproducible() {
    let mut a: Vec<Train> = Vec::new();
    let mut b: Vec<Train> = Vec::new();
    let mut pa: Vec<TrainPart> = Vec::new();
    let mut pb: Vec<TrainPart> = Vec::new();
    spawn_train(&mut a, &mut pa, 0, 120_000, TrainType::Moving, 15_000);
    spawn_train(&mut b, &mut pb, 2, 120_000, TrainType::Stationary, 15_000);
    let ta = generate_trains_procedurally(&mut a, &mut pa, 70_000, 16_000);
    let tb = generate_trains_procedurally(&mut b, &mut pb, 70_000, 16_000);
    assert!(ta.is_some());
    assert_eq!(ta, tb);
    let trains: Vec<Train> = Vec::new();
    let obstacles: Vec<Barricade> = Vec::new();
    let mut ca = vec![Coin { track_index: 0, z: 30_000, y_offset: 0 }];
    let mut cb = vec![Coin { track_index: 2, z: 30_000, y_offset: 1000 }];
    let ba = generate_coins_procedurally(&mut ca, &trains, &obstacles, 25_000);
    let bb = generate_coins_procedurally(&mut cb, &trains, &obstacles, 25_000);
    assert!(!ba.is_empty());
    assert_eq!(ba, bb);
}
