use runner_core::collision::{detect_collisions, detect_train_collisions, obstacle_hit, train_hit};
use runner_core::obstacle::{spawn_obstacle, Barricade, ObstacleType};
use runner_core::player::{AnimationState, CurrentTrack};
use runner_core::state::GameState;
use runner_core::train::{move_trains, recycle_trains, spawn_train, Train, TrainPart, TrainPartKind, TrainType};

fn obstacle(kind: ObstacleType, lane: u8, z: i64) -> Barricade {
    let mut v: Vec<Barricade> = Vec::new();
    spawn_obstacle(&mut v, lane, z, kind)
}

fn train(kind: TrainType, lane: u8, z: i64) -> Train {
    Train { track_index: lane, train_type: kind, length: 8000, speed: 0, z }
}

#[test]
fn sliding_player_passes_under_sign() {
    let sign = obstacle(ObstacleType::SlideUnder, 1, 50_000);
    let obstacles = vec![sign];
    let mut state = GameState::Playing;
    let hit = detect_collisions(&mut state, CurrentTrack::Middle, AnimationState::Sliding, 0, 50_000, &obstacles);
    assert!(!hit);
    assert_eq!(state, GameState::Playing);
}

#[test]
fn running_player_hits_sign() {
    let obstacles = vec![obstacle(ObstacleType::SlideUnder, 1, 50_000)];
    let mut state = GameState::Playing;
    assert!(detect_collisions(&mut state, CurrentTrack::Middle, AnimationState::Running, 1500, 50_500, &obstacles));
    assert_eq!(state, GameState::GameOver);
}

#[test]
fn jumping_player_clears_sign_from_above() {
    let sign = obstacle(ObstacleType::SlideUnder, 1, 50_000);
    // feet at 1.91 are above the band's top at 1.9
    assert!(!obstacle_hit(&sign, 1, AnimationState::Jumping, 2710, 50_000));
    assert!(obstacle_hit(&sign, 1, AnimationState::Jumping, 2700, 50_000));
}

#[test]
fn jump_over_needs_feet_at_barrier_top() {
    let barrier = obstacle(ObstacleType::JumpOver, 0, 30_000);
    // top of the barrier is 0.45 + 0.35 = 0.8; feet are 0.8 below the position
    assert!(!obstacle_hit(&barrier, 0, AnimationState::Jumping, 1600, 30_000));
    assert!(obstacle_hit(&barrier, 0, AnimationState::Jumping, 1599, 30_000));
    assert!(obstacle_hit(&barrier, 0, AnimationState::Running, 1500, 30_800));
    assert!(!obstacle_hit(&barrier, 0, AnimationState::Running, 1500, 30_801));
    assert!(!obstacle_hit(&barrier, 1, AnimationState::Running, 1500, 30_000));
}

#[test]
fn other_lane_obstacle_is_ignored() {
    let obstacles = vec![obstacle(ObstacleType::JumpOver, 2, 10_000)];
    let mut state = GameState::Playing;
    assert!(!detect_collisions(&mut state, CurrentTrack::Left, AnimationState::Running, 1500, 10_000, &obstacles));
    assert_eq!(state, GameState::Playing);
}

#[test]
fn running_into_train_body_is_a_hit() {
    let trains = vec![train(TrainType::Stationary, 1, 100_000)];
    let mut state = GameState::Playing;
    assert!(detect_train_collisions(&mut state, CurrentTrack::Middle, 1500, 95_500, &trains));
    assert_eq!(state, GameState::GameOver);
}

#[test]
fn train_body_edges() {
    let t = train(TrainType::Stationary, 1, 100_000);
    assert!(train_hit(&t, 1, 1500, 104_500));
    assert!(!train_hit(&t, 1, 1500, 104_501));
    assert!(!train_hit(&t, 1, 1500, 95_499));
    assert!(!train_hit(&t, 0, 1500, 100_000));
    // in the air above one and a half units
    assert!(!train_hit(&t, 1, 1501, 100_000));
}

#[test]
fn standing_on_train_top_is_safe() {
    let t = train(TrainType::Moving, 2, 100_000);
    // feet at 0.8 = 2.3 - 1.5, from two units behind to three past the train
    assert!(!train_hit(&t, 2, 1600, 94_000));
    assert!(!train_hit(&t, 2, 1600, 107_000));
}

#[test]
fn ramp_zone_lets_climber_through() {
    let t = train(TrainType::StationaryWithRamp, 0, 100_000);
    // ramp runs from 90 to 96; at 93 the surface is at 1.15
    assert!(!train_hit(&t, 0, 0, 93_000));
    assert!(!train_hit(&t, 0, 3950, 93_000));
    // halfway up a ramp on a plain train there is no ramp, but the body is not reached
    let plain = train(TrainType::Stationary, 0, 100_000);
    assert!(!train_hit(&plain, 0, 0, 93_000));
    // at the back of the body the ramp zone still applies
    assert!(!train_hit(&t, 0, 1000, 96_000));
    assert!(train_hit(&plain, 0, 1000, 96_000));
}

#[test]
fn convoy_blocks_close_follower() {
    let lead = Train { speed: 0, ..train(TrainType::Stationary, 1, 100_000) };
    // the follower's back edge is 1.5 units behind the lead's front edge
    let follower = Train { speed: 5000, ..train(TrainType::Moving, 1, 109_500) };
    let mut trains = vec![lead, follower];
    move_trains(&mut trains, 16);
    assert_eq!(trains[1].z, 109_500);
    assert_eq!(trains[0].z, 100_000);
}

#[test]
fn convoy_releases_once_gap_exceeds_step() {
    let lead = train(TrainType::Stationary, 1, 100_000);
    // a gap of 2.079 is under 2 + 5 * 0.016
    let held = Train { speed: 5000, ..train(TrainType::Moving, 1, 110_079) };
    let mut trains = vec![lead, held];
    move_trains(&mut trains, 16);
    assert_eq!(trains[1].z, 110_079);
    let free = Train { speed: 5000, ..train(TrainType::Moving, 1, 110_080) };
    let mut trains = vec![lead, free];
    move_trains(&mut trains, 16);
    assert_eq!(trains[1].z, 110_000);
}

#[test]
fn moving_train_on_other_lane_is_not_blocked() {
    let other = train(TrainType::Stationary, 0, 100_000);
    let mover = Train { speed: 10_500, ..train(TrainType::Moving, 1, 109_000) };
    let mut trains = vec![other, mover];
    move_trains(&mut trains, 100);
    assert_eq!(trains[1].z, 107_950);
    assert_eq!(trains[0].z, 100_000);
}

#[test]
fn recycle_trains_and_parts_by_margin() {
    let mut trains: Vec<Train> = Vec::new();
    let mut parts: Vec<TrainPart> = Vec::new();
    spawn_train(&mut trains, &mut parts, 0, 10_000, TrainType::StationaryWithRamp, 15_000);
    spawn_train(&mut trains, &mut parts, 1, 60_000, TrainType::Stationary, 15_000);
    let (gone_trains, gone_parts) = recycle_trains(&mut trains, &mut parts, 40_001);
    assert_eq!(gone_trains, vec![true, false]);
    assert_eq!(trains.len(), 1);
    // ramp pieces stand at 0.15 to 3; only the fixtures before 5.001 go, the top at 10 stays
    let kept_tops = parts.iter().filter(|p| p.kind == TrainPartKind::Top).count();
    assert_eq!(kept_tops, 1);
    assert!(gone_parts[24]);
    assert!(!gone_parts[25]);
    assert!(parts.iter().all(|p| p.z >= 5_001 || p.kind == TrainPartKind::Top));
}

#[test]
fn odd_height_barrier_top_is_exact() {
    // top of a 0.701-high barrier is 0.8005: feet at 0.8 hit it
    let mut barrier = obstacle(ObstacleType::JumpOver, 0, 30_000);
    barrier.shape.size_y = 701;
    assert!(obstacle_hit(&barrier, 0, AnimationState::Jumping, 1600, 30_000));
    assert!(!obstacle_hit(&barrier, 0, AnimationState::Jumping, 1601, 30_000));
}

#[test]
fn odd_length_train_edges_are_exact() {
    // the ramp zone of a climbable train 8.001 long at 100 ends at 97.9995
    let t = Train { length: 8001, ..train(TrainType::StationaryWithRamp, 1, 100_000) };
    assert!(train_hit(&t, 1, 1500, 98_000));
    let mut state = GameState::Playing;
    assert!(detect_train_collisions(&mut state, CurrentTrack::Middle, 1500, 98_000, &vec![t]));
    assert_eq!(state, GameState::GameOver);
}

#[test]
fn odd_length_convoy_gap_is_exact() {
    // trains 8.001 long, 2.999 apart; a step of one unit would close the gap below two
    let lead = Train { length: 8001, ..train(TrainType::Stationary, 1, 100_000) };
    let follower = Train { length: 8001, speed: 10_000, ..train(TrainType::Moving, 1, 111_000) };
    let mut trains = vec![lead, follower];
    move_trains(&mut trains, 100);
    assert_eq!(trains[1].z, 111_000);
    // three units apart, the step is taken and the gap stays two
    let follower = Train { length: 8001, speed: 10_000, ..train(TrainType::Moving, 1, 111_001) };
    let mut trains = vec![lead, follower];
    move_trains(&mut trains, 100);
    assert_eq!(trains[1].z, 110_001);
}
