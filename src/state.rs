//! The game phase and the whole simulated world: Playing until a hit,
//! GameOver until a confirmed restart rebuilds the world.
use vstd::prelude::*;
use crate::coin::Coin;
use crate::config::{GameConfig, Score};
use crate::obstacle::Barricade;
use crate::player::{spawn_player, start_player, PlayerState};
use crate::track::{
    generate_track_segments, initial_window, lemma_initial_window, window_ok, TrackPool, TrackSegment,
    START_CAMERA_Z,
};
use crate::train::{Train, TrainPart};

verus! {

#[derive(Clone, Copy, PartialEq, Eq, Debug, Structural)]
pub enum GameState {
    Playing,
    GameOver,
}

/// Everything the simulation holds between ticks.
pub struct World {
    pub phase: GameState,
    pub config: GameConfig,
    pub score: Score,
    pub track_pool: TrackPool,
    pub player: PlayerState,
    pub camera_z: i64,
    pub obstacles: Vec<Barricade>,
    pub trains: Vec<Train>,
    pub train_parts: Vec<TrainPart>,
    pub coins: Vec<Coin>,
}

/// The world as a value.
pub struct WorldView {
    pub phase: GameState,
    pub config: GameConfig,
    pub coins_collected: u32,
    pub active_segments: Seq<TrackSegment>,
    pub available_segments: Seq<TrackSegment>,
    pub max_pool_size: usize,
    pub player: PlayerState,
    pub camera_z: i64,
    pub obstacles: Seq<Barricade>,
    pub trains: Seq<Train>,
    pub train_parts: Seq<TrainPart>,
    pub coins: Seq<Coin>,
}

impl View for World {
    type V = WorldView;

    open spec fn view(&self) -> WorldView {
        WorldView {
            phase: self.phase,
            config: self.config,
            coins_collected: self.score.coins,
            active_segments: self.track_pool.active_segments@,
            available_segments: self.track_pool.available_segments@,
            max_pool_size: self.track_pool.max_pool_size,
            player: self.player,
            camera_z: self.camera_z,
            obstacles: self.obstacles@,
            trains: self.trains@,
            train_parts: self.train_parts@,
            coins: self.coins@,
        }
    }
}

/// A world at the start of a run with tuning `config`: playing, nothing
/// placed but the starting track window, no coins collected, speed and
/// difficulty back at their base, player and camera at their starting places.
pub open spec fn fresh_world(config: GameConfig, max_pool_size: usize) -> WorldView {
    WorldView {
        phase: GameState::Playing,
        config: GameConfig { current_speed: config.base_speed, difficulty_scale: 1000, ..config },
        coins_collected: 0,
        active_segments: initial_window(),
        available_segments: Seq::empty(),
        max_pool_size,
        player: start_player(config.base_speed),
        camera_z: START_CAMERA_Z,
        obstacles: Seq::empty(),
        trains: Seq::empty(),
        train_parts: Seq::empty(),
        coins: Seq::empty(),
    }
}

/// The world after the restart step: rebuilt when a confirm edge comes
/// during GameOver, unchanged otherwise.
pub open spec fn after_restart(w: WorldView, confirm: bool) -> WorldView {
    if w.phase == GameState::GameOver && confirm {
        fresh_world(w.config, w.max_pool_size)
    } else {
        w
    }
}

impl World {
    /// The world at the start of the first run, with the default tuning.
    pub fn new() -> (r: World)
        ensures
            r@ == fresh_world(GameConfig::initial(), 0),
    {
        let config = GameConfig::default();
        let mut track_pool = TrackPool::new(0);
        generate_track_segments(&mut track_pool);
        let player = spawn_player(&config);
        let r = World {
            phase: GameState::Playing,
            config,
            score: Score::new(),
            track_pool,
            player,
            camera_z: START_CAMERA_Z,
            obstacles: Vec::new(),
            trains: Vec::new(),
            train_parts: Vec::new(),
            coins: Vec::new(),
        };
        assert(r@.available_segments =~= Seq::<TrackSegment>::empty());
        assert(r@.obstacles =~= Seq::<Barricade>::empty());
        assert(r@.trains =~= Seq::<Train>::empty());
        assert(r@.train_parts =~= Seq::<TrainPart>::empty());
        assert(r@.coins =~= Seq::<Coin>::empty());
        r
    }
}

/// On a confirm edge during GameOver, rebuilds the world for a new run and
/// returns true: every obstacle, train, train piece, coin and segment goes,
/// the pool's lists are cleared, the score is reset, the starting track
/// window is placed again, speed and difficulty return to their base, and
/// player and camera return to their starting places. Otherwise nothing
/// changes and the result is false.
pub fn handle_game_over_restart(world: &mut World, confirm: bool) -> (restarted: bool)
    ensures
        restarted == (old(world).phase == GameState::GameOver && confirm),
        final(world)@ == after_restart(old(world)@, confirm),
{
    if world.phase != GameState::GameOver || !confirm {
        return false;
    }
    world.obstacles.clear();
    world.coins.clear();
    world.score.reset();
    world.trains.clear();
    world.train_parts.clear();
    world.track_pool.active_segments.clear();
    world.track_pool.available_segments.clear();
    generate_track_segments(&mut world.track_pool);
    world.config.current_speed = world.config.base_speed;
    world.config.difficulty_scale = 1000;
    world.camera_z = START_CAMERA_Z;
    world.player = spawn_player(&world.config);
    world.phase = GameState::Playing;
    assert(world@.available_segments =~= Seq::<TrackSegment>::empty());
    assert(world@.obstacles =~= Seq::<Barricade>::empty());
    assert(world@.trains =~= Seq::<Train>::empty());
    assert(world@.train_parts =~= Seq::<TrainPart>::empty());
    assert(world@.coins =~= Seq::<Coin>::empty());
    true
}

/// Restarting is idempotent: once a restart step has left the world
/// playing, a second restart step, with or without a confirm edge, changes
/// nothing. A restart only ever fires during GameOver on a confirm edge.
pub proof fn lemma_restart_idempotent(w: WorldView, first: bool, second: bool)
    requires
        after_restart(w, first).phase == GameState::Playing,
    ensures
        after_restart(after_restart(w, first), second) == after_restart(w, first),
        after_restart(w, first) != w ==> w.phase == GameState::GameOver && first,
{
}

/// Every run starts with a contiguous track window around the camera, so the
/// track stays contiguous from the first tick of a run on.
pub proof fn lemma_fresh_world_track_window(config: GameConfig, max_pool_size: usize)
    ensures
        window_ok(
            fresh_world(config, max_pool_size).active_segments,
            fresh_world(config, max_pool_size).camera_z as int,
        ),
{
    lemma_initial_window();
}

} // verus!
