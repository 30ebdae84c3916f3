//! The player: lanes, poses, and the decisions taken on input.
use vstd::prelude::*;
use crate::config::{GameConfig, SPACING_LIMIT};
use crate::placed::coord_ok;
use crate::train::{step_length, DT_LIMIT, SPEED_LIMIT};

verus! {

#[derive(Clone, Copy, PartialEq, Eq, Debug, Structural)]
pub enum CurrentTrack {
    Left,
    Middle,
    Right,
}

impl CurrentTrack {
    pub open spec fn index(&self) -> u8 {
        match self {
            CurrentTrack::Left => 0,
            CurrentTrack::Middle => 1,
            CurrentTrack::Right => 2,
        }
    }

    /// The lane's index, 0 to 2 from left to right.
    pub fn as_index(&self) -> (r: u8)
        ensures
            r == self.index(),
            r < 3,
    {
        match self {
            CurrentTrack::Left => 0,
            CurrentTrack::Middle => 1,
            CurrentTrack::Right => 2,
        }
    }
}

#[derive(Clone, Copy, PartialEq, Eq, Debug, Structural)]
pub enum AnimationState {
    Running,
    Sliding,
    Jumping,
}

/// Lateral offset of lane `track_index`: `(track_index - 1) * spacing`.
pub open spec fn lane_x(track_index: u8, spacing: i64) -> int {
    (track_index as int - 1) * spacing
}

pub fn lane_offset(track_index: u8, spacing: i64) -> (r: i64)
    requires
        track_index < 3,
        0 <= spacing <= SPACING_LIMIT,
    ensures
        r == lane_x(track_index, spacing),
        -spacing <= r <= spacing,
{
    let lane = track_index as i64 - 1;
    assert(-spacing <= lane * spacing <= spacing) by (nonlinear_arith)
        requires
            -1 <= lane <= 1,
            0 <= spacing,
    ;
    lane * spacing
}

/// Forward speed of the player, in thousandths of a unit per second.
#[derive(Clone, Copy, PartialEq, Eq, Debug, Structural)]
pub struct Velocity {
    pub forward: i64,
}

/// The input of one tick, as edges: each flag is set on the tick its key goes down.
#[derive(Clone, Copy, PartialEq, Eq, Debug, Structural)]
pub struct PlayerInput {
    pub move_left: bool,
    pub move_right: bool,
    pub jump: bool,
    pub slide: bool,
}

/// Time a slide lasts, in milliseconds.
pub const SLIDE_DURATION: i64 = 500;
/// Height under which the player stands on the ground.
pub const GROUNDED_HEIGHT: i64 = 1600;
/// Upward speed given by a jump, in thousandths of a unit per second.
pub const JUMP_SPEED: i64 = 10_000;
/// Height of the player's position at the start of a run.
pub const START_HEIGHT: i64 = 1500;

/// The player as the core reads it: lane, pose, position and speed.
#[derive(Clone, Copy, PartialEq, Eq, Debug, Structural)]
pub struct PlayerState {
    pub track: CurrentTrack,
    pub animation: AnimationState,
    pub x: i64,
    pub y: i64,
    pub z: i64,
    pub velocity: Velocity,
}

/// The player at the start of a run: middle lane, running, at height 1.5 at
/// the origin, at the base speed.
pub open spec fn start_player(base_speed: i64) -> PlayerState {
    PlayerState {
        track: CurrentTrack::Middle,
        animation: AnimationState::Running,
        x: 0,
        y: START_HEIGHT,
        z: 0,
        velocity: Velocity { forward: base_speed },
    }
}

/// Places the player at the start of a run.
pub fn spawn_player(config: &GameConfig) -> (r: PlayerState)
    ensures
        r == start_player(config.base_speed),
{
    PlayerState {
        track: CurrentTrack::Middle,
        animation: AnimationState::Running,
        x: 0,
        y: START_HEIGHT,
        z: 0,
        velocity: Velocity { forward: config.base_speed },
    }
}

/// Advances the player by `dt` milliseconds of its forward speed.
pub fn move_player_forward(player: &mut PlayerState, dt: i64)
    requires
        0 <= old(player).velocity.forward <= SPEED_LIMIT,
        0 <= dt <= DT_LIMIT,
        coord_ok(old(player).z + step_length(old(player).velocity.forward, dt)),
    ensures
        *final(player) == (PlayerState {
            z: (old(player).z + step_length(old(player).velocity.forward, dt)) as i64,
            ..*old(player)
        }),
{
    assert(0 <= player.velocity.forward * dt <= SPEED_LIMIT * DT_LIMIT) by (nonlinear_arith)
        requires
            0 <= player.velocity.forward <= SPEED_LIMIT,
            0 <= dt <= DT_LIMIT,
    ;
    player.z = player.z + player.velocity.forward * dt / 1000;
}

/// The lane reached from `track` on `input`: a left edge moves one lane
/// towards the right-hand index, a right edge one lane back, both applied in
/// that order and stopping at the outer lanes.
pub open spec fn switched_track(track: CurrentTrack, input: PlayerInput) -> CurrentTrack {
    let after_left = if input.move_left {
        match track {
            CurrentTrack::Left => CurrentTrack::Middle,
            CurrentTrack::Middle => CurrentTrack::Right,
            CurrentTrack::Right => CurrentTrack::Right,
        }
    } else {
        track
    };
    if input.move_right {
        match after_left {
            CurrentTrack::Left => CurrentTrack::Left,
            CurrentTrack::Middle => CurrentTrack::Left,
            CurrentTrack::Right => CurrentTrack::Middle,
        }
    } else {
        after_left
    }
}

/// Changes lane on input while running, and snaps the player sideways onto
/// its lane; in any other pose nothing changes.
pub fn handle_track_switching(player: &mut PlayerState, input: PlayerInput, spacing: i64)
    requires
        0 <= spacing <= SPACING_LIMIT,
    ensures
        old(player).animation != AnimationState::Running ==> *final(player) == *old(player),
        old(player).animation == AnimationState::Running ==> {
            let track = switched_track(old(player).track, input);
            *final(player) == (PlayerState {
                track,
                x: lane_x(track.index(), spacing) as i64,
                ..*old(player)
            })
        },
{
    if player.animation != AnimationState::Running {
        return;
    }
    if input.move_left {
        player.track = match player.track {
            CurrentTrack::Left => CurrentTrack::Middle,
            CurrentTrack::Middle => CurrentTrack::Right,
            CurrentTrack::Right => CurrentTrack::Right,
        };
    }
    if input.move_right {
        player.track = match player.track {
            CurrentTrack::Left => CurrentTrack::Left,
            CurrentTrack::Middle => CurrentTrack::Left,
            CurrentTrack::Right => CurrentTrack::Middle,
        };
    }
    let index = player.track.as_index();
    player.x = lane_offset(index, spacing);
}

/// What the outside world must do after a pose decision.
#[derive(Clone, Copy, PartialEq, Eq, Debug, Structural)]
pub enum PoseAction {
    Nothing,
    /// Start a slide timer of [`SLIDE_DURATION`].
    StartSlide,
    /// Give the player an upward speed of [`JUMP_SPEED`].
    Jump,
}

/// The pose after landing: a jumping player on the ground runs again.
pub open spec fn landed(pose: AnimationState, y: i64) -> AnimationState {
    if y < GROUNDED_HEIGHT && pose == AnimationState::Jumping {
        AnimationState::Running
    } else {
        pose
    }
}

/// Pose decision on input: a jumping player on the ground lands; then a
/// running player slides on a slide edge, or else jumps on a jump edge while
/// on the ground.
pub fn handle_slide_jump_input(player: &mut PlayerState, input: PlayerInput) -> (r: PoseAction)
    ensures
        ({
            let pose = landed(old(player).animation, old(player).y);
            let grounded = old(player).y < GROUNDED_HEIGHT;
            if pose == AnimationState::Running && input.slide {
                r == PoseAction::StartSlide && *final(player) == (PlayerState { animation: AnimationState::Sliding, ..*old(player) })
            } else if pose == AnimationState::Running && input.jump && grounded {
                r == PoseAction::Jump && *final(player) == (PlayerState { animation: AnimationState::Jumping, ..*old(player) })
            } else {
                r == PoseAction::Nothing && *final(player) == (PlayerState { animation: pose, ..*old(player) })
            }
        }),
{
    let grounded = player.y < GROUNDED_HEIGHT;
    if grounded && player.animation == AnimationState::Jumping {
        player.animation = AnimationState::Running;
    }
    if player.animation == AnimationState::Running {
        if input.slide {
            player.animation = AnimationState::Sliding;
            return PoseAction::StartSlide;
        } else if input.jump && grounded {
            player.animation = AnimationState::Jumping;
            return PoseAction::Jump;
        }
    }
    PoseAction::Nothing
}

/// A one-shot timer that ends a slide.
#[derive(Clone, Copy, PartialEq, Eq, Debug, Structural)]
pub struct SlideTimer {
    pub elapsed: i64,
    pub duration: i64,
    /// Whether the timer has reached its duration; a finished timer stays put.
    pub finished: bool,
}

impl SlideTimer {
    pub fn new(duration: i64) -> (r: SlideTimer)
        ensures
            r == (SlideTimer { elapsed: 0, duration, finished: false }),
    {
        SlideTimer { elapsed: 0, duration, finished: false }
    }
}

/// Advances a slide timer that has not finished by `dt` milliseconds,
/// stopping at its duration; a finished timer does not change. On the tick
/// it reaches the duration (the first tick, for a zero duration) the timer
/// finishes, the player runs again and the result is true.
pub fn handle_slide_timer(timer: &mut SlideTimer, player: &mut PlayerState, dt: i64) -> (finished: bool)
    requires
        0 <= old(timer).elapsed <= old(timer).duration <= DT_LIMIT,
        0 <= dt <= DT_LIMIT,
    ensures
        finished == (!old(timer).finished && old(timer).elapsed + dt >= old(timer).duration),
        *final(timer) == if old(timer).finished {
            *old(timer)
        } else if old(timer).elapsed + dt >= old(timer).duration {
            SlideTimer { elapsed: old(timer).duration, finished: true, ..*old(timer) }
        } else {
            SlideTimer { elapsed: (old(timer).elapsed + dt) as i64, ..*old(timer) }
        },
        *final(player) == if finished {
            PlayerState { animation: AnimationState::Running, ..*old(player) }
        } else {
            *old(player)
        },
{
    if timer.finished {
        return false;
    }
    if timer.elapsed + dt >= timer.duration {
        timer.elapsed = timer.duration;
        timer.finished = true;
        player.animation = AnimationState::Running;
        true
    } else {
        timer.elapsed = timer.elapsed + dt;
        false
    }
}

} // verus!
