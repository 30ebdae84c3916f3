//! Simulation core of a three-lane endless runner: track streaming, procedural
//! placement of obstacles, trains and coins, train motion, hit detection and
//! the Playing / GameOver cycle.
//!
//! All distances are fixed-point integers in thousandths of a world unit
//! (`1000` is one unit); speeds are thousandths of a unit per second and
//! time steps are milliseconds.
use vstd::prelude::*;

pub mod coin;
pub mod collision;
pub mod config;
pub mod obstacle;
pub mod placed;
pub mod player;
pub mod rng;
pub mod state;
pub mod track;
pub mod train;

verus! {

} // verus!
