//! Deterministic core of a fixed-timestep arena-survival game.
//!
//! A player moves in a bounded two-dimensional world, fends off waves of
//! enemies with a short-range knife and loses when an enemy or a projectile
//! touches it. This crate holds the simulation only: the fixed-tick clock,
//! the player and enemy state machines, the wave director and the per-tick
//! collision pass. Windowing, drawing, sound and key polling live outside:
//! a tick takes the keys that are held as a plain value and hands back the
//! events that a sound player wants to hear of.
//!
//! All coordinates are fixed-point integers, [`geom::UNIT`] steps to one world
//! unit, and time is counted in whole clock steps, so that every rule of the
//! simulation is exact integer arithmetic.
//!
//! - [`geom`]: points, distances, circle overlap, motion towards a target
//! - [`random`]: the random draws and the spawn-placement rule
//! - [`clock`]: how many ticks a frame runs
//! - [`waves`]: the wave tables
//! - [`player`]: player state, directions, speeds
//! - [`body`]: collision of circular bodies
//! - [`lemon`], [`grape`], [`bullet`], [`bread`]: the entities
//! - [`state`]: the game state, its view and its invariant
//! - [`control`], [`combat`], [`spawner`], [`enemies`]: the parts of a tick
//! - [`game`]: the tick itself, and what holds of every run of ticks

pub mod body;
pub mod bread;
pub mod bullet;
pub mod clock;
pub mod combat;
pub mod control;
pub mod enemies;
pub mod game;
pub mod geom;
pub mod grape;
pub mod lemon;
pub mod player;
pub mod random;
pub mod spawner;
pub mod state;
pub mod waves;
