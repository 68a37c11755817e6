//! Core of a tower-defense simulation, verified with Verus.
//!
//! Targets advance along a fixed waypoint path, towers periodically fire
//! bullets at the nearest living target, bullets expire after a fixed
//! lifetime, and a player's money/health economy drives a three-state
//! game-state machine (main menu, in game, game over).
//!
//! All gameplay quantities are fixed point: positions and speeds are kept in
//! integer milli-units (one world unit is 1000 position units) and time is
//! kept in milliseconds, so every rule of the simulation is stated and proved
//! exactly. Rendering, asset loading, input handling and physics are external
//! collaborators and are not part of this crate.

pub mod components;
pub mod geometry;
pub mod laws;
pub mod timer;
pub mod world;
