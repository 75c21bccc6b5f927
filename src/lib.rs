//! Simulation core of a vertically scrolling arcade shooter.
//!
//! Lengths are counted in milli-units (a thousandth of a world unit), time in
//! nanoseconds and probabilities in parts per million, so that every rule of
//! the simulation is integer arithmetic with an exact contract.

pub mod geometry;
pub mod timer;
pub mod animation;
pub mod random;
pub mod body;
pub mod bullet;
pub mod enemy;
pub mod player;
pub mod world;
pub mod systems;
pub mod combat;
pub mod behavior;
pub mod level;
pub mod starfield;
pub mod state;
pub mod laws;
pub mod roster;
