//! Tile-based factory simulation: coins, machines, a spatial tile index and
//! pointer gestures, all over integer world units and integer nanoseconds.

pub mod amount;
pub mod coins;
pub mod common;
pub mod entity;
pub mod game;
pub mod geometry;
pub mod guard;
pub mod hud;
pub mod identity;
pub mod input;
pub mod machines;
pub mod placement;
pub mod random;
pub mod simulation;
pub mod tiles;
pub mod timer;
pub mod title;
pub mod tracking;
