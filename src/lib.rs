//! Simulation engine of a two-player handheld arcade console: bounded entity
//! pools, level generation, per-tick collision resolution, progression and
//! the decisions of the cooperative tick loop.

pub mod breakout;
pub mod entity;
pub mod input;
pub mod invaders;
pub mod level;
pub mod menu;
pub mod physics;
pub mod pool;
pub mod progression;
pub mod random;
pub mod snake;
pub mod sokoban;
