//! Deterministic fixed-timestep simulation of an arcade survival game:
//! a player collects orbs in a bounded arena while being chased by ghosts
//! that replay the player's own recorded path.
//!
//! Every fractional quantity is held in fixed point (see `geom::ONE`) so the
//! simulation is exact, reproducible and verified free of overflow.

pub mod geom;
pub mod mode;
pub mod player;
pub mod history;
pub mod ghost;
pub mod spawn;
pub mod world;
pub mod menu;
pub mod wav;
