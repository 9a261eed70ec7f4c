//! Zombie pursuit-coordination core of a 2D top-down action game.
//!
//! The library holds the gameplay logic that is worth reasoning about:
//! grid pathfinding over an occupancy grid, flocking-style separation and
//! per-agent target offsets, the per-tick agent state machine, and the
//! cooldown-gated combat resolver.  Rendering, physics integration, audio
//! and UI are outside collaborators: the library consumes position
//! snapshots, elapsed time and collision-start events, and produces
//! velocities, animation tokens and health mutations.
//!
//! World space is modelled in fixed-point coordinates: one world unit is
//! a thousand steps of an `i64`.

pub mod geometry;
pub mod grid;
pub mod occupancy;
pub mod personal_space;
pub mod rng;
pub mod pathing;
pub mod timer;
pub mod zombie;
pub mod combat;
