//! Combat simulation core of a top-down action game: staged attack timelines,
//! movement curves, root locks, a symmetric kinematic contact resolver, and
//! the mark status effect that chains damage across nearby targets.
//!
//! Lengths are fixed-point integers in thousandths of a world unit, unit
//! directions carry the same scale, and durations are whole microseconds.
use vstd::prelude::*;

pub mod assets;
pub mod clock;
pub mod combatant;
pub mod enemy;
pub mod game;
pub mod geometry;
pub mod health;
pub mod input;
pub mod layers;
pub mod mark;
pub mod movement;
pub mod player;
pub mod resolver;
pub mod timeline;

verus! {

} // verus!
