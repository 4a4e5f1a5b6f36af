//! Simulation core of a toroidal Snake game.
//!
//! The crate holds the deterministic game logic alone: the seeded byte
//! generator that picks food cells, an earlier square-and-reduce generator
//! kept so sessions recorded against it still replay, and the grid state
//! machine with its decay-encoded snake body.  Rendering, gamepad input and
//! the wall-clock read that seeds a session are platform glue and live
//! outside the library; they hand in plain values (seed bytes, directions)
//! and read plain values back.

pub mod game;
pub mod rand;
pub mod rng;
