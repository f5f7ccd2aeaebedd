//! Simulation core of a falling-block puzzle game.
//!
//! The crate models the rules engine only: the settled board, the active
//! piece, collision detection, movement and rotation, row clearing, the
//! input latch, and the fixed-timestep gravity driver.  Rendering, window
//! management and keyboard plumbing are left to the host program, which
//! talks to this crate through plain values: input events in, a list of
//! colored cells out.

pub mod board;
pub mod game;
pub mod piece;
pub mod tetromino;
