//! Frame-stepped rules of a side-scrolling runner, in exact integer arithmetic.
//!
//! Lengths are in micro-pixels, speeds in milli-pixels per second and time in
//! milliseconds, so that one frame of constant-acceleration motion is computed
//! without rounding. The surrounding application owns the window, the input
//! devices and the renderer; it hands each frame's duration and inputs to
//! [`game::Game`] and draws what the game then holds.

pub mod collision;
pub mod game;
pub mod jump;
pub mod menu;
pub mod obstacle;
pub mod score;
pub mod units;
