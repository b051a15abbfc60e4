//! The playing field and the tuning constants, in the crate's integer units.

use vstd::prelude::*;

verus! {

/// Micro-pixels in one pixel.
pub const PIXEL: i64 = 1_000_000;

/// The right edge of the window; the origin is the window's centre.
pub const WINDOW_RIGHT: i64 = 640_000_000;

/// The left edge of the window.
pub const WINDOW_LEFT: i64 = -640_000_000;

/// The top edge of the window.
pub const WINDOW_TOP: i64 = 360_000_000;

/// The height on which the player and the obstacles stand.
pub const GROUND: i64 = -250_000_000;

/// Downward acceleration of the player in pixels per second squared, which is
/// milli-pixels per second lost in each millisecond.
pub const ACCELERATION: i64 = 800;

/// Upward speed at the start of a jump, in milli-pixels per second.
pub const LAUNCH_VELOCITY: i64 = 600_000;

/// The greatest height above the ground that a jump reaches.
pub const APEX: i64 = 225_000_000;

/// Milliseconds from the start of a jump after which the player has landed.
pub const FLIGHT_MS: u64 = 1500;

/// Horizontal position of the player.
pub const PLAYER_X: i64 = -500_000_000;

/// Half the width of the player.
pub const PLAYER_HALF_WIDTH: u32 = 25_000_000;

/// Height of the player.
pub const PLAYER_HEIGHT: u32 = 100_000_000;

/// Speed of an obstacle at the start of a run, in milli-pixels per second.
pub const BASE_VELOCITY: u32 = 300_000;

/// Milliseconds of survival after which obstacles gain one speed level.
pub const SCALE_INTERVAL_MS: u64 = 900;

/// The highest speed level.
pub const LEVEL_MAX: u16 = 65535;

/// No obstacle moves faster than this, in milli-pixels per second.
pub const VELOCITY_CAP: u32 = 1_000_000_000;

} // verus!
