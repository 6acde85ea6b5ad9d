//! Tuning constants of the game, in the library's fixed-point units.
//!
//! Lengths are in micropixels, speeds in millipixels per second and times in
//! milliseconds. With these units a speed times a duration is a length with no
//! rounding, and an acceleration rate times a duration is a speed.
use vstd::prelude::*;

verus! {

/// Micropixels in one pixel.
pub const PX: i64 = 1_000_000;

/// Width of the window.
pub const WIN_W: i64 = 1280 * PX;

/// Height of the window.
pub const WIN_H: i64 = 720 * PX;

/// Side of one square tile (a brick or a frame of the player's sheet).
pub const TILE_SIZE: i64 = 100 * PX;

/// Horizontal extent of the level.
pub const LEVEL_LEN: i64 = 5000 * PX;

/// Largest speed of the player, in millipixels per second.
pub const PLAYER_SPEED: i64 = 500_000;

/// Speed gained or lost per millisecond of held input, in millipixels per second.
pub const ACCEL_RATE: u64 = 5000;

/// Time that each frame of the walking animation is shown.
pub const ANIM_TIME_MS: u32 = 200;

/// Shortest time that the loading screen stays up.
pub const MIN_LOAD_TIME_MS: u64 = 5000;

/// Length of the full loading bar.
pub const PROGRESS_LENGTH: i64 = 120 * PX;

/// Height of the loading bar.
pub const PROGRESS_HEIGHT: i64 = 20 * PX;

/// Width of the frame drawn around the loading bar.
pub const PROGRESS_FRAME: i64 = 5 * PX;

/// Leftmost position of the player's centre: half a tile right of the
/// window's left edge at the start of the level (`-WIN_W / 2 + TILE_SIZE / 2`).
pub const MIN_X: i64 = -590 * PX;

/// Rightmost position of the player's centre
/// (`LEVEL_LEN - (WIN_W / 2 + TILE_SIZE / 2)`).
pub const MAX_X: i64 = 4310 * PX;

/// Lowest position of the player's centre: standing on the row of bricks
/// (`-WIN_H / 2 + 3 * TILE_SIZE / 2`).
pub const MIN_Y: i64 = -210 * PX;

/// Highest position of the player's centre (`WIN_H / 2 - TILE_SIZE / 2`).
pub const MAX_Y: i64 = 310 * PX;

/// The player wins once the centre lies strictly right of this
/// (`LEVEL_LEN - (WIN_W / 2 + TILE_SIZE)`).
pub const WIN_X: i64 = 4260 * PX;

/// Rightmost position of the camera.
pub const CAMERA_MAX_X: i64 = LEVEL_LEN - WIN_W;

/// Centre of the first brick: the bottom-left tile of the window at the
/// start of the level (`-WIN_W / 2 + TILE_SIZE / 2`).
pub const FIRST_BRICK_X: i64 = -590 * PX;

/// Height of the row of bricks' centres (`-WIN_H / 2 + TILE_SIZE / 2`).
pub const BRICK_Y: i64 = -310 * PX;

} // verus!
