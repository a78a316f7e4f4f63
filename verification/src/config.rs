//! Sizes of the window and pace of the event loop.

use vstd::prelude::*;

verus! {

/// Number of tiles along the horizontal axis of a tiled window.
pub const X_TILE_COUNT: u32 = 16;

/// Number of tiles along the vertical axis of a tiled window.
pub const Y_TILE_COUNT: u32 = 16;

/// Edge of one tile, in pixels.
pub const TILE_SIZE: u32 = 32;

/// Width of the border around a tiled window, in pixels.
pub const BORDER_SIZE: u32 = 16;

/// Height of the window, in pixels.
pub const WINDOW_HEIGHT: u32 = 700;

/// Width of the window, in pixels.
pub const WINDOW_WIDTH: u32 = 700;

/// Horizontal pixel coordinate of the window's centre.
pub const CENTER_X: u32 = WINDOW_WIDTH / 2;

/// Vertical pixel coordinate of the window's centre.
pub const CENTER_Y: u32 = WINDOW_HEIGHT / 2;

/// Logic updates per second.
pub const TICKS_PER_SECOND: u32 = 20;

/// Frames drawn per second.
pub const FRAMERATE: u32 = 20;

/// Whether a comparison is accompanied by a tone.
pub const PLAY_AUDIO: bool = false;

} // verus!
