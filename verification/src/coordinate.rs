//! Positions on the pixel grid of the window.

use vstd::prelude::*;
use crate::config::{CENTER_X, CENTER_Y};

verus! {

/// A point of the window, counted in pixels from the top-left corner.
#[derive(Clone, Copy, Debug, PartialEq, Eq, Structural)]
pub struct PixelCoordinate2D {
    pub x: i32,
    pub y: i32,
}

impl PixelCoordinate2D {
    /// The point with the given coordinates.
    pub fn new(x: i32, y: i32) -> (p: PixelCoordinate2D)
        ensures
            p.x == x,
            p.y == y,
    {
        PixelCoordinate2D { x, y }
    }

    /// The point whose coordinates are the two halves of `tuple`.
    pub fn new_tuple(tuple: (i32, i32)) -> (p: PixelCoordinate2D)
        ensures
            p.x == tuple.0,
            p.y == tuple.1,
    {
        PixelCoordinate2D { x: tuple.0, y: tuple.1 }
    }

    /// The top-left corner of the window.
    pub fn origin() -> (p: PixelCoordinate2D)
        ensures
            p.x == 0,
            p.y == 0,
    {
        PixelCoordinate2D { x: 0, y: 0 }
    }

    /// The centre of the window.
    pub fn center() -> (p: PixelCoordinate2D)
        ensures
            p.x == CENTER_X,
            p.y == CENTER_Y,
    {
        PixelCoordinate2D { x: CENTER_X as i32, y: CENTER_Y as i32 }
    }
}

} // verus!
