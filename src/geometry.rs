//! Integer pixel-space geometry and tint colours.

use vstd::prelude::*;

verus! {

/// A point or displacement in window pixels; y grows downwards.
#[derive(Debug, Clone, Copy, PartialEq, Eq, Structural)]
pub struct Vector2 {
    pub x: i64,
    pub y: i64,
}

/// A width and a height in pixels.
#[derive(Debug, Clone, Copy, PartialEq, Eq, Structural)]
pub struct Extent {
    pub width: u32,
    pub height: u32,
}

/// A tint colour; each channel is a percentage of full intensity (0 to 100).
#[derive(Debug, Clone, Copy, PartialEq, Eq, Structural)]
pub struct Tint {
    pub red: u8,
    pub green: u8,
    pub blue: u8,
}

impl Vector2 {
    pub fn new(x: i64, y: i64) -> (r: Vector2)
        ensures
            r == (Vector2 { x, y }),
    {
        Vector2 { x, y }
    }
}

impl Extent {
    pub fn new(width: u32, height: u32) -> (r: Extent)
        ensures
            r == (Extent { width, height }),
    {
        Extent { width, height }
    }
}

impl Tint {
    pub open spec fn spec_white() -> Tint {
        Tint { red: 100, green: 100, blue: 100 }
    }

    /// Full intensity on every channel: the texture is drawn as it is.
    pub fn white() -> (r: Tint)
        ensures
            r == Tint::spec_white(),
    {
        Tint { red: 100, green: 100, blue: 100 }
    }
}

} // verus!
