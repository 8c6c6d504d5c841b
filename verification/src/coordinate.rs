//! Integer 2D positions and extents for the pixel canvas.

use vstd::prelude::*;

verus! {

/// A position on the canvas: `x` grows to the right, `y` grows downward.
#[derive(Clone, Copy, Debug, PartialEq, Eq, Structural)]
pub struct Coordinate {
    pub x: usize,
    pub y: usize,
}

impl Coordinate {
    /// The coordinate `(x, y)` given as 32-bit values.
    pub fn new(x: u32, y: u32) -> (r: Coordinate)
        ensures
            r.x == x as usize,
            r.y == y as usize,
    {
        Coordinate { x: x as usize, y: y as usize }
    }

    /// The origin `(0, 0)`.
    pub fn null() -> (r: Coordinate)
        ensures
            r.x == 0,
            r.y == 0,
    {
        Coordinate { x: 0, y: 0 }
    }

    /// Componentwise sum, used to translate a pixel position by a canvas
    /// offset.
    pub fn add(self, rhs: Coordinate) -> (r: Coordinate)
        requires
            self.x + rhs.x <= usize::MAX,
            self.y + rhs.y <= usize::MAX,
        ensures
            r.x == self.x + rhs.x,
            r.y == self.y + rhs.y,
    {
        Coordinate { x: self.x + rhs.x, y: self.y + rhs.y }
    }
}

/// A width and height in pixels.
#[derive(Clone, Copy, Debug, PartialEq, Eq, Structural)]
pub struct Dimension {
    pub width: usize,
    pub height: usize,
}

impl Dimension {
    /// The number of cells in a raster of this dimension.
    pub fn pixels(self) -> (r: usize)
        requires
            self.width * self.height <= usize::MAX,
        ensures
            r == self.width * self.height,
    {
        self.width * self.height
    }
}

} // verus!
