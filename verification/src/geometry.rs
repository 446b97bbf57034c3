//! Rectangles describing where a pane sits on the client screen.

use vstd::prelude::*;

verus! {

/// A rectangle: position of the top-left corner plus size, in cells.
#[derive(Debug, Clone, Copy, PartialEq, Eq, Hash, Structural)]
pub struct Rect {
    pub x: u16,
    pub y: u16,
    pub width: u16,
    pub height: u16,
}

impl Rect {
    /// Number of cells the rectangle covers.
    pub open spec fn spec_area(self) -> int {
        self.width * self.height
    }

    /// The rectangle fits in the `u16` coordinate plane.
    pub open spec fn in_bounds(self) -> bool {
        self.x + self.width <= u16::MAX && self.y + self.height <= u16::MAX
    }

    pub fn new(x: u16, y: u16, width: u16, height: u16) -> (r: Rect)
        ensures
            r == (Rect { x, y, width, height }),
    {
        Rect { x, y, width, height }
    }

    /// The right edge (exclusive).
    pub fn right(&self) -> (r: u16)
        requires
            self.x + self.width <= u16::MAX,
        ensures
            r == self.x + self.width,
    {
        self.x + self.width
    }

    /// The bottom edge (exclusive).
    pub fn bottom(&self) -> (r: u16)
        requires
            self.y + self.height <= u16::MAX,
        ensures
            r == self.y + self.height,
    {
        self.y + self.height
    }

    /// Whether the point `(x, y)` lies inside the rectangle.
    pub fn contains(&self, x: u16, y: u16) -> (r: bool)
        requires
            self.in_bounds(),
        ensures
            r == (self.x <= x && x < self.x + self.width && self.y <= y && y < self.y
                + self.height),
    {
        x >= self.x && x < self.right() && y >= self.y && y < self.bottom()
    }

    /// Shrink the rectangle by `border` cells on every side.
    pub fn inset(&self, border: u16) -> (r: Rect)
        requires
            self.x + border <= u16::MAX,
            self.y + border <= u16::MAX,
        ensures
            r.x == self.x + border,
            r.y == self.y + border,
            r.width == if self.width >= 2 * border {
                self.width - 2 * border
            } else {
                0
            },
            r.height == if self.height >= 2 * border {
                self.height - 2 * border
            } else {
                0
            },
    {
        let double: u32 = (border as u32) * 2;
        let width: u16 = if (self.width as u32) >= double {
            (self.width as u32 - double) as u16
        } else {
            0
        };
        let height: u16 = if (self.height as u32) >= double {
            (self.height as u32 - double) as u16
        } else {
            0
        };
        Rect { x: self.x + border, y: self.y + border, width, height }
    }
}

} // verus!
