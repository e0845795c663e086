use vstd::prelude::*;

verus! {

/// A position on the screen, in pixels.
#[derive(Clone, Copy, Debug, PartialEq, Eq, Structural)]
pub struct Point {
    pub x: u32,
    pub y: u32,
}

/// A width and a height, in pixels.
#[derive(Clone, Copy, Debug, PartialEq, Eq, Structural)]
pub struct Dimensions {
    pub width: u32,
    pub height: u32,
}

/// A rectangle of the screen, from its top-left corner `point1` to its
/// bottom-right corner `point2`, both included.
#[derive(Clone, Copy, Debug, PartialEq, Eq, Structural)]
pub struct Region {
    pub point1: Point,
    pub point2: Point,
}

impl Region {
    /// The corners are in order: `point1` is above and left of `point2`.
    pub open spec fn wf(self) -> bool {
        self.point1.x <= self.point2.x && self.point1.y <= self.point2.y
    }

    /// `[x_min, y_min, x_max, y_max]`.
    pub fn corners(&self) -> (c: [u32; 4])
        ensures
            c@ == seq![self.point1.x, self.point1.y, self.point2.x, self.point2.y],
    {
        [self.point1.x, self.point1.y, self.point2.x, self.point2.y]
    }

    /// Distance from the first corner to the second, along each axis.
    pub fn get_size(&self) -> (d: Dimensions)
        requires
            self.wf(),
        ensures
            d.width == self.point2.x - self.point1.x,
            d.height == self.point2.y - self.point1.y,
    {
        Dimensions {
            width: self.point2.x - self.point1.x,
            height: self.point2.y - self.point1.y,
        }
    }
}

} // verus!
