//! Fixed-point geometry of the canvas: points, rectangles and axes.
//!
//! Every coordinate is a whole number of ticks. The canvas is the square from
//! `0` to [`UNIT`] on both axes, so one tick is a millionth of its side.

use vstd::prelude::*;

verus! {

/// Side length of the canvas, in ticks.
pub const UNIT: i32 = 1_000_000;

/// Two positions closer than this many ticks count as the same position.
pub const EPSILON: i32 = 1_000;

/// Smallest width and height a frame may be dragged to, in ticks; also the
/// margin a dragged boundary keeps from the canvas border.
pub const MIN_SIZE: i32 = 50_000;

/// A point, in ticks.
#[derive(Clone, Copy, Debug, PartialEq, Eq, Structural)]
pub struct Point {
    pub x: i32,
    pub y: i32,
}

/// An axis-aligned rectangle given by its two corners.
#[derive(Clone, Copy, Debug, PartialEq, Eq, Structural)]
pub struct Rect {
    pub min: Point,
    pub max: Point,
}

/// One of the two directions a line can follow.
#[derive(Clone, Copy, Debug, PartialEq, Eq, Structural)]
pub enum Axis {
    Horizontal,
    Vertical,
}

impl Axis {
    /// The axis perpendicular to this one.
    pub open spec fn spec_other(self) -> Axis {
        match self {
            Axis::Horizontal => Axis::Vertical,
            Axis::Vertical => Axis::Horizontal,
        }
    }

    /// The axis perpendicular to this one.
    pub fn other(self) -> (flipped: Axis)
        ensures
            flipped == self.spec_other(),
            flipped != self,
            flipped.spec_other() == self,
    {
        match self {
            Axis::Horizontal => Axis::Vertical,
            Axis::Vertical => Axis::Horizontal,
        }
    }
}

impl Rect {
    /// The rectangle spanning `x_from..x_to` horizontally and `y_from..y_to`
    /// vertically.
    pub fn from_x_y_ranges(x_from: i32, x_to: i32, y_from: i32, y_to: i32) -> (rect: Rect)
        ensures
            rect == (Rect { min: Point { x: x_from, y: y_from }, max: Point { x: x_to, y: y_to } }),
    {
        Rect { min: Point { x: x_from, y: y_from }, max: Point { x: x_to, y: y_to } }
    }

    /// Where the rectangle starts along `axis`.
    pub open spec fn start_along(self, axis: Axis) -> int {
        match axis {
            Axis::Horizontal => self.min.x as int,
            Axis::Vertical => self.min.y as int,
        }
    }

    /// Where the rectangle ends along `axis`.
    pub open spec fn end_along(self, axis: Axis) -> int {
        match axis {
            Axis::Horizontal => self.max.x as int,
            Axis::Vertical => self.max.y as int,
        }
    }

    /// Width of the rectangle; negative when the corners are swapped.
    pub open spec fn width(self) -> int {
        self.max.x - self.min.x
    }

    /// Height of the rectangle; negative when the corners are swapped.
    pub open spec fn height(self) -> int {
        self.max.y - self.min.y
    }

    /// The rectangle lies within the canvas and its corners are in order.
    pub open spec fn fits_canvas(self) -> bool {
        &&& 0 <= self.min.x <= self.max.x <= UNIT
        &&& 0 <= self.min.y <= self.max.y <= UNIT
    }

    /// The rectangle is at least [`MIN_SIZE`] wide and tall.
    pub open spec fn is_roomy(self) -> bool {
        &&& self.width() >= MIN_SIZE
        &&& self.height() >= MIN_SIZE
    }

    /// The unit cell whose lower corner is `(x, y)` lies inside the rectangle.
    pub open spec fn holds_cell(self, x: int, y: int) -> bool {
        &&& self.min.x <= x < self.max.x
        &&& self.min.y <= y < self.max.y
    }
}

/// The extent of `rect` along `axis`, as its start and its end.
pub fn range_along_axis(rect: &Rect, axis: Axis) -> (range: (i32, i32))
    ensures
        range.0 == rect.start_along(axis),
        range.1 == rect.end_along(axis),
{
    let self_range_from: i32 = match axis {
        Axis::Horizontal => rect.min.x,
        Axis::Vertical => rect.min.y,
    };
    let self_range_to: i32 = match axis {
        Axis::Horizontal => rect.max.x,
        Axis::Vertical => rect.max.y,
    };
    (self_range_from, self_range_to)
}

} // verus!
