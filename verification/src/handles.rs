//! Drag handles: the strips along the sides of a frame on which a drag of
//! that side is sensed.
//!
//! Sizes are in hundredths of a point, the unit in which a frame's rectangle
//! on the screen is to be given here.

use vstd::prelude::*;
use crate::frame::Edge;
use crate::geometry::{Point, Rect};

verus! {

/// The width of the gap between two frames, which is also the depth of a
/// drag handle.
pub const SEPERATOR_SIZE: i32 = 250;

/// How far a drag handle stays away from the corners of its frame.
pub const CORNER_SIZE: i32 = 750;

/// The margin between the gap around a frame and its contents.
pub const MARGIN: i32 = 1_000;

/// The four bounds of the drag handle on the side `edge` of a frame shown at
/// `rect`: its lowest and highest `x`, then its lowest and highest `y`.
///
/// The frame gives up half a separator on every side. The handle lies along
/// the side of what is left, [`SEPERATOR_SIZE`] deep, and ends
/// [`CORNER_SIZE`] before the corners.
pub open spec fn handle_bounds(rect: Rect, edge: Edge) -> (int, int, int, int) {
    let half = SEPERATOR_SIZE / 2;
    let min_x = rect.min.x + half;
    let min_y = rect.min.y + half;
    let max_x = rect.max.x - half;
    let max_y = rect.max.y - half;
    match edge {
        Edge::Top => (min_x + CORNER_SIZE, max_x - CORNER_SIZE, min_y, min_y + SEPERATOR_SIZE),
        Edge::Bottom => (min_x + CORNER_SIZE, max_x - CORNER_SIZE, max_y - SEPERATOR_SIZE, max_y),
        Edge::Left => (min_x, min_x + SEPERATOR_SIZE, min_y + CORNER_SIZE, max_y - CORNER_SIZE),
        Edge::Right => (max_x - SEPERATOR_SIZE, max_x, min_y + CORNER_SIZE, max_y - CORNER_SIZE),
    }
}

/// The number is one that a coordinate can hold.
pub open spec fn is_coordinate(value: int) -> bool {
    i32::MIN <= value <= i32::MAX
}

/// The drag handle on the side `edge` of a frame shown at `rect`, or `None`
/// where one of its bounds is no coordinate.
pub open spec fn handle_of(rect: Rect, edge: Edge) -> Option<Rect> {
    let (min_x, max_x, min_y, max_y) = handle_bounds(rect, edge);
    if is_coordinate(min_x) && is_coordinate(max_x) && is_coordinate(min_y) && is_coordinate(
        max_y,
    ) {
        Some(
            Rect {
                min: Point { x: min_x as i32, y: min_y as i32 },
                max: Point { x: max_x as i32, y: max_y as i32 },
            },
        )
    } else {
        None
    }
}

/// Makes a coordinate of a number, if it is one.
fn coordinate(value: i64) -> (made: Option<i32>)
    ensures
        made == if is_coordinate(value as int) {
            Some(value as i32)
        } else {
            None
        },
{
    if value >= i32::MIN as i64 && value <= i32::MAX as i64 {
        Some(value as i32)
    } else {
        None
    }
}

/// Computes the drag handle on the side `edge` of a frame shown at `rect`.
pub fn drag_handle(rect: &Rect, edge: Edge) -> (handle: Option<Rect>)
    ensures
        handle == handle_of(*rect, edge),
{
    let half: i64 = (SEPERATOR_SIZE / 2) as i64;
    let separator: i64 = SEPERATOR_SIZE as i64;
    let corner: i64 = CORNER_SIZE as i64;
    let min_x: i64 = rect.min.x as i64 + half;
    let min_y: i64 = rect.min.y as i64 + half;
    let max_x: i64 = rect.max.x as i64 - half;
    let max_y: i64 = rect.max.y as i64 - half;
    let (from_x, to_x, from_y, to_y): (i64, i64, i64, i64) = match edge {
        Edge::Top => (min_x + corner, max_x - corner, min_y, min_y + separator),
        Edge::Bottom => (min_x + corner, max_x - corner, max_y - separator, max_y),
        Edge::Left => (min_x, min_x + separator, min_y + corner, max_y - corner),
        Edge::Right => (max_x - separator, max_x, min_y + corner, max_y - corner),
    };
    match (coordinate(from_x), coordinate(to_x), coordinate(from_y), coordinate(to_y)) {
        (Some(x0), Some(x1), Some(y0), Some(y1)) => Some(
            Rect { min: Point { x: x0, y: y0 }, max: Point { x: x1, y: y1 } },
        ),
        _ => None,
    }
}

} // verus!
