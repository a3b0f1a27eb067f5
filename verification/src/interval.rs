//! Intervals: the sides of rectangles seen as line segments, and the test
//! that tells which side of a rectangle lies on a given segment.

use vstd::prelude::*;
use crate::frame::Edge;
use crate::geometry::{Axis, Rect, EPSILON};

verus! {

/// A line segment parallel to one axis.
#[derive(Debug, Clone, Copy, PartialEq, Eq, Structural)]
pub struct Interval {
    /// The axis this segment follows.
    pub axis: Axis,
    /// Where the segment starts along [`Interval::axis`].
    pub axis_from: i32,
    /// Where the segment ends along [`Interval::axis`].
    pub axis_to: i32,
    /// Where the segment lies on the other axis.
    pub perpendicular_pos: i32,
}

impl Interval {
    /// Two segments intersect when they follow the same axis, lie less than
    /// [`EPSILON`] apart on the other axis, and share more than one point:
    /// segments that only touch end to end do not intersect.
    pub open spec fn spec_intersects(self, other: Interval) -> bool {
        &&& self.axis == other.axis
        &&& -EPSILON < self.perpendicular_pos - other.perpendicular_pos < EPSILON
        &&& self.axis_from < other.axis_to
        &&& self.axis_to > other.axis_from
    }

    /// Checks if this segment intersects another one.
    pub fn intersects(&self, other: &Interval) -> (hit: bool)
        ensures
            hit == self.spec_intersects(*other),
    {
        let gap: i64 = self.perpendicular_pos as i64 - other.perpendicular_pos as i64;
        let same_pos = -(EPSILON as i64) < gap && gap < EPSILON as i64;
        let same_axis = self.axis == other.axis;
        let interval_intersect = self.axis_from < other.axis_to && self.axis_to > other.axis_from;
        same_axis && same_pos && interval_intersect
    }

    /// This segment lies on the same line as `inner` and reaches at least as
    /// far in both directions.
    pub open spec fn covers(self, inner: Interval) -> bool {
        &&& self.axis == inner.axis
        &&& self.perpendicular_pos == inner.perpendicular_pos
        &&& self.axis_from <= inner.axis_from
        &&& self.axis_to >= inner.axis_to
    }
}

/// The side `edge` of `rect` as a segment: top and bottom run horizontally at
/// the rectangle's lowest and highest `y`, left and right run vertically at
/// its lowest and highest `x`.
pub open spec fn edge_of(rect: Rect, edge: Edge) -> Interval {
    match edge {
        Edge::Top => Interval {
            axis: Axis::Horizontal,
            axis_from: rect.min.x,
            axis_to: rect.max.x,
            perpendicular_pos: rect.min.y,
        },
        Edge::Bottom => Interval {
            axis: Axis::Horizontal,
            axis_from: rect.min.x,
            axis_to: rect.max.x,
            perpendicular_pos: rect.max.y,
        },
        Edge::Left => Interval {
            axis: Axis::Vertical,
            axis_from: rect.min.y,
            axis_to: rect.max.y,
            perpendicular_pos: rect.min.x,
        },
        Edge::Right => Interval {
            axis: Axis::Vertical,
            axis_from: rect.min.y,
            axis_to: rect.max.y,
            perpendicular_pos: rect.max.x,
        },
    }
}

/// The side of `rect` that intersects `interval`: the first one that does,
/// trying top, bottom, left and right in this order.
pub open spec fn touching_edge(rect: Rect, interval: Interval) -> Option<Edge> {
    if edge_of(rect, Edge::Top).spec_intersects(interval) {
        Some(Edge::Top)
    } else if edge_of(rect, Edge::Bottom).spec_intersects(interval) {
        Some(Edge::Bottom)
    } else if edge_of(rect, Edge::Left).spec_intersects(interval) {
        Some(Edge::Left)
    } else if edge_of(rect, Edge::Right).spec_intersects(interval) {
        Some(Edge::Right)
    } else {
        None
    }
}

/// The top side of `rect`.
pub fn up_interval(rect: &Rect) -> (interval: Interval)
    ensures
        interval == edge_of(*rect, Edge::Top),
{
    Interval {
        axis: Axis::Horizontal,
        axis_from: rect.min.x,
        axis_to: rect.max.x,
        perpendicular_pos: rect.min.y,
    }
}

/// The bottom side of `rect`.
pub fn down_interval(rect: &Rect) -> (interval: Interval)
    ensures
        interval == edge_of(*rect, Edge::Bottom),
{
    Interval {
        axis: Axis::Horizontal,
        axis_from: rect.min.x,
        axis_to: rect.max.x,
        perpendicular_pos: rect.max.y,
    }
}

/// The left side of `rect`.
pub fn left_interval(rect: &Rect) -> (interval: Interval)
    ensures
        interval == edge_of(*rect, Edge::Left),
{
    Interval {
        axis: Axis::Vertical,
        axis_from: rect.min.y,
        axis_to: rect.max.y,
        perpendicular_pos: rect.min.x,
    }
}

/// The right side of `rect`.
pub fn right_interval(rect: &Rect) -> (interval: Interval)
    ensures
        interval == edge_of(*rect, Edge::Right),
{
    Interval {
        axis: Axis::Vertical,
        axis_from: rect.min.y,
        axis_to: rect.max.y,
        perpendicular_pos: rect.max.x,
    }
}

/// The side `edge` of `rect`.
pub fn get_interval(rect: &Rect, edge: Edge) -> (interval: Interval)
    ensures
        interval == edge_of(*rect, edge),
{
    match edge {
        Edge::Top => up_interval(rect),
        Edge::Bottom => down_interval(rect),
        Edge::Left => left_interval(rect),
        Edge::Right => right_interval(rect),
    }
}

/// Finds the side of `rect` that intersects `interval`, if any.
pub fn intersects_interval(rect: &Rect, interval: &Interval) -> (edge: Option<Edge>)
    ensures
        edge == touching_edge(*rect, *interval),
{
    if up_interval(rect).intersects(interval) {
        Some(Edge::Top)
    } else if down_interval(rect).intersects(interval) {
        Some(Edge::Bottom)
    } else if left_interval(rect).intersects(interval) {
        Some(Edge::Left)
    } else if right_interval(rect).intersects(interval) {
        Some(Edge::Right)
    } else {
        None
    }
}

/// A side that intersects a segment follows the segment's axis, lies less
/// than [`EPSILON`] from it, and the rectangle's extent along that axis
/// shares more than a point with the segment.
pub proof fn lemma_touching_edge_runs_along(rect: Rect, interval: Interval)
    requires
        touching_edge(rect, interval).is_some(),
    ensures
        edge_of(rect, touching_edge(rect, interval).unwrap()).spec_intersects(interval),
        edge_of(rect, touching_edge(rect, interval).unwrap()).axis == interval.axis,
        edge_of(rect, touching_edge(rect, interval).unwrap()).axis_from == rect.start_along(
            interval.axis,
        ),
        edge_of(rect, touching_edge(rect, interval).unwrap()).axis_to == rect.end_along(
            interval.axis,
        ),
        interval.axis_from < rect.end_along(interval.axis),
        interval.axis_to > rect.start_along(interval.axis),
{
}

/// A rectangle that is [`MIN_SIZE`](crate::geometry::MIN_SIZE) wide and tall
/// has at most one side on a segment: the order in which the sides are tried
/// decides nothing for it.
pub proof fn lemma_roomy_rect_touches_once(rect: Rect, interval: Interval, first: Edge, second: Edge)
    requires
        rect.is_roomy(),
        edge_of(rect, first).spec_intersects(interval),
        edge_of(rect, second).spec_intersects(interval),
    ensures
        first == second,
        touching_edge(rect, interval) == Some(first),
{
}

/// A rectangle that touches a segment also touches every segment that covers
/// it.
pub proof fn lemma_touching_is_monotone(rect: Rect, inner: Interval, outer: Interval)
    requires
        outer.covers(inner),
        touching_edge(rect, inner).is_some(),
    ensures
        touching_edge(rect, outer).is_some(),
{
}

} // verus!
