//! The sides of a frame and the directions they are dragged in.

use vstd::prelude::*;
use vstd::std_specs::convert::FromSpecImpl;
use crate::geometry::Axis;

verus! {

/// A side of a rectangle.
#[derive(Debug, Clone, Copy, PartialEq, Eq, Structural)]
pub enum Edge {
    Top,
    Bottom,
    Left,
    Right,
}

/// The direction that faces outward from a side.
#[derive(Debug, Clone, Copy, PartialEq, Eq, Structural)]
pub enum Direction {
    Up,
    Down,
    Left,
    Right,
}

/// A drag gesture sensed on one side of a frame: the side, and how far the
/// pointer moved across it.
#[derive(Debug, Clone, Copy, PartialEq, Eq, Structural)]
pub struct DragResponse {
    pub edge: Edge,
    pub delta: i32,
}

impl Edge {
    /// The direction this side faces.
    pub open spec fn direction(self) -> Direction {
        match self {
            Edge::Top => Direction::Up,
            Edge::Bottom => Direction::Down,
            Edge::Left => Direction::Left,
            Edge::Right => Direction::Right,
        }
    }
}

impl Direction {
    /// The side that faces this direction.
    pub open spec fn edge(self) -> Edge {
        match self {
            Direction::Up => Edge::Top,
            Direction::Down => Edge::Bottom,
            Direction::Left => Edge::Left,
            Direction::Right => Edge::Right,
        }
    }

    /// The axis this direction points along.
    pub open spec fn axis(self) -> Axis {
        match self {
            Direction::Up | Direction::Down => Axis::Vertical,
            Direction::Left | Direction::Right => Axis::Horizontal,
        }
    }
}

impl From<Edge> for Direction {
    fn from(value: Edge) -> (direction: Direction) {
        match value {
            Edge::Top => Direction::Up,
            Edge::Bottom => Direction::Down,
            Edge::Left => Direction::Left,
            Edge::Right => Direction::Right,
        }
    }
}

impl FromSpecImpl<Edge> for Direction {
    open spec fn obeys_from_spec() -> bool {
        true
    }

    open spec fn from_spec(value: Edge) -> Direction {
        value.direction()
    }
}

impl From<Direction> for Edge {
    fn from(value: Direction) -> (edge: Edge) {
        match value {
            Direction::Up => Edge::Top,
            Direction::Down => Edge::Bottom,
            Direction::Left => Edge::Left,
            Direction::Right => Edge::Right,
        }
    }
}

impl FromSpecImpl<Direction> for Edge {
    open spec fn obeys_from_spec() -> bool {
        true
    }

    open spec fn from_spec(value: Direction) -> Edge {
        value.edge()
    }
}

impl From<Direction> for Axis {
    fn from(value: Direction) -> (axis: Axis) {
        match value {
            Direction::Up | Direction::Down => Axis::Vertical,
            Direction::Left | Direction::Right => Axis::Horizontal,
        }
    }
}

impl FromSpecImpl<Direction> for Axis {
    open spec fn obeys_from_spec() -> bool {
        true
    }

    open spec fn from_spec(value: Direction) -> Axis {
        value.axis()
    }
}

/// The drag that wins where several sides of one frame are dragged at once:
/// the first that was sensed, trying top, bottom, left and right in this
/// order. Each argument is how far that side was dragged, if it was.
pub open spec fn first_sensed(
    top: Option<i32>,
    bottom: Option<i32>,
    left: Option<i32>,
    right: Option<i32>,
) -> Option<DragResponse> {
    if let Some(delta) = top {
        Some(DragResponse { edge: Edge::Top, delta })
    } else if let Some(delta) = bottom {
        Some(DragResponse { edge: Edge::Bottom, delta })
    } else if let Some(delta) = left {
        Some(DragResponse { edge: Edge::Left, delta })
    } else if let Some(delta) = right {
        Some(DragResponse { edge: Edge::Right, delta })
    } else {
        None
    }
}

impl DragResponse {
    /// Picks the drag to respond to from what was sensed on the four sides of
    /// a frame.
    pub fn first_of(
        top: Option<i32>,
        bottom: Option<i32>,
        left: Option<i32>,
        right: Option<i32>,
    ) -> (response: Option<DragResponse>)
        ensures
            response == first_sensed(top, bottom, left, right),
    {
        if let Some(delta) = top {
            Some(DragResponse { edge: Edge::Top, delta })
        } else if let Some(delta) = bottom {
            Some(DragResponse { edge: Edge::Bottom, delta })
        } else if let Some(delta) = left {
            Some(DragResponse { edge: Edge::Left, delta })
        } else if let Some(delta) = right {
            Some(DragResponse { edge: Edge::Right, delta })
        } else {
            None
        }
    }
}

/// Sides and directions correspond one to one: converting a side to its
/// direction and back gives the side again.
pub proof fn lemma_edge_round_trip(edge: Edge)
    ensures
        edge.direction().edge() == edge,
{
}

/// Sides and directions correspond one to one: converting a direction to its
/// side and back gives the direction again.
pub proof fn lemma_direction_round_trip(direction: Direction)
    ensures
        direction.edge().direction() == direction,
{
}

} // verus!
