//! Seams: the lines along which the frames of a tiling meet, and why a drag
//! by nothing leaves a tiling as it is.

use vstd::prelude::*;
use crate::drag::{drag_target, dragged, is_border, moved};
use crate::expansion::{expansion, is_closed, lemma_expansion_exists};
use crate::frame::Edge;
use crate::geometry::{Axis, Rect, EPSILON, MIN_SIZE, UNIT};
use crate::interval::{edge_of, lemma_touching_is_monotone, touching_edge, Interval};
use crate::layout::{roomy, well_formed, Frame};
use crate::limits::{
    high_limit, lemma_high_limit_is_smallest, lemma_low_limit_is_largest, lies_beside, low_limit,
    lowered, raised,
};
use crate::tiling::{
    ends_on, lemma_moved_along, lemma_one_owner, lemma_owner, lemma_tiling_is_well_formed, reaches,
    starts_on, tiles_canvas,
};

verus! {

/// One of the two sides of `rect` across the axis of `span` lies exactly on
/// the line of `span`.
pub open spec fn on_seam(rect: Rect, span: Interval) -> bool {
    ||| rect.start_along(span.axis.spec_other()) == span.perpendicular_pos
    ||| rect.end_along(span.axis.spec_other()) == span.perpendicular_pos
}

/// At the place `along`, a frame has a side exactly on the line of `span`.
pub open spec fn has_seam(frames: Seq<Frame>, span: Interval, along: int) -> bool {
    exists|i: int|
        0 <= i < frames.len() && reaches(#[trigger] frames[i].rect, span, along) && on_seam(
            frames[i].rect,
            span,
        )
}

/// In a tiling of frames that are [`MIN_SIZE`] wide, two sides that cross the
/// same place less than twice [`EPSILON`] apart are not apart at all.
proof fn lemma_no_gap_between_sides(
    frames: Seq<Frame>,
    axis: Axis,
    along: int,
    i: int,
    first: int,
    j: int,
    second: int,
)
    requires
        tiles_canvas(frames),
        well_formed(frames),
        0 <= i < frames.len(),
        0 <= j < frames.len(),
        frames[i].rect.start_along(axis) <= along < frames[i].rect.end_along(axis),
        frames[j].rect.start_along(axis) <= along < frames[j].rect.end_along(axis),
        first == frames[i].rect.start_along(axis.spec_other()) || first
            == frames[i].rect.end_along(axis.spec_other()),
        second == frames[j].rect.start_along(axis.spec_other()) || second
            == frames[j].rect.end_along(axis.spec_other()),
        0 < first <= second < UNIT,
        second - first < 2 * EPSILON,
    ensures
        first == second,
{
    let other = axis.spec_other();
    let a = frames[i].rect;
    let b = frames[j].rect;
    assert(a.fits_canvas() && a.is_roomy());
    assert(b.fits_canvas() && b.is_roomy());
    if first == second {
    } else if first == a.end_along(other) {
        if second == b.end_along(other) {
            lemma_one_owner(frames, axis, i, j, along, first - 1);
        } else {
            let between = lemma_owner(frames, axis, along, first);
            let c = frames[between].rect;
            assert(c.fits_canvas() && c.is_roomy());
            if c.start_along(other) < first {
                lemma_one_owner(frames, axis, between, i, along, first - 1);
            }
            lemma_one_owner(frames, axis, between, j, along, second);
        }
    } else {
        if second == b.end_along(other) {
            lemma_one_owner(frames, axis, i, j, along, first);
        } else {
            lemma_one_owner(frames, axis, i, j, along, second);
        }
    }
}

/// In a tiling of frames that are [`MIN_SIZE`] wide, a side that lies less
/// than [`EPSILON`] from a seam lies exactly on it.
proof fn lemma_close_side_is_on_seam(
    frames: Seq<Frame>,
    span: Interval,
    along: int,
    i: int,
    j: int,
)
    requires
        tiles_canvas(frames),
        well_formed(frames),
        !is_border(span.perpendicular_pos as int),
        0 <= i < frames.len(),
        0 <= j < frames.len(),
        reaches(frames[i].rect, span, along),
        reaches(frames[j].rect, span, along),
        on_seam(frames[j].rect, span),
    ensures
        starts_on(frames[i].rect, span) ==> frames[i].rect.start_along(span.axis.spec_other())
            == span.perpendicular_pos,
        ends_on(frames[i].rect, span) ==> frames[i].rect.end_along(span.axis.spec_other())
            == span.perpendicular_pos,
{
    let other = span.axis.spec_other();
    let p = span.perpendicular_pos as int;
    let rect = frames[i].rect;
    if starts_on(rect, span) {
        let side = rect.start_along(other);
        if side < p {
            lemma_no_gap_between_sides(frames, span.axis, along, i, side, j, p);
        } else if side > p {
            lemma_no_gap_between_sides(frames, span.axis, along, j, p, i, side);
        }
    }
    if ends_on(rect, span) {
        let side = rect.end_along(other);
        if side < p {
            lemma_no_gap_between_sides(frames, span.axis, along, i, side, j, p);
        } else if side > p {
            lemma_no_gap_between_sides(frames, span.axis, along, j, p, i, side);
        }
    }
}

/// Where a seam of a tiling crosses a place, one frame ends on it there and
/// another starts on it.
proof fn lemma_seam_has_two_sides(frames: Seq<Frame>, span: Interval, along: int) -> (pair: (
    int,
    int,
))
    requires
        tiles_canvas(frames),
        well_formed(frames),
        !is_border(span.perpendicular_pos as int),
        has_seam(frames, span, along),
    ensures
        0 <= pair.0 < frames.len(),
        0 <= pair.1 < frames.len(),
        reaches(frames[pair.0].rect, span, along),
        reaches(frames[pair.1].rect, span, along),
        frames[pair.0].rect.end_along(span.axis.spec_other()) == span.perpendicular_pos,
        frames[pair.1].rect.start_along(span.axis.spec_other()) == span.perpendicular_pos,
{
    let other = span.axis.spec_other();
    let p = span.perpendicular_pos as int;
    let i = choose|i: int|
        0 <= i < frames.len() && reaches(#[trigger] frames[i].rect, span, along) && on_seam(
            frames[i].rect,
            span,
        );
    let rect = frames[i].rect;
    assert(rect.fits_canvas() && rect.is_roomy());
    if rect.end_along(other) == p {
        let j = lemma_owner(frames, span.axis, along, p);
        if frames[j].rect.start_along(other) < p {
            lemma_one_owner(frames, span.axis, i, j, along, p - 1);
        }
        (i, j)
    } else {
        let j = lemma_owner(frames, span.axis, along, p - 1);
        if frames[j].rect.end_along(other) > p {
            lemma_one_owner(frames, span.axis, i, j, along, p);
        }
        (j, i)
    }
}

/// The expansion of a frame's side is a seam from the side's start to the end
/// of the expansion.
proof fn lemma_seam_above(frames: Seq<Frame>, origin: Interval, index: int, along: int)
    requires
        tiles_canvas(frames),
        well_formed(frames),
        !is_border(origin.perpendicular_pos as int),
        0 <= index < frames.len(),
        on_seam(frames[index].rect, origin),
        origin.axis_from == frames[index].rect.start_along(origin.axis),
        origin.axis_to == frames[index].rect.end_along(origin.axis),
        origin.axis_from <= along < expansion(frames, origin).axis_to,
    ensures
        has_seam(frames, expansion(frames, origin), along),
    decreases along - origin.axis_from,
{
    lemma_expansion_exists(frames, origin);
    let span = expansion(frames, origin);
    assert(frames[index].rect.is_roomy());
    if along < origin.axis_to {
        assert(reaches(frames[index].rect, span, along));
    } else {
        lemma_seam_above(frames, origin, index, along - 1);
        let below = choose|i: int|
            0 <= i < frames.len() && reaches(#[trigger] frames[i].rect, span, along - 1)
                && on_seam(frames[i].rect, span);
        let cut = Interval { axis_to: along as i32, ..span };
        assert(cut.covers(origin));
        assert(!cut.covers(span));
        assert(!is_closed(frames, cut));
        let i = choose|i: int|
            0 <= i < frames.len() && (#[trigger] touching_edge(frames[i].rect, cut)).is_some() && !{
                &&& cut.axis_from <= frames[i].rect.start_along(cut.axis)
                &&& frames[i].rect.end_along(cut.axis) <= cut.axis_to
            };
        lemma_touching_is_monotone(frames[i].rect, cut, span);
        assert(touching_edge(frames[i].rect, span).is_some());
        lemma_moved_along(frames[i], cut, 0);
        assert(reaches(frames[i].rect, span, along - 1));
        lemma_close_side_is_on_seam(frames, span, along - 1, i, below);
        assert(reaches(frames[i].rect, span, along));
    }
}

/// The expansion of a frame's side is a seam from the start of the expansion
/// to the side's end.
proof fn lemma_seam_below(frames: Seq<Frame>, origin: Interval, index: int, along: int)
    requires
        tiles_canvas(frames),
        well_formed(frames),
        !is_border(origin.perpendicular_pos as int),
        0 <= index < frames.len(),
        on_seam(frames[index].rect, origin),
        origin.axis_from == frames[index].rect.start_along(origin.axis),
        origin.axis_to == frames[index].rect.end_along(origin.axis),
        expansion(frames, origin).axis_from <= along < origin.axis_to,
    ensures
        has_seam(frames, expansion(frames, origin), along),
    decreases origin.axis_to - along,
{
    lemma_expansion_exists(frames, origin);
    let span = expansion(frames, origin);
    assert(frames[index].rect.is_roomy());
    if along >= origin.axis_from {
        assert(reaches(frames[index].rect, span, along));
    } else {
        lemma_seam_below(frames, origin, index, along + 1);
        let above = choose|i: int|
            0 <= i < frames.len() && reaches(#[trigger] frames[i].rect, span, along + 1)
                && on_seam(frames[i].rect, span);
        let cut = Interval { axis_from: (along + 1) as i32, ..span };
        assert(cut.covers(origin));
        assert(!cut.covers(span));
        assert(!is_closed(frames, cut));
        let i = choose|i: int|
            0 <= i < frames.len() && (#[trigger] touching_edge(frames[i].rect, cut)).is_some() && !{
                &&& cut.axis_from <= frames[i].rect.start_along(cut.axis)
                &&& frames[i].rect.end_along(cut.axis) <= cut.axis_to
            };
        lemma_touching_is_monotone(frames[i].rect, cut, span);
        assert(touching_edge(frames[i].rect, span).is_some());
        lemma_moved_along(frames[i], cut, 0);
        assert(reaches(frames[i].rect, span, along + 1));
        lemma_close_side_is_on_seam(frames, span, along + 1, i, above);
        assert(reaches(frames[i].rect, span, along));
    }
}

/// The expansion of a frame's side is a seam over its whole length.
pub proof fn lemma_expansion_is_seam(frames: Seq<Frame>, index: int, edge: Edge, along: int)
    requires
        tiles_canvas(frames),
        well_formed(frames),
        0 <= index < frames.len(),
        !is_border(edge_of(frames[index].rect, edge).perpendicular_pos as int),
        expansion(frames, edge_of(frames[index].rect, edge)).axis_from <= along < expansion(
            frames,
            edge_of(frames[index].rect, edge),
        ).axis_to,
    ensures
        has_seam(frames, expansion(frames, edge_of(frames[index].rect, edge)), along),
{
    let origin = edge_of(frames[index].rect, edge);
    if along >= origin.axis_from {
        lemma_seam_above(frames, origin, index, along);
    } else {
        lemma_seam_below(frames, origin, index, along);
    }
}

/// A seam of a tiling lies within the clamp range of its own drag: no frame
/// beside it asks the boundary to be anywhere else.
proof fn lemma_seam_within_limits(frames: Seq<Frame>, index: int, edge: Edge)
    requires
        tiles_canvas(frames),
        well_formed(frames),
        0 <= index < frames.len(),
        !is_border(edge_of(frames[index].rect, edge).perpendicular_pos as int),
    ensures
        low_limit(frames, expansion(frames, edge_of(frames[index].rect, edge))) <= edge_of(
            frames[index].rect,
            edge,
        ).perpendicular_pos <= high_limit(
            frames,
            expansion(frames, edge_of(frames[index].rect, edge)),
        ),
{
    let origin = edge_of(frames[index].rect, edge);
    lemma_expansion_exists(frames, origin);
    let span = expansion(frames, origin);
    let axis = span.axis;
    let other = span.axis.spec_other();
    let p = span.perpendicular_pos as int;
    assert(frames[index].rect.is_roomy() && frames[index].rect.fits_canvas());
    lemma_low_limit_is_largest(frames, span);
    lemma_high_limit_is_smallest(frames, span);
    lemma_expansion_is_seam(frames, index, edge, origin.axis_from as int);
    let ends = lemma_seam_has_two_sides(frames, span, origin.axis_from as int);
    assert(frames[ends.0].rect.is_roomy() && frames[ends.0].rect.fits_canvas());
    assert(frames[ends.1].rect.is_roomy() && frames[ends.1].rect.fits_canvas());
    assert forall|i: int| 0 <= i < frames.len() implies #[trigger] raised(
        MIN_SIZE as int,
        frames[i].rect,
        span,
    ) <= p by {
        let rect = frames[i].rect;
        assert(rect.is_roomy() && rect.fits_canvas());
        if lies_beside(rect, span) {
            let along = if span.axis_from >= rect.start_along(axis) {
                span.axis_from as int
            } else {
                rect.start_along(axis)
            };
            lemma_expansion_is_seam(frames, index, edge, along);
            let pair = lemma_seam_has_two_sides(frames, span, along);
            let low = frames[pair.0].rect;
            assert(low.is_roomy() && low.fits_canvas());
            if rect.start_along(other) < p {
                if rect.start_along(other) >= low.start_along(other) {
                    lemma_one_owner(frames, axis, i, pair.0, along, rect.start_along(other));
                } else if rect.end_along(other) > low.start_along(other) {
                    lemma_one_owner(frames, axis, i, pair.0, along, low.start_along(other));
                }
            }
        }
    }
    assert forall|i: int| 0 <= i < frames.len() implies #[trigger] lowered(
        UNIT - MIN_SIZE,
        frames[i].rect,
        span,
    ) >= p by {
        let rect = frames[i].rect;
        assert(rect.is_roomy() && rect.fits_canvas());
        if lies_beside(rect, span) {
            let along = if span.axis_from >= rect.start_along(axis) {
                span.axis_from as int
            } else {
                rect.start_along(axis)
            };
            lemma_expansion_is_seam(frames, index, edge, along);
            let pair = lemma_seam_has_two_sides(frames, span, along);
            let high = frames[pair.1].rect;
            assert(high.is_roomy() && high.fits_canvas());
            if rect.end_along(other) > p {
                if rect.end_along(other) <= high.end_along(other) {
                    lemma_one_owner(frames, axis, i, pair.1, along, rect.end_along(other) - 1);
                } else if rect.start_along(other) < high.end_along(other) {
                    lemma_one_owner(frames, axis, i, pair.1, along, high.end_along(other) - 1);
                }
            }
        }
    }
}

/// A drag by nothing changes nothing: where the frames tile the canvas, each
/// at least [`MIN_SIZE`] wide and tall, dragging a side of one of them by
/// zero leaves every frame as it is.
pub proof fn lemma_drag_by_nothing(frames: Seq<Frame>, index: int, edge: Edge)
    requires
        tiles_canvas(frames),
        roomy(frames),
        0 <= index < frames.len(),
    ensures
        dragged(frames, edge_of(frames[index].rect, edge), 0) == frames,
{
    lemma_tiling_is_well_formed(frames);
    let origin = edge_of(frames[index].rect, edge);
    let p = origin.perpendicular_pos as int;
    if !is_border(p) {
        lemma_expansion_exists(frames, origin);
        let span = expansion(frames, origin);
        lemma_seam_within_limits(frames, index, edge);
        assert(drag_target(frames, origin, 0) == Some(p));
        assert(frames[index].rect.is_roomy());
        assert forall|i: int| 0 <= i < frames.len() implies moved(#[trigger] frames[i], span, p)
            == frames[i] by {
            let rect = frames[i].rect;
            assert(rect.is_roomy());
            lemma_moved_along(frames[i], span, p);
            if touching_edge(rect, span).is_some() {
                let along = if span.axis_from >= rect.start_along(span.axis) {
                    span.axis_from as int
                } else {
                    rect.start_along(span.axis)
                };
                lemma_expansion_is_seam(frames, index, edge, along);
                let on = choose|j: int|
                    0 <= j < frames.len() && reaches(#[trigger] frames[j].rect, span, along)
                        && on_seam(frames[j].rect, span);
                lemma_close_side_is_on_seam(frames, span, along, i, on);
            }
        }
        assert(dragged(frames, origin, 0) =~= frames);
    }
}

} // verus!
