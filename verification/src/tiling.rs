//! Tilings: layouts whose frames cover the canvas without gap or overlap, and
//! why dragging keeps them so.
//!
//! The canvas is seen as a grid of unit cells. A layout tiles the canvas when
//! every cell of the canvas lies in exactly one frame and no frame holds a
//! cell outside of it.

use vstd::prelude::*;
use crate::drag::{
    drag_target, dragged, is_border, lemma_drag_keeps_minimum_size, lemma_drag_keeps_well_formed,
    lemma_moved_frame_stays_sound, moved,
};
use crate::expansion::{expansion, is_closed, lemma_expansion_exists};
use crate::geometry::{Axis, Rect, EPSILON, MIN_SIZE, UNIT};
use crate::interval::{touching_edge, Interval};
use crate::layout::{roomy, well_formed, Frame};
use crate::limits::{high_limit, low_limit};

verus! {

/// The unit cell whose lower corner is `(x, y)` lies in the canvas.
pub open spec fn in_canvas(x: int, y: int) -> bool {
    0 <= x < UNIT && 0 <= y < UNIT
}

/// The frames cover the canvas without gap or overlap: every cell of the
/// canvas lies in a frame, no cell lies in two frames, and no frame holds a
/// cell outside the canvas.
#[verifier::opaque]
pub open spec fn tiles_canvas(frames: Seq<Frame>) -> bool {
    &&& forall|x: int, y: int| #[trigger]
        in_canvas(x, y) ==> exists|i: int|
            0 <= i < frames.len() && #[trigger] frames[i].rect.holds_cell(x, y)
    &&& forall|i: int, j: int, x: int, y: int|
        0 <= i < frames.len() && 0 <= j < frames.len() && #[trigger] frames[i].rect.holds_cell(x, y)
            && #[trigger] frames[j].rect.holds_cell(x, y) ==> i == j
    &&& forall|i: int, x: int, y: int|
        0 <= i < frames.len() && #[trigger] frames[i].rect.holds_cell(x, y) ==> in_canvas(x, y)
}

/// The cell that lies at `along` on `axis` and at `across` on the other axis
/// lies in `rect`.
pub open spec fn holds_at(rect: Rect, axis: Axis, along: int, across: int) -> bool {
    match axis {
        Axis::Horizontal => rect.holds_cell(along, across),
        Axis::Vertical => rect.holds_cell(across, along),
    }
}

/// A frame of a tiling that holds the given cell of the canvas.
pub proof fn lemma_owner(frames: Seq<Frame>, axis: Axis, along: int, across: int) -> (i: int)
    requires
        tiles_canvas(frames),
        0 <= along < UNIT,
        0 <= across < UNIT,
    ensures
        0 <= i < frames.len(),
        holds_at(frames[i].rect, axis, along, across),
{
    reveal(tiles_canvas);
    match axis {
        Axis::Horizontal => {
            assert(in_canvas(along, across));
            choose|i: int| 0 <= i < frames.len() && #[trigger] frames[i].rect.holds_cell(along, across)
        },
        Axis::Vertical => {
            assert(in_canvas(across, along));
            choose|i: int| 0 <= i < frames.len() && #[trigger] frames[i].rect.holds_cell(across, along)
        },
    }
}

/// Two frames of a tiling that hold the same cell are the same frame.
pub proof fn lemma_one_owner(frames: Seq<Frame>, axis: Axis, i: int, j: int, along: int, across: int)
    requires
        tiles_canvas(frames),
        0 <= i < frames.len(),
        0 <= j < frames.len(),
        holds_at(frames[i].rect, axis, along, across),
        holds_at(frames[j].rect, axis, along, across),
    ensures
        i == j,
{
    reveal(tiles_canvas);
}

/// The two rectangles share more than a line: some cell lies in both.
pub open spec fn overlap(a: Rect, b: Rect) -> bool {
    &&& a.min.x < b.max.x && b.min.x < a.max.x
    &&& a.min.y < b.max.y && b.min.y < a.max.y
    &&& a.min.x < a.max.x && a.min.y < a.max.y
    &&& b.min.x < b.max.x && b.min.y < b.max.y
}

/// No two frames of a tiling overlap.
pub proof fn lemma_tiling_has_no_overlap(frames: Seq<Frame>, i: int, j: int)
    requires
        tiles_canvas(frames),
        0 <= i < frames.len(),
        0 <= j < frames.len(),
        i != j,
    ensures
        !overlap(frames[i].rect, frames[j].rect),
{
    let a = frames[i].rect;
    let b = frames[j].rect;
    if overlap(a, b) {
        let x = if a.min.x >= b.min.x {
            a.min.x as int
        } else {
            b.min.x as int
        };
        let y = if a.min.y >= b.min.y {
            a.min.y as int
        } else {
            b.min.y as int
        };
        lemma_one_owner(frames, Axis::Horizontal, i, j, x, y);
    }
}

/// `rect` reaches along the segment `span` at the place `along`.
pub open spec fn reaches(rect: Rect, span: Interval, along: int) -> bool {
    rect.start_along(span.axis) <= along < rect.end_along(span.axis)
}

/// The side of `rect` that comes first across the axis of `span` lies less
/// than [`EPSILON`] from it.
pub open spec fn starts_on(rect: Rect, span: Interval) -> bool {
    -EPSILON < rect.start_along(span.axis.spec_other()) - span.perpendicular_pos < EPSILON
}

/// The side of `rect` that comes last across the axis of `span` lies less
/// than [`EPSILON`] from it.
pub open spec fn ends_on(rect: Rect, span: Interval) -> bool {
    -EPSILON < rect.end_along(span.axis.spec_other()) - span.perpendicular_pos < EPSILON
}

/// What moving a boundary does to a frame, told along and across the axis of
/// the boundary: the extent along the boundary stays, and the side that lies
/// on the boundary, the first one if both do, goes to `pos`.
pub proof fn lemma_moved_along(frame: Frame, span: Interval, pos: int)
    requires
        i32::MIN <= pos <= i32::MAX,
    ensures
        ({
            let axis = span.axis;
            let other = span.axis.spec_other();
            let rect = frame.rect;
            let after = moved(frame, span, pos).rect;
            let beside = span.axis_from < rect.end_along(axis) && span.axis_to > rect.start_along(
                axis,
            );
            &&& after.start_along(axis) == rect.start_along(axis)
            &&& after.end_along(axis) == rect.end_along(axis)
            &&& touching_edge(rect, span).is_some() <==> beside && (starts_on(rect, span)
                || ends_on(rect, span))
            &&& beside && starts_on(rect, span) ==> after.start_along(other) == pos
                && after.end_along(other) == rect.end_along(other)
            &&& beside && !starts_on(rect, span) && ends_on(rect, span) ==> after.end_along(other)
                == pos && after.start_along(other) == rect.start_along(other)
            &&& touching_edge(rect, span).is_none() ==> after == rect
        }),
{
}

/// A cell beside which no frame moves keeps its frame: where a frame holds
/// the cell after the move exactly if it held it before, the frame that held
/// it is the one that holds it.
proof fn lemma_cell_keeps_owner(
    frames: Seq<Frame>,
    span: Interval,
    pos: int,
    along: int,
    across: int,
) -> (owner: int)
    requires
        tiles_canvas(frames),
        0 <= along < UNIT,
        0 <= across < UNIT,
        forall|i: int|
            0 <= i < frames.len() ==> (holds_at(
                (#[trigger] moved(frames[i], span, pos)).rect,
                span.axis,
                along,
                across,
            ) <==> holds_at(frames[i].rect, span.axis, along, across)),
    ensures
        0 <= owner < frames.len(),
        forall|i: int|
            0 <= i < frames.len() ==> (holds_at(
                (#[trigger] moved(frames[i], span, pos)).rect,
                span.axis,
                along,
                across,
            ) <==> i == owner),
{
    let owner = lemma_owner(frames, span.axis, along, across);
    assert forall|i: int| 0 <= i < frames.len() implies (holds_at(
        (#[trigger] moved(frames[i], span, pos)).rect,
        span.axis,
        along,
        across,
    ) <==> i == owner) by {
        if holds_at(frames[i].rect, span.axis, along, across) {
            lemma_one_owner(frames, span.axis, i, owner, along, across);
        }
    }
    owner
}

/// Past the ends of a boundary out of which nothing sticks, no frame changes
/// where it reaches.
proof fn lemma_cell_past_the_ends(
    frames: Seq<Frame>,
    span: Interval,
    pos: int,
    along: int,
    across: int,
    i: int,
)
    requires
        is_closed(frames, span),
        i32::MIN <= pos <= i32::MAX,
        !(span.axis_from <= along < span.axis_to),
        0 <= i < frames.len(),
    ensures
        holds_at(moved(frames[i], span, pos).rect, span.axis, along, across) <==> holds_at(
            frames[i].rect,
            span.axis,
            along,
            across,
        ),
{
    lemma_moved_along(frames[i], span, pos);
}

/// Where one frame of a tiling reaches across the whole width of a boundary,
/// no other frame that reaches the same place has a side on the boundary.
proof fn lemma_cell_under_one_frame(
    frames: Seq<Frame>,
    span: Interval,
    pos: int,
    along: int,
    across: int,
    cover: int,
    i: int,
)
    requires
        tiles_canvas(frames),
        well_formed(frames),
        i32::MIN <= pos <= i32::MAX,
        0 <= cover < frames.len(),
        holds_at(frames[cover].rect, span.axis, along, span.perpendicular_pos - EPSILON),
        holds_at(frames[cover].rect, span.axis, along, span.perpendicular_pos + EPSILON - 1),
        0 <= i < frames.len(),
    ensures
        holds_at(moved(frames[i], span, pos).rect, span.axis, along, across) <==> holds_at(
            frames[i].rect,
            span.axis,
            along,
            across,
        ),
{
    let rect = frames[i].rect;
    let other = span.axis.spec_other();
    assert(rect.is_roomy());
    lemma_moved_along(frames[i], span, pos);
    if reaches(rect, span, along) {
        if starts_on(rect, span) {
            lemma_one_owner(frames, span.axis, i, cover, along, rect.start_along(other));
        }
        if ends_on(rect, span) {
            lemma_one_owner(frames, span.axis, i, cover, along, rect.end_along(other) - 1);
        }
    }
}

/// Where two frames of a tiling meet on a boundary, no third frame that
/// reaches the same place has a side on the boundary, nor does it hold a cell
/// between the far sides of the two.
proof fn lemma_cell_beside_a_seam(
    frames: Seq<Frame>,
    span: Interval,
    pos: int,
    along: int,
    across: int,
    below: int,
    above: int,
    i: int,
)
    requires
        tiles_canvas(frames),
        well_formed(frames),
        i32::MIN <= pos <= i32::MAX,
        0 <= below < frames.len(),
        0 <= above < frames.len(),
        reaches(frames[below].rect, span, along),
        reaches(frames[above].rect, span, along),
        frames[below].rect.end_along(span.axis.spec_other()) == frames[above].rect.start_along(
            span.axis.spec_other(),
        ),
        ends_on(frames[below].rect, span),
        0 <= i < frames.len(),
        i != below,
        i != above,
    ensures
        holds_at(moved(frames[i], span, pos).rect, span.axis, along, across) <==> holds_at(
            frames[i].rect,
            span.axis,
            along,
            across,
        ),
        holds_at(frames[i].rect, span.axis, along, across) ==> !(frames[below].rect.start_along(
            span.axis.spec_other(),
        ) <= across < frames[above].rect.end_along(span.axis.spec_other())),
{
    let axis = span.axis;
    let other = span.axis.spec_other();
    let rect = frames[i].rect;
    let low_rect = frames[below].rect;
    let high_rect = frames[above].rect;
    let seam = low_rect.end_along(other);
    assert(rect.is_roomy());
    assert(low_rect.is_roomy());
    assert(high_rect.is_roomy());
    lemma_moved_along(frames[i], span, pos);
    if reaches(rect, span, along) {
        if starts_on(rect, span) {
            let side = rect.start_along(other);
            if side < seam {
                lemma_one_owner(frames, axis, i, below, along, side);
            } else {
                lemma_one_owner(frames, axis, i, above, along, side);
            }
        }
        if ends_on(rect, span) {
            let side = rect.end_along(other) - 1;
            if side < seam {
                lemma_one_owner(frames, axis, i, below, along, side);
            } else {
                lemma_one_owner(frames, axis, i, above, along, side);
            }
        }
    }
    if holds_at(rect, axis, along, across) {
        if low_rect.start_along(other) <= across < seam {
            lemma_one_owner(frames, axis, i, below, along, across);
        } else if seam <= across < high_rect.end_along(other) {
            lemma_one_owner(frames, axis, i, above, along, across);
        }
    }
}

/// Where two frames of a tiling meet on a boundary that moves within its
/// clamp range, the two share between them, after the move, the cells that
/// they held before.
proof fn lemma_seam_moves(
    frames: Seq<Frame>,
    span: Interval,
    pos: int,
    along: int,
    below: int,
    above: int,
)
    requires
        well_formed(frames),
        is_closed(frames, span),
        !is_border(span.perpendicular_pos as int),
        low_limit(frames, span) <= pos <= high_limit(frames, span),
        span.axis_from <= along < span.axis_to,
        0 <= below < frames.len(),
        0 <= above < frames.len(),
        reaches(frames[below].rect, span, along),
        reaches(frames[above].rect, span, along),
        frames[below].rect.end_along(span.axis.spec_other()) == frames[above].rect.start_along(
            span.axis.spec_other(),
        ),
        ends_on(frames[below].rect, span),
    ensures
        ({
            let axis = span.axis;
            let other = span.axis.spec_other();
            let low = moved(frames[below], span, pos).rect;
            let high = moved(frames[above], span, pos).rect;
            &&& reaches(low, span, along)
            &&& reaches(high, span, along)
            &&& low.start_along(other) == frames[below].rect.start_along(other)
            &&& low.end_along(other) == pos
            &&& high.start_along(other) == pos
            &&& high.end_along(other) == frames[above].rect.end_along(other)
            &&& low.start_along(other) < pos < high.end_along(other)
        }),
{
    assert(frames[below].rect.is_roomy());
    assert(frames[above].rect.is_roomy());
    lemma_moved_frame_stays_sound(frames, span, pos, below);
    lemma_moved_frame_stays_sound(frames, span, pos, above);
    lemma_moved_along(frames[below], span, pos);
    lemma_moved_along(frames[above], span, pos);
}

/// After a boundary of a tiling has moved within its clamp range, every cell
/// of the canvas lies in exactly one frame: the frame `owner`.
proof fn lemma_cell_after_move(
    frames: Seq<Frame>,
    span: Interval,
    pos: int,
    along: int,
    across: int,
) -> (owner: int)
    requires
        tiles_canvas(frames),
        well_formed(frames),
        is_closed(frames, span),
        !is_border(span.perpendicular_pos as int),
        low_limit(frames, span) <= pos <= high_limit(frames, span),
        0 <= along < UNIT,
        0 <= across < UNIT,
    ensures
        0 <= owner < frames.len(),
        forall|i: int|
            0 <= i < frames.len() ==> (holds_at(
                (#[trigger] moved(frames[i], span, pos)).rect,
                span.axis,
                along,
                across,
            ) <==> i == owner),
{
    let axis = span.axis;
    let other = span.axis.spec_other();
    let p = span.perpendicular_pos as int;
    let old_owner = lemma_owner(frames, axis, along, across);
    lemma_moved_frame_stays_sound(frames, span, pos, old_owner);
    if !(span.axis_from <= along < span.axis_to) {
        assert forall|i: int| 0 <= i < frames.len() implies (holds_at(
            (#[trigger] moved(frames[i], span, pos)).rect,
            axis,
            along,
            across,
        ) <==> holds_at(frames[i].rect, axis, along, across)) by {
            lemma_cell_past_the_ends(frames, span, pos, along, across, i);
        }
        lemma_cell_keeps_owner(frames, span, pos, along, across)
    } else {
        let below = lemma_owner(frames, axis, along, p - EPSILON);
        let above = lemma_owner(frames, axis, along, p + EPSILON - 1);
        if below == above {
            assert forall|i: int| 0 <= i < frames.len() implies (holds_at(
                (#[trigger] moved(frames[i], span, pos)).rect,
                axis,
                along,
                across,
            ) <==> holds_at(frames[i].rect, axis, along, across)) by {
                lemma_cell_under_one_frame(frames, span, pos, along, across, below, i);
            }
            lemma_cell_keeps_owner(frames, span, pos, along, across)
        } else {
            let low_rect = frames[below].rect;
            let seam = low_rect.end_along(other);
            assert(seam <= p + EPSILON - 1) by {
                if seam > p + EPSILON - 1 {
                    lemma_one_owner(frames, axis, below, above, along, p + EPSILON - 1);
                }
            }
            let next = lemma_owner(frames, axis, along, seam);
            let high_rect = frames[next].rect;
            assert(high_rect.start_along(other) == seam) by {
                if high_rect.start_along(other) < seam {
                    lemma_one_owner(frames, axis, next, below, along, seam - 1);
                }
            }
            lemma_seam_moves(frames, span, pos, along, below, next);
            let owner = if low_rect.start_along(other) <= across < pos {
                below
            } else if pos <= across < high_rect.end_along(other) {
                next
            } else {
                old_owner
            };
            if low_rect.start_along(other) <= across < seam {
                lemma_one_owner(frames, axis, old_owner, below, along, across);
            } else if seam <= across < high_rect.end_along(other) {
                lemma_one_owner(frames, axis, old_owner, next, along, across);
            }
            assert forall|i: int| 0 <= i < frames.len() implies (holds_at(
                (#[trigger] moved(frames[i], span, pos)).rect,
                axis,
                along,
                across,
            ) <==> i == owner) by {
                if i != below && i != next {
                    lemma_cell_beside_a_seam(frames, span, pos, along, across, below, next, i);
                    if holds_at(frames[i].rect, axis, along, across) {
                        lemma_one_owner(frames, axis, i, old_owner, along, across);
                    }
                }
            }
            owner
        }
    }
}

/// The frames of a tiling lie within the canvas: a tiling of frames that are
/// [`MIN_SIZE`] wide and tall is well formed.
pub proof fn lemma_tiling_is_well_formed(frames: Seq<Frame>)
    requires
        tiles_canvas(frames),
        roomy(frames),
    ensures
        well_formed(frames),
{
    reveal(tiles_canvas);
    assert forall|i: int| 0 <= i < frames.len() implies (#[trigger] frames[i]).rect.fits_canvas()
        && frames[i].rect.is_roomy() by {
        let rect = frames[i].rect;
        assert(rect.is_roomy());
        assert(rect.holds_cell(rect.min.x as int, rect.min.y as int));
        assert(rect.holds_cell(rect.max.x - 1, rect.max.y - 1));
    }
}

/// Dragging keeps a tiling: where the frames cover the canvas without gap or
/// overlap, and each is at least [`MIN_SIZE`] wide and tall, they still cover
/// it without gap or overlap after any drag.
pub proof fn lemma_drag_keeps_tiling(frames: Seq<Frame>, origin: Interval, delta: int)
    requires
        tiles_canvas(frames),
        roomy(frames),
    ensures
        tiles_canvas(dragged(frames, origin, delta)),
{
    lemma_tiling_is_well_formed(frames);
    let after = dragged(frames, origin, delta);
    lemma_expansion_exists(frames, origin);
    lemma_drag_keeps_well_formed(frames, origin, delta);
    if let Some(pos) = drag_target(frames, origin, delta) {
        let span = expansion(frames, origin);
        reveal(tiles_canvas);
        assert forall|x: int, y: int| #[trigger] in_canvas(x, y) implies exists|i: int|
            0 <= i < after.len() && #[trigger] after[i].rect.holds_cell(x, y) by {
            let owner = match span.axis {
                Axis::Horizontal => lemma_cell_after_move(frames, span, pos, x, y),
                Axis::Vertical => lemma_cell_after_move(frames, span, pos, y, x),
            };
            assert(after[owner] == moved(frames[owner], span, pos));
            assert(after[owner].rect.holds_cell(x, y));
        }
        assert forall|i: int, j: int, x: int, y: int|
            0 <= i < after.len() && 0 <= j < after.len() && #[trigger] after[i].rect.holds_cell(
                x,
                y,
            ) && #[trigger] after[j].rect.holds_cell(x, y) implies i == j by {
            assert(after[i].rect.fits_canvas());
            let owner = match span.axis {
                Axis::Horizontal => lemma_cell_after_move(frames, span, pos, x, y),
                Axis::Vertical => lemma_cell_after_move(frames, span, pos, y, x),
            };
            assert(after[i] == moved(frames[i], span, pos));
            assert(after[j] == moved(frames[j], span, pos));
        }
        assert forall|i: int, x: int, y: int|
            0 <= i < after.len() && #[trigger] after[i].rect.holds_cell(x, y) implies in_canvas(
            x,
            y,
        ) by {
            assert(after[i].rect.fits_canvas());
        }
    }
}

/// The frames after the drags `drags`, one after the other, each given by
/// its boundary and its distance.
pub open spec fn dragged_all(frames: Seq<Frame>, drags: Seq<(Interval, int)>) -> Seq<Frame>
    decreases drags.len(),
{
    if drags.len() == 0 {
        frames
    } else {
        dragged(dragged_all(frames, drags.drop_last()), drags.last().0, drags.last().1)
    }
}

/// Whatever drags follow each other, frames that were at least [`MIN_SIZE`]
/// wide and tall stay so.
pub proof fn lemma_drags_keep_minimum_size(frames: Seq<Frame>, drags: Seq<(Interval, int)>)
    requires
        roomy(frames),
    ensures
        roomy(dragged_all(frames, drags)),
    decreases drags.len(),
{
    if drags.len() > 0 {
        lemma_drags_keep_minimum_size(frames, drags.drop_last());
        lemma_drag_keeps_minimum_size(
            dragged_all(frames, drags.drop_last()),
            drags.last().0,
            drags.last().1,
        );
    }
}

/// Whatever drags follow each other, a layout that was well formed stays so:
/// every frame remains within the canvas and at least [`MIN_SIZE`] wide and
/// tall.
pub proof fn lemma_drags_keep_well_formed(frames: Seq<Frame>, drags: Seq<(Interval, int)>)
    requires
        well_formed(frames),
    ensures
        well_formed(dragged_all(frames, drags)),
    decreases drags.len(),
{
    if drags.len() > 0 {
        lemma_drags_keep_well_formed(frames, drags.drop_last());
        lemma_drag_keeps_well_formed(
            dragged_all(frames, drags.drop_last()),
            drags.last().0,
            drags.last().1,
        );
    }
}

/// Whatever drags follow each other, frames that tiled the canvas, each at
/// least [`MIN_SIZE`] wide and tall, still tile it.
pub proof fn lemma_drags_keep_tiling(frames: Seq<Frame>, drags: Seq<(Interval, int)>)
    requires
        tiles_canvas(frames),
        roomy(frames),
    ensures
        tiles_canvas(dragged_all(frames, drags)),
        roomy(dragged_all(frames, drags)),
    decreases drags.len(),
{
    if drags.len() > 0 {
        lemma_drags_keep_tiling(frames, drags.drop_last());
        lemma_drag_keeps_minimum_size(
            dragged_all(frames, drags.drop_last()),
            drags.last().0,
            drags.last().1,
        );
        lemma_drag_keeps_tiling(
            dragged_all(frames, drags.drop_last()),
            drags.last().0,
            drags.last().1,
        );
    }
}

} // verus!
