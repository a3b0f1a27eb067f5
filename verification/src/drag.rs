//! Dragging a boundary: every frame with a side on the dragged segment
//! follows it, and the segment stops where a frame would become too small.

use vstd::prelude::*;
use crate::expansion::{expand_interval, expansion, is_closed, lemma_expansion_exists};
use crate::geometry::{EPSILON, MIN_SIZE, UNIT};
use crate::interval::{
    intersects_interval, lemma_touching_edge_runs_along, touching_edge, Interval,
};
use crate::layout::{roomy, well_formed, with_edge, Frame, Layout};
use crate::tiling::{lemma_drag_keeps_tiling, tiles_canvas};
use crate::limits::{
    clamp_range, high_limit, lemma_high_limit_is_smallest, lemma_low_limit_is_largest, lies_beside,
    low_limit, lowered, raised,
};

verus! {

/// The position `pos` lies on the border of the canvas, or less than
/// [`EPSILON`] inside of it, or outside the canvas.
pub open spec fn is_border(pos: int) -> bool {
    pos <= EPSILON || pos >= UNIT - EPSILON
}

/// `value` brought into the range from `low` to `high`.
pub open spec fn clamped(value: int, low: int, high: int) -> int {
    if value < low {
        low
    } else if value > high {
        high
    } else {
        value
    }
}

/// Where a drag of `origin` by `delta` puts the boundary, or `None` where the
/// boundary cannot move: on the canvas border, and where no position leaves
/// every frame beside it [`MIN_SIZE`] wide.
pub open spec fn drag_target(frames: Seq<Frame>, origin: Interval, delta: int) -> Option<int> {
    let span = expansion(frames, origin);
    let low = low_limit(frames, span);
    let high = high_limit(frames, span);
    if is_border(origin.perpendicular_pos as int) || low > high {
        None
    } else {
        Some(clamped(origin.perpendicular_pos + delta, low, high))
    }
}

/// `frame` after the boundary `span` has moved to `pos`: the side that lies
/// on the segment, if there is one, is at `pos`.
pub open spec fn moved(frame: Frame, span: Interval, pos: int) -> Frame {
    match touching_edge(frame.rect, span) {
        Some(edge) => Frame { rect: with_edge(frame.rect, edge, pos as i32), ..frame },
        None => frame,
    }
}

/// The frames after a drag of the boundary `origin` by `delta`.
pub open spec fn dragged(frames: Seq<Frame>, origin: Interval, delta: int) -> Seq<Frame> {
    match drag_target(frames, origin, delta) {
        Some(pos) => Seq::new(
            frames.len(),
            |i: int| moved(frames[i], expansion(frames, origin), pos),
        ),
        None => frames,
    }
}

/// A frame that touches a boundary out of which nothing sticks, and that is
/// [`MIN_SIZE`] wide and tall, keeps that size wherever within the clamp range
/// the boundary goes, and stays within the canvas.
pub proof fn lemma_moved_frame_stays_sound(
    frames: Seq<Frame>,
    span: Interval,
    pos: int,
    i: int,
)
    requires
        well_formed(frames),
        0 <= i < frames.len(),
        is_closed(frames, span),
        !is_border(span.perpendicular_pos as int),
        low_limit(frames, span) <= pos <= high_limit(frames, span),
    ensures
        moved(frames[i], span, pos).rect.fits_canvas(),
        moved(frames[i], span, pos).rect.is_roomy(),
        MIN_SIZE <= pos <= UNIT - MIN_SIZE,
{
    lemma_low_limit_is_largest(frames, span);
    lemma_high_limit_is_smallest(frames, span);
    let rect = frames[i].rect;
    assert(rect.fits_canvas() && rect.is_roomy());
    if touching_edge(rect, span).is_some() {
        lemma_touching_edge_runs_along(rect, span);
        assert(lies_beside(rect, span));
        assert(low_limit(frames, span) >= raised(MIN_SIZE as int, rect, span));
        assert(high_limit(frames, span) <= lowered(UNIT - MIN_SIZE, rect, span));
    }
}

/// Dragging keeps the minimum size: where every frame is at least
/// [`MIN_SIZE`] wide and tall, every frame is so after any drag.
pub proof fn lemma_drag_keeps_minimum_size(frames: Seq<Frame>, origin: Interval, delta: int)
    requires
        roomy(frames),
    ensures
        roomy(dragged(frames, origin, delta)),
{
    lemma_expansion_exists(frames, origin);
    let after = dragged(frames, origin, delta);
    if let Some(pos) = drag_target(frames, origin, delta) {
        let span = expansion(frames, origin);
        lemma_low_limit_is_largest(frames, span);
        lemma_high_limit_is_smallest(frames, span);
        assert forall|i: int| 0 <= i < after.len() implies (#[trigger] after[i]).rect.is_roomy() by {
            let rect = frames[i].rect;
            assert(rect.is_roomy());
            if touching_edge(rect, span).is_some() {
                lemma_touching_edge_runs_along(rect, span);
                assert(lies_beside(rect, span));
                assert(low_limit(frames, span) >= raised(MIN_SIZE as int, rect, span));
                assert(high_limit(frames, span) <= lowered(UNIT - MIN_SIZE, rect, span));
            }
        }
    }
}

/// Dragging keeps a layout well formed: where every frame lies within the
/// canvas and is at least [`MIN_SIZE`] wide and tall, every frame does and
/// is so after any drag.
pub proof fn lemma_drag_keeps_well_formed(frames: Seq<Frame>, origin: Interval, delta: int)
    requires
        well_formed(frames),
    ensures
        well_formed(dragged(frames, origin, delta)),
{
    lemma_expansion_exists(frames, origin);
    let after = dragged(frames, origin, delta);
    if let Some(pos) = drag_target(frames, origin, delta) {
        let span = expansion(frames, origin);
        assert forall|i: int| 0 <= i < after.len() implies (#[trigger] after[i]).rect.fits_canvas()
            && after[i].rect.is_roomy() by {
            lemma_moved_frame_stays_sound(frames, span, pos, i);
        }
    }
}

/// A drag of a segment that no frame touches changes nothing.
pub proof fn lemma_drag_of_untouched(frames: Seq<Frame>, origin: Interval, delta: int)
    requires
        forall|i: int|
            0 <= i < frames.len() ==> (#[trigger] touching_edge(frames[i].rect, origin)).is_none(),
    ensures
        expansion(frames, origin) == origin,
        dragged(frames, origin, delta) == frames,
{
    lemma_expansion_exists(frames, origin);
    assert(is_closed(frames, origin));
    assert(origin.covers(expansion(frames, origin)));
    assert(dragged(frames, origin, delta) =~= frames);
}

/// The canvas border does not move: a drag of a segment that lies on it, or
/// less than [`EPSILON`] inside of it, changes nothing.
pub proof fn lemma_border_does_not_move(frames: Seq<Frame>, origin: Interval, delta: int)
    requires
        is_border(origin.perpendicular_pos as int),
    ensures
        dragged(frames, origin, delta) == frames,
{
}

impl Layout {
    /// Modifies the layout by dragging an interval.
    ///
    /// `drag_interval` is the boundary that was grabbed, and `delta` how far
    /// it is to move across its axis. The boundary is first grown to its
    /// expansion; it then moves as far as the clamp range allows, and every
    /// frame with a side on it follows. Nothing changes where the boundary is
    /// the canvas border or where the clamp range is empty.
    pub fn drag(&mut self, drag_interval: Interval, delta: i32)
        ensures
            final(self).content@ == dragged(old(self).content@, drag_interval, delta as int),
            final(self).id == old(self).id,
            final(self).name == old(self).name,
            roomy(old(self).content@) ==> roomy(final(self).content@),
            old(self).well_formed() ==> final(self).well_formed(),
            roomy(old(self).content@) && tiles_canvas(old(self).content@) ==> tiles_canvas(
                final(self).content@,
            ),
            is_border(drag_interval.perpendicular_pos as int) ==> final(self).content@ == old(
                self,
            ).content@,
    {
        let ghost before = self.content@;
        // Don't drag edges of the screen
        if drag_interval.perpendicular_pos <= EPSILON || drag_interval.perpendicular_pos >= UNIT
            - EPSILON {
            return ;
        }
        let span = expand_interval(&self.content, drag_interval);
        let (limit_low, limit_hi) = clamp_range(&self.content, &span);
        proof {
            lemma_low_limit_is_largest(before, span);
            lemma_high_limit_is_smallest(before, span);
            if roomy(before) {
                lemma_drag_keeps_minimum_size(before, drag_interval, delta as int);
                if tiles_canvas(before) {
                    lemma_drag_keeps_tiling(before, drag_interval, delta as int);
                }
            }
            if well_formed(before) {
                lemma_drag_keeps_well_formed(before, drag_interval, delta as int);
            }
        }
        if limit_low > limit_hi {
            return ;
        }
        let wanted: i64 = span.perpendicular_pos as i64 + delta as i64;
        let target: i64 = if wanted < limit_low {
            limit_low
        } else if wanted > limit_hi {
            limit_hi
        } else {
            wanted
        };
        let value: i32 = target as i32;
        let mut i: usize = 0;
        while i < self.content.len()
            invariant
                i <= self.content.len(),
                self.content@.len() == before.len(),
                self.id == old(self).id,
                self.name == old(self).name,
                forall|j: int| 0 <= j < i ==> self.content@[j] == moved(before[j], span, value as int),
                forall|j: int| i <= j < before.len() ==> self.content@[j] == before[j],
            decreases self.content.len() - i,
        {
            if let Some(edge) = intersects_interval(&self.content[i].rect, &span) {
                self.content[i].modify_size(edge, value);
            }
            i += 1;
        }
        assert(self.content@ =~= dragged(before, drag_interval, delta as int));
    }
}

} // verus!
