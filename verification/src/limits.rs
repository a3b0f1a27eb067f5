//! The clamp range of a drag: how far the boundary may move before a frame
//! beside it becomes too small or the boundary leaves the canvas.
//!
//! A frame limits the drag when its extent along the dragged segment overlaps
//! the segment by at least [`EPSILON`] at both ends. Its two sides across the
//! segment are then compared with the boundary strictly: a side that lies
//! exactly on the boundary limits nothing by itself.

use vstd::prelude::*;
use crate::geometry::{range_along_axis, Rect, EPSILON, MIN_SIZE, UNIT};
use crate::interval::Interval;
use crate::layout::Frame;

verus! {

/// The larger of two numbers.
pub open spec fn larger(a: int, b: int) -> int {
    if a >= b {
        a
    } else {
        b
    }
}

/// The smaller of two numbers.
pub open spec fn smaller(a: int, b: int) -> int {
    if a <= b {
        a
    } else {
        b
    }
}

/// `rect` lies beside `span`: its extent along the segment reaches at least
/// [`EPSILON`] past the segment's start and starts at least [`EPSILON`]
/// before the segment's end.
pub open spec fn lies_beside(rect: Rect, span: Interval) -> bool {
    &&& span.axis_from <= rect.end_along(span.axis) - EPSILON
    &&& span.axis_to >= rect.start_along(span.axis) + EPSILON
}

/// The lower limit `low` after `rect` has been taken into account. A frame
/// that starts before the boundary must keep [`MIN_SIZE`]; one that also ends
/// before it must not be entered.
pub open spec fn raised(low: int, rect: Rect, span: Interval) -> int {
    let near = rect.start_along(span.axis.spec_other());
    let far = rect.end_along(span.axis.spec_other());
    let pos = span.perpendicular_pos as int;
    if !lies_beside(rect, span) {
        low
    } else {
        let kept = if near < pos {
            larger(low, near + MIN_SIZE)
        } else {
            low
        };
        if far < pos {
            larger(kept, far)
        } else {
            kept
        }
    }
}

/// The upper limit `high` after `rect` has been taken into account. A frame
/// that ends after the boundary must keep [`MIN_SIZE`]; one that also starts
/// after it must not be entered.
pub open spec fn lowered(high: int, rect: Rect, span: Interval) -> int {
    let near = rect.start_along(span.axis.spec_other());
    let far = rect.end_along(span.axis.spec_other());
    let pos = span.perpendicular_pos as int;
    if !lies_beside(rect, span) {
        high
    } else {
        let kept = if near > pos {
            smaller(high, near)
        } else {
            high
        };
        if far > pos {
            smaller(kept, far - MIN_SIZE)
        } else {
            kept
        }
    }
}

/// The lowest position the boundary `span` may take: [`MIN_SIZE`] from the
/// canvas border, raised by every frame beside the segment.
pub open spec fn low_limit(frames: Seq<Frame>, span: Interval) -> int
    decreases frames.len(),
{
    if frames.len() == 0 {
        MIN_SIZE as int
    } else {
        raised(low_limit(frames.drop_last(), span), frames.last().rect, span)
    }
}

/// The highest position the boundary `span` may take: [`MIN_SIZE`] from the
/// far canvas border, lowered by every frame beside the segment.
pub open spec fn high_limit(frames: Seq<Frame>, span: Interval) -> int
    decreases frames.len(),
{
    if frames.len() == 0 {
        UNIT - MIN_SIZE
    } else {
        lowered(high_limit(frames.drop_last(), span), frames.last().rect, span)
    }
}

/// The lower limit is the largest of the single limits: it is at least
/// [`MIN_SIZE`], at least what each frame alone asks for, and one of these
/// values.
pub proof fn lemma_low_limit_is_largest(frames: Seq<Frame>, span: Interval)
    ensures
        low_limit(frames, span) >= MIN_SIZE,
        forall|i: int|
            0 <= i < frames.len() ==> low_limit(frames, span) >= #[trigger] raised(
                MIN_SIZE as int,
                frames[i].rect,
                span,
            ),
        low_limit(frames, span) == MIN_SIZE || exists|i: int|
            0 <= i < frames.len() && low_limit(frames, span) == #[trigger] raised(
                MIN_SIZE as int,
                frames[i].rect,
                span,
            ),
    decreases frames.len(),
{
    if frames.len() > 0 {
        let rest = frames.drop_last();
        lemma_low_limit_is_largest(rest, span);
        let low = low_limit(frames, span);
        assert forall|i: int| 0 <= i < frames.len() implies low >= #[trigger] raised(
            MIN_SIZE as int,
            frames[i].rect,
            span,
        ) by {
            if i < rest.len() {
                assert(rest[i] == frames[i]);
            }
        }
        if low == raised(MIN_SIZE as int, frames.last().rect, span) {
            assert(frames[frames.len() - 1] == frames.last());
        } else if low != MIN_SIZE {
            let i = choose|i: int|
                0 <= i < rest.len() && low_limit(rest, span) == #[trigger] raised(
                    MIN_SIZE as int,
                    rest[i].rect,
                    span,
                );
            assert(rest[i] == frames[i]);
        }
    }
}

/// The upper limit is the smallest of the single limits: it is at most
/// [`MIN_SIZE`] short of the canvas border, at most what each frame alone
/// asks for, and one of these values.
pub proof fn lemma_high_limit_is_smallest(frames: Seq<Frame>, span: Interval)
    ensures
        high_limit(frames, span) <= UNIT - MIN_SIZE,
        forall|i: int|
            0 <= i < frames.len() ==> high_limit(frames, span) <= #[trigger] lowered(
                UNIT - MIN_SIZE,
                frames[i].rect,
                span,
            ),
        high_limit(frames, span) == UNIT - MIN_SIZE || exists|i: int|
            0 <= i < frames.len() && high_limit(frames, span) == #[trigger] lowered(
                UNIT - MIN_SIZE,
                frames[i].rect,
                span,
            ),
    decreases frames.len(),
{
    if frames.len() > 0 {
        let rest = frames.drop_last();
        lemma_high_limit_is_smallest(rest, span);
        let high = high_limit(frames, span);
        assert forall|i: int| 0 <= i < frames.len() implies high <= #[trigger] lowered(
            UNIT - MIN_SIZE,
            frames[i].rect,
            span,
        ) by {
            if i < rest.len() {
                assert(rest[i] == frames[i]);
            }
        }
        if high == lowered(UNIT - MIN_SIZE, frames.last().rect, span) {
            assert(frames[frames.len() - 1] == frames.last());
        } else if high != UNIT - MIN_SIZE {
            let i = choose|i: int|
                0 <= i < rest.len() && high_limit(rest, span) == #[trigger] lowered(
                    UNIT - MIN_SIZE,
                    rest[i].rect,
                    span,
                );
            assert(rest[i] == frames[i]);
        }
    }
}

/// Computes the range of positions that the boundary `span` may take, as its
/// lowest and its highest position. The range is empty when the first is
/// larger than the second.
pub fn clamp_range(frames: &Vec<Frame>, span: &Interval) -> (limits: (i64, i64))
    ensures
        limits.0 == low_limit(frames@, *span),
        limits.1 == high_limit(frames@, *span),
{
    let pos: i64 = span.perpendicular_pos as i64;
    let mut limit_low: i64 = MIN_SIZE as i64;
    let mut limit_hi: i64 = UNIT as i64 - MIN_SIZE as i64;
    let mut i: usize = 0;
    while i < frames.len()
        invariant
            i <= frames.len(),
            pos == span.perpendicular_pos,
            limit_low == low_limit(frames@.take(i as int), *span),
            limit_hi == high_limit(frames@.take(i as int), *span),
            MIN_SIZE <= limit_low <= i32::MAX + MIN_SIZE,
            i32::MIN - MIN_SIZE <= limit_hi <= UNIT - MIN_SIZE,
        decreases frames.len() - i,
    {
        proof {
            assert(frames@.take(i as int + 1).drop_last() =~= frames@.take(i as int));
            assert(frames@.take(i as int + 1).last() == frames@[i as int]);
        }
        let (frame_from, frame_to) = range_along_axis(&frames[i].rect, span.axis);
        let intersects = span.axis_from as i64 <= frame_to as i64 - EPSILON as i64
            && span.axis_to as i64 >= frame_from as i64 + EPSILON as i64;
        if intersects {
            let (frame_from, frame_to) = range_along_axis(&frames[i].rect, span.axis.other());
            if (frame_from as i64) < pos && limit_low < frame_from as i64 + MIN_SIZE as i64 {
                limit_low = frame_from as i64 + MIN_SIZE as i64;
            }
            if (frame_to as i64) < pos && limit_low < frame_to as i64 {
                limit_low = frame_to as i64;
            }
            if frame_from as i64 > pos && limit_hi > frame_from as i64 {
                limit_hi = frame_from as i64;
            }
            if frame_to as i64 > pos && limit_hi > frame_to as i64 - MIN_SIZE as i64 {
                limit_hi = frame_to as i64 - MIN_SIZE as i64;
            }
        }
        i += 1;
    }
    proof {
        assert(frames@.take(frames.len() as int) =~= frames@);
    }
    (limit_low, limit_hi)
}

} // verus!
