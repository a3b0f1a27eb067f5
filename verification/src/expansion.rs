//! Boundary expansion: growing a dragged segment until it covers the side of
//! every frame that lies on it.

use vstd::prelude::*;
use crate::geometry::Rect;
use crate::interval::{
    edge_of, get_interval, intersects_interval, lemma_touching_edge_runs_along,
    lemma_touching_is_monotone, touching_edge, Interval,
};
use crate::layout::Frame;

verus! {

/// No frame that touches `span` sticks out of it: the side of every frame that
/// intersects `span` lies within it.
pub open spec fn is_closed(frames: Seq<Frame>, span: Interval) -> bool {
    forall|i: int|
        0 <= i < frames.len() && (#[trigger] touching_edge(frames[i].rect, span)).is_some() ==> {
            &&& span.axis_from <= frames[i].rect.start_along(span.axis)
            &&& frames[i].rect.end_along(span.axis) <= span.axis_to
        }
}

/// `span` is the smallest segment that covers `origin` and out of which no
/// touching frame sticks.
pub open spec fn is_expansion(frames: Seq<Frame>, origin: Interval, span: Interval) -> bool {
    &&& span.covers(origin)
    &&& is_closed(frames, span)
    &&& forall|other: Interval|
        other.covers(origin) && #[trigger] is_closed(frames, other) ==> other.covers(span)
}

/// The segment that a drag of `origin` moves: `origin` grown until it holds
/// the whole side of every frame that touches it, directly or through other
/// frames.
pub open spec fn expansion(frames: Seq<Frame>, origin: Interval) -> Interval {
    choose|span: Interval| is_expansion(frames, origin, span)
}

/// `so_far` stretched to hold the side of `rect` that touches `span`, if one
/// does.
pub open spec fn stretched(so_far: Interval, rect: Rect, span: Interval) -> Interval {
    match touching_edge(rect, span) {
        Some(edge) => {
            let side = edge_of(rect, edge);
            Interval {
                axis_from: if side.axis_from < so_far.axis_from {
                    side.axis_from
                } else {
                    so_far.axis_from
                },
                axis_to: if side.axis_to > so_far.axis_to {
                    side.axis_to
                } else {
                    so_far.axis_to
                },
                ..so_far
            }
        },
        None => so_far,
    }
}

/// What one scan over the frames makes of `span`: the segment stretched to
/// hold the side of every frame that touches `span` as it was before the
/// scan.
pub open spec fn widened(frames: Seq<Frame>, span: Interval) -> Interval
    decreases frames.len(),
{
    if frames.len() == 0 {
        span
    } else {
        stretched(widened(frames.drop_last(), span), frames.last().rect, span)
    }
}

/// `wider` reaches exactly as far as `span` and the sides that touch `span`
/// reach: it holds them all, and each of its ends is an end of `span` or of
/// such a side.
pub open spec fn is_widening(frames: Seq<Frame>, span: Interval, wider: Interval) -> bool {
    &&& wider.covers(span)
    &&& forall|i: int|
        0 <= i < frames.len() && (#[trigger] touching_edge(frames[i].rect, span)).is_some() ==> {
            &&& wider.axis_from <= frames[i].rect.start_along(span.axis)
            &&& frames[i].rect.end_along(span.axis) <= wider.axis_to
        }
    &&& wider.axis_from == span.axis_from || exists|i: int|
        0 <= i < frames.len() && (#[trigger] touching_edge(frames[i].rect, span)).is_some()
            && wider.axis_from == frames[i].rect.start_along(span.axis)
    &&& wider.axis_to == span.axis_to || exists|i: int|
        0 <= i < frames.len() && (#[trigger] touching_edge(frames[i].rect, span)).is_some()
            && wider.axis_to == frames[i].rect.end_along(span.axis)
}

/// One scan reaches exactly as far as the segment and the sides that touch
/// it.
pub proof fn lemma_widened_is_widening(frames: Seq<Frame>, span: Interval)
    ensures
        is_widening(frames, span, widened(frames, span)),
    decreases frames.len(),
{
    if frames.len() > 0 {
        let rest = frames.drop_last();
        let last = frames.len() - 1;
        let so_far = widened(rest, span);
        let wider = widened(frames, span);
        lemma_widened_is_widening(rest, span);
        assert(frames[last] == frames.last());
        if touching_edge(frames[last].rect, span).is_some() {
            lemma_touching_edge_runs_along(frames[last].rect, span);
        }
        assert forall|i: int|
            0 <= i < frames.len() && (#[trigger] touching_edge(
                frames[i].rect,
                span,
            )).is_some() implies {
            &&& wider.axis_from <= frames[i].rect.start_along(span.axis)
            &&& frames[i].rect.end_along(span.axis) <= wider.axis_to
        } by {
            if i < last {
                assert(rest[i] == frames[i]);
            }
        }
        if wider.axis_from != span.axis_from {
            if wider.axis_from == so_far.axis_from {
                let i = choose|i: int|
                    0 <= i < rest.len() && (#[trigger] touching_edge(rest[i].rect, span)).is_some()
                        && so_far.axis_from == rest[i].rect.start_along(span.axis);
                assert(rest[i] == frames[i]);
                assert(touching_edge(frames[i].rect, span).is_some());
            } else {
                assert(touching_edge(frames[last].rect, span).is_some());
            }
        }
        if wider.axis_to != span.axis_to {
            if wider.axis_to == so_far.axis_to {
                let i = choose|i: int|
                    0 <= i < rest.len() && (#[trigger] touching_edge(rest[i].rect, span)).is_some()
                        && so_far.axis_to == rest[i].rect.end_along(span.axis);
                assert(rest[i] == frames[i]);
                assert(touching_edge(frames[i].rect, span).is_some());
            } else {
                assert(touching_edge(frames[last].rect, span).is_some());
            }
        }
    }
}

/// A scan never leaves a segment out of which no touching frame sticks: what
/// it makes of a part of such a segment is still a part of it.
pub proof fn lemma_widened_stays_inside(frames: Seq<Frame>, span: Interval, other: Interval)
    requires
        other.covers(span),
        is_closed(frames, other),
    ensures
        other.covers(widened(frames, span)),
{
    let wider = widened(frames, span);
    lemma_widened_is_widening(frames, span);
    if wider.axis_from != span.axis_from {
        let i = choose|i: int|
            0 <= i < frames.len() && (#[trigger] touching_edge(frames[i].rect, span)).is_some()
                && wider.axis_from == frames[i].rect.start_along(span.axis);
        lemma_touching_is_monotone(frames[i].rect, span, other);
        assert(touching_edge(frames[i].rect, other).is_some());
    }
    if wider.axis_to != span.axis_to {
        let i = choose|i: int|
            0 <= i < frames.len() && (#[trigger] touching_edge(frames[i].rect, span)).is_some()
                && wider.axis_to == frames[i].rect.end_along(span.axis);
        lemma_touching_is_monotone(frames[i].rect, span, other);
        assert(touching_edge(frames[i].rect, other).is_some());
    }
}

/// A segment that a scan leaves as it is has no touching frame sticking out.
pub proof fn lemma_unwidened_is_closed(frames: Seq<Frame>, span: Interval)
    requires
        widened(frames, span) == span,
    ensures
        is_closed(frames, span),
{
    lemma_widened_is_widening(frames, span);
}

/// What `scans` scans, one after the other, make of `origin`.
pub open spec fn scanned(frames: Seq<Frame>, origin: Interval, scans: nat) -> Interval
    decreases scans,
{
    if scans == 0 {
        origin
    } else {
        widened(frames, scanned(frames, origin, (scans - 1) as nat))
    }
}

/// How many of the frames touch `span`.
pub open spec fn touch_count(frames: Seq<Frame>, span: Interval) -> nat
    decreases frames.len(),
{
    if frames.len() == 0 {
        0
    } else if touching_edge(frames.last().rect, span).is_some() {
        touch_count(frames.drop_last(), span) + 1
    } else {
        touch_count(frames.drop_last(), span)
    }
}

/// No more frames touch a segment than there are, and at least one does
/// where the frame at `i` does.
proof fn lemma_touch_count_bounds(frames: Seq<Frame>, span: Interval, i: int)
    ensures
        touch_count(frames, span) <= frames.len(),
        0 <= i < frames.len() && touching_edge(frames[i].rect, span).is_some() ==> touch_count(
            frames,
            span,
        ) >= 1,
    decreases frames.len(),
{
    if frames.len() > 0 {
        lemma_touch_count_bounds(frames.drop_last(), span, i);
        if 0 <= i < frames.len() - 1 {
            assert(frames.drop_last()[i] == frames[i]);
        }
    }
}

/// A segment is touched by at least the frames that touch a part of it, and
/// by more of them where the frame at `i` touches the whole but not the part.
proof fn lemma_touch_count_grows(frames: Seq<Frame>, inner: Interval, outer: Interval, i: int)
    requires
        outer.covers(inner),
    ensures
        touch_count(frames, inner) <= touch_count(frames, outer),
        0 <= i < frames.len() && touching_edge(frames[i].rect, outer).is_some() && touching_edge(
            frames[i].rect,
            inner,
        ).is_none() ==> touch_count(frames, inner) < touch_count(frames, outer),
    decreases frames.len(),
{
    if frames.len() > 0 {
        lemma_touch_count_grows(frames.drop_last(), inner, outer, i);
        if touching_edge(frames.last().rect, inner).is_some() {
            lemma_touching_is_monotone(frames.last().rect, inner, outer);
        }
        if 0 <= i < frames.len() - 1 {
            assert(frames.drop_last()[i] == frames[i]);
        }
    }
}

/// A scan that widens the segment found a frame that sticks out of it.
proof fn lemma_widening_has_a_cause(frames: Seq<Frame>, span: Interval) -> (i: int)
    requires
        widened(frames, span) != span,
    ensures
        0 <= i < frames.len(),
        touching_edge(frames[i].rect, span).is_some(),
        frames[i].rect.start_along(span.axis) < span.axis_from || span.axis_to
            < frames[i].rect.end_along(span.axis),
{
    let wider = widened(frames, span);
    lemma_widened_is_widening(frames, span);
    if wider.axis_from != span.axis_from {
        choose|i: int|
            0 <= i < frames.len() && (#[trigger] touching_edge(frames[i].rect, span)).is_some()
                && wider.axis_from == frames[i].rect.start_along(span.axis)
    } else {
        choose|i: int|
            0 <= i < frames.len() && (#[trigger] touching_edge(frames[i].rect, span)).is_some()
                && wider.axis_to == frames[i].rect.end_along(span.axis)
    }
}

/// Every scan that still widens the segment has one more frame touching it
/// than the scan before: after `scans` scans, the next one widens only where
/// more than `scans` frames touch.
proof fn lemma_scans_gain_frames(frames: Seq<Frame>, origin: Interval, scans: nat)
    requires
        scanned(frames, origin, scans + 1) != scanned(frames, origin, scans),
    ensures
        touch_count(frames, scanned(frames, origin, scans)) > scans,
    decreases scans,
{
    let span = scanned(frames, origin, scans);
    let i = lemma_widening_has_a_cause(frames, span);
    if scans == 0 {
        lemma_touch_count_bounds(frames, span, i);
    } else {
        let before = scanned(frames, origin, (scans - 1) as nat);
        lemma_widened_is_widening(frames, before);
        lemma_scans_gain_frames(frames, origin, (scans - 1) as nat);
        lemma_touch_count_grows(frames, before, span, i);
    }
}

/// Scans only widen: what they make of a segment covers it.
proof fn lemma_scanned_covers_origin(frames: Seq<Frame>, origin: Interval, scans: nat)
    ensures
        scanned(frames, origin, scans).covers(origin),
    decreases scans,
{
    if scans > 0 {
        lemma_scanned_covers_origin(frames, origin, (scans - 1) as nat);
        lemma_widened_is_widening(frames, scanned(frames, origin, (scans - 1) as nat));
    }
}

/// No scan leaves a segment out of which no touching frame sticks.
proof fn lemma_scanned_stays_inside(
    frames: Seq<Frame>,
    origin: Interval,
    scans: nat,
    other: Interval,
)
    requires
        other.covers(origin),
        is_closed(frames, other),
    ensures
        other.covers(scanned(frames, origin, scans)),
    decreases scans,
{
    if scans > 0 {
        let before = scanned(frames, origin, (scans - 1) as nat);
        lemma_scanned_stays_inside(frames, origin, (scans - 1) as nat, other);
        lemma_widened_stays_inside(frames, before, other);
    }
}

/// Once a scan changes nothing, what the scans made of `origin` is an
/// expansion of it.
proof fn lemma_scans_end_in_expansion(frames: Seq<Frame>, origin: Interval, scans: nat)
    requires
        scanned(frames, origin, scans + 1) == scanned(frames, origin, scans),
    ensures
        is_expansion(frames, origin, scanned(frames, origin, scans)),
{
    let span = scanned(frames, origin, scans);
    lemma_unwidened_is_closed(frames, span);
    lemma_scanned_covers_origin(frames, origin, scans);
    assert forall|other: Interval|
        other.covers(origin) && #[trigger] is_closed(frames, other) implies other.covers(span) by {
        lemma_scanned_stays_inside(frames, origin, scans, other);
    }
}

/// Every segment has an expansion, whatever the frames are.
pub proof fn lemma_expansion_exists(frames: Seq<Frame>, origin: Interval)
    ensures
        is_expansion(frames, origin, expansion(frames, origin)),
{
    let last = scanned(frames, origin, frames.len());
    if scanned(frames, origin, frames.len() + 1) != last {
        lemma_scans_gain_frames(frames, origin, frames.len());
        lemma_touch_count_bounds(frames, last, 0);
    }
    lemma_scans_end_in_expansion(frames, origin, frames.len());
}

/// The scans that widen a segment are fewer than the frames: once a scan
/// changes nothing, what the scans made of `origin` is its expansion, and
/// that is so after as many scans as there are frames at the latest.
pub proof fn lemma_scans_arrive(frames: Seq<Frame>, origin: Interval, scans: nat)
    ensures
        scanned(frames, origin, scans + 1) != scanned(frames, origin, scans) ==> scans
            < frames.len(),
        scanned(frames, origin, scans + 1) == scanned(frames, origin, scans) ==> scanned(
            frames,
            origin,
            scans,
        ) == expansion(frames, origin),
        scanned(frames, origin, frames.len()) == expansion(frames, origin),
{
    let span = scanned(frames, origin, scans);
    let last = scanned(frames, origin, frames.len());
    lemma_expansion_exists(frames, origin);
    if scanned(frames, origin, scans + 1) != span {
        lemma_scans_gain_frames(frames, origin, scans);
        lemma_touch_count_bounds(frames, span, 0);
    } else {
        lemma_scans_end_in_expansion(frames, origin, scans);
        lemma_expansion_is_unique(frames, origin, span, expansion(frames, origin));
    }
    if scanned(frames, origin, frames.len() + 1) != last {
        lemma_scans_gain_frames(frames, origin, frames.len());
        lemma_touch_count_bounds(frames, last, 0);
    }
    lemma_scans_end_in_expansion(frames, origin, frames.len());
    lemma_expansion_is_unique(frames, origin, last, expansion(frames, origin));
}

/// A drag has at most one expansion.
pub proof fn lemma_expansion_is_unique(
    frames: Seq<Frame>,
    origin: Interval,
    first: Interval,
    second: Interval,
)
    requires
        is_expansion(frames, origin, first),
        is_expansion(frames, origin, second),
    ensures
        first == second,
{
    assert(second.covers(first));
    assert(first.covers(second));
}

/// Scans the frames once and widens `span` by the side of every frame that
/// touches it.
pub fn widen_once(frames: &Vec<Frame>, span: Interval) -> (wider: Interval)
    ensures
        wider == widened(frames@, span),
        is_widening(frames@, span, wider),
{
    let mut min_axis_pos: i32 = span.axis_from;
    let mut max_axis_pos: i32 = span.axis_to;
    let mut i: usize = 0;
    while i < frames.len()
        invariant
            i <= frames.len(),
            widened(frames@.take(i as int), span) == (Interval {
                axis_from: min_axis_pos,
                axis_to: max_axis_pos,
                ..span
            }),
        decreases frames.len() - i,
    {
        proof {
            assert(frames@.take(i as int + 1).drop_last() =~= frames@.take(i as int));
            assert(frames@.take(i as int + 1).last() == frames@[i as int]);
        }
        if let Some(edge) = intersects_interval(&frames[i].rect, &span) {
            let interval = get_interval(&frames[i].rect, edge);
            if interval.axis_from < min_axis_pos {
                min_axis_pos = interval.axis_from;
            }
            if interval.axis_to > max_axis_pos {
                max_axis_pos = interval.axis_to;
            }
        }
        i += 1;
    }
    proof {
        assert(frames@.take(frames.len() as int) =~= frames@);
        lemma_widened_is_widening(frames@, span);
    }
    Interval {
        axis: span.axis,
        axis_from: min_axis_pos,
        axis_to: max_axis_pos,
        perpendicular_pos: span.perpendicular_pos,
    }
}

/// Grows `origin` to its expansion, scanning the frames until a scan widens
/// the segment no further. Every scan but the last reaches a frame that the
/// scans before had not reached, so there are no more scans than frames, and
/// one more.
pub fn expand_interval(frames: &Vec<Frame>, origin: Interval) -> (span: Interval)
    ensures
        is_expansion(frames@, origin, span),
        span == expansion(frames@, origin),
{
    let mut drag_interval = origin;
    let ghost scans: nat = 0;
    loop
        invariant
            scans <= frames.len(),
            drag_interval == scanned(frames@, origin, scans),
        ensures
            drag_interval == expansion(frames@, origin),
        decreases frames.len() - scans,
    {
        let wider = widen_once(frames, drag_interval);
        let stop = wider.axis_from == drag_interval.axis_from && wider.axis_to
            == drag_interval.axis_to;
        proof {
            lemma_scans_arrive(frames@, origin, scans);
        }
        if stop {
            assert(wider == drag_interval);
            break ;
        }
        drag_interval = wider;
        proof {
            scans = scans + 1;
        }
    }
    proof {
        lemma_expansion_exists(frames@, origin);
    }
    drag_interval
}

} // verus!
