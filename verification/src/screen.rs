//! Between the canvas and the screen: where a frame lies in a viewport, and
//! how far a drag sensed on the screen reaches on the canvas.
//!
//! Screen coordinates are whole numbers in a unit of the caller's choice.

use vstd::prelude::*;
use crate::drag::dragged;
use crate::frame::{DragResponse, Edge};
use crate::geometry::{Point, Rect, UNIT};
use crate::expansion::expansion;
use crate::interval::{edge_of, get_interval, Interval};
use crate::limits::{lemma_high_limit_is_smallest, lemma_low_limit_is_largest};
use crate::layout::{roomy, Frame, Layout};
use crate::tiling::tiles_canvas;

verus! {

/// The point a share `t` of the way from `from` to `to`, where `t` counts
/// ticks of [`UNIT`]. The way gone is rounded towards `from`.
pub open spec fn spec_lerp(from: int, to: int, t: int) -> int {
    if (to - from) * t >= 0 {
        from + ((to - from) * t) / (UNIT as int)
    } else {
        from - ((from - to) * t) / (UNIT as int)
    }
}

/// The point a share `t` of the way from `from` to `to`, where `t` counts
/// ticks of [`UNIT`].
pub fn lerp(from: i32, to: i32, t: i32) -> (point: i64)
    ensures
        point == spec_lerp(from as int, to as int, t as int),
{
    let way: i64 = to as i64 - from as i64;
    assert(-0x7fff_ffff_8000_0000 <= way * t <= 0x7fff_ffff_8000_0000) by (nonlinear_arith)
        requires
            -0xffff_ffff <= way <= 0xffff_ffff,
            -0x8000_0000 <= t <= 0x8000_0000,
    ;
    let scaled: i64 = way * (t as i64);
    assert((from - to) * t == -((to - from) * t)) by (nonlinear_arith);
    if scaled >= 0 {
        from as i64 + scaled / (UNIT as i64)
    } else {
        from as i64 - (-scaled) / (UNIT as i64)
    }
}

/// One end of the way is its start, the other its end, and every point on
/// the way lies between the two.
pub proof fn lemma_lerp_stays_on_the_way(from: int, to: int, t: int)
    requires
        0 <= t <= UNIT,
    ensures
        spec_lerp(from, to, 0) == from,
        spec_lerp(from, to, UNIT as int) == to,
        from <= to ==> from <= spec_lerp(from, to, t) <= to,
        to <= from ==> to <= spec_lerp(from, to, t) <= from,
{
    let unit = UNIT as int;
    assert((to - from) * 0 == 0);
    assert(((to - from) * unit) / unit == to - from) by (nonlinear_arith)
        requires
            unit > 0,
    ;
    assert(((from - to) * unit) / unit == from - to) by (nonlinear_arith)
        requires
            unit > 0,
    ;
    if from <= to {
        assert(0 <= ((to - from) * t) / unit <= to - from) by (nonlinear_arith)
            requires
                0 <= t <= unit,
                unit > 0,
                from <= to,
        ;
        assert((to - from) * t >= 0) by (nonlinear_arith)
            requires
                0 <= t,
                from <= to,
        ;
    } else {
        assert(0 <= ((from - to) * t) / unit <= from - to) by (nonlinear_arith)
            requires
                0 <= t <= unit,
                unit > 0,
                to <= from,
        ;
        assert((to - from) * t <= 0) by (nonlinear_arith)
            requires
                0 <= t,
                to <= from,
        ;
        if (to - from) * t == 0 {
            assert((from - to) * t == 0) by (nonlinear_arith)
                requires
                    (to - from) * t == 0,
            ;
        }
    }
}

/// `rect`, a rectangle on the canvas, seen in the viewport `full`: each
/// coordinate lies as far along the viewport as it lies along the canvas.
pub open spec fn on_screen(rect: Rect, full: Rect) -> Rect {
    Rect {
        min: Point {
            x: spec_lerp(full.min.x as int, full.max.x as int, rect.min.x as int) as i32,
            y: spec_lerp(full.min.y as int, full.max.y as int, rect.min.y as int) as i32,
        },
        max: Point {
            x: spec_lerp(full.min.x as int, full.max.x as int, rect.max.x as int) as i32,
            y: spec_lerp(full.min.y as int, full.max.y as int, rect.max.y as int) as i32,
        },
    }
}

/// Every coordinate of `rect` lies between `0` and [`UNIT`].
pub open spec fn is_on_canvas(rect: Rect) -> bool {
    &&& 0 <= rect.min.x <= UNIT
    &&& 0 <= rect.min.y <= UNIT
    &&& 0 <= rect.max.x <= UNIT
    &&& 0 <= rect.max.y <= UNIT
}

/// Converts a rectangle on the canvas to the rectangle it takes up in the
/// viewport `full`.
pub fn relative_to_real_rect(rect: Rect, full: Rect) -> (shown: Rect)
    requires
        is_on_canvas(rect),
    ensures
        shown == on_screen(rect, full),
        shown.min.x == spec_lerp(full.min.x as int, full.max.x as int, rect.min.x as int),
        shown.min.y == spec_lerp(full.min.y as int, full.max.y as int, rect.min.y as int),
        shown.max.x == spec_lerp(full.min.x as int, full.max.x as int, rect.max.x as int),
        shown.max.y == spec_lerp(full.min.y as int, full.max.y as int, rect.max.y as int),
{
    proof {
        lemma_lerp_stays_on_the_way(full.min.x as int, full.max.x as int, rect.min.x as int);
        lemma_lerp_stays_on_the_way(full.min.y as int, full.max.y as int, rect.min.y as int);
        lemma_lerp_stays_on_the_way(full.min.x as int, full.max.x as int, rect.max.x as int);
        lemma_lerp_stays_on_the_way(full.min.y as int, full.max.y as int, rect.max.y as int);
    }
    Rect {
        min: Point {
            x: lerp(full.min.x, full.max.x, rect.min.x) as i32,
            y: lerp(full.min.y, full.max.y, rect.min.y) as i32,
        },
        max: Point {
            x: lerp(full.min.x, full.max.x, rect.max.x) as i32,
            y: lerp(full.min.y, full.max.y, rect.max.y) as i32,
        },
    }
}

/// Converts the rectangle of a frame to the rectangle it takes up in the
/// viewport `full`, or gives `None` where the rectangle is not on the canvas.
pub fn frame_on_screen(rect: Rect, full: Rect) -> (shown: Option<Rect>)
    ensures
        shown == if is_on_canvas(rect) {
            Some(on_screen(rect, full))
        } else {
            None
        },
{
    if 0 <= rect.min.x && rect.min.x <= UNIT && 0 <= rect.min.y && rect.min.y <= UNIT && 0
        <= rect.max.x && rect.max.x <= UNIT && 0 <= rect.max.y && rect.max.y <= UNIT {
        Some(relative_to_real_rect(rect, full))
    } else {
        None
    }
}

/// The canvas as a whole takes up the whole viewport.
pub proof fn lemma_canvas_fills_viewport(full: Rect)
    ensures
        on_screen(
            Rect { min: Point { x: 0, y: 0 }, max: Point { x: UNIT, y: UNIT } },
            full,
        ) == full,
{
    lemma_lerp_stays_on_the_way(full.min.x as int, full.max.x as int, 0);
    lemma_lerp_stays_on_the_way(full.min.y as int, full.max.y as int, 0);
}

/// A frame that lies on the canvas lies within the viewport on the screen,
/// where the viewport's corners are in order.
pub proof fn lemma_frame_stays_in_viewport(rect: Rect, full: Rect)
    requires
        is_on_canvas(rect),
        full.min.x <= full.max.x,
        full.min.y <= full.max.y,
    ensures
        full.min.x <= on_screen(rect, full).min.x <= full.max.x,
        full.min.x <= on_screen(rect, full).max.x <= full.max.x,
        full.min.y <= on_screen(rect, full).min.y <= full.max.y,
        full.min.y <= on_screen(rect, full).max.y <= full.max.y,
{
    lemma_lerp_stays_on_the_way(full.min.x as int, full.max.x as int, rect.min.x as int);
    lemma_lerp_stays_on_the_way(full.min.y as int, full.max.y as int, rect.min.y as int);
    lemma_lerp_stays_on_the_way(full.min.x as int, full.max.x as int, rect.max.x as int);
    lemma_lerp_stays_on_the_way(full.min.y as int, full.max.y as int, rect.max.y as int);
}

/// How far a drag by `delta` on a screen of the given `extent` reaches on the
/// canvas, in ticks, rounded towards zero.
pub open spec fn canvas_delta(delta: int, extent: int) -> int {
    if delta >= 0 {
        (delta * UNIT) / extent
    } else {
        -((-delta * UNIT) / extent)
    }
}

/// Converts a distance on a screen of the given `extent` to a distance on the
/// canvas.
pub fn normalized_delta(delta: i32, extent: i64) -> (reach: i64)
    requires
        extent > 0,
    ensures
        reach == canvas_delta(delta as int, extent as int),
{
    let size: i64 = if delta >= 0 {
        delta as i64
    } else {
        0 - delta as i64
    };
    assert(0 <= size * UNIT <= 0x8000_0000 * UNIT) by (nonlinear_arith)
        requires
            0 <= size <= 0x8000_0000,
    ;
    let forth: i64 = size * UNIT as i64;
    assert(0 <= forth / extent <= forth) by (nonlinear_arith)
        requires
            forth >= 0,
            extent > 0,
    ;
    if delta >= 0 {
        forth / extent
    } else {
        -(forth / extent)
    }
}

/// The extent of the viewport `full` in the direction in which `edge` is
/// dragged: its height for the top and the bottom, its width for the left and
/// the right.
pub open spec fn extent_across(full: Rect, edge: Edge) -> int {
    match edge {
        Edge::Top | Edge::Bottom => full.height(),
        Edge::Left | Edge::Right => full.width(),
    }
}

/// The frames after the drag `response` was sensed on the frame at `index`,
/// shown in the viewport `full`. Nothing changes where there is no such frame
/// or the viewport has no extent.
pub open spec fn responded(
    frames: Seq<Frame>,
    index: int,
    response: DragResponse,
    full: Rect,
) -> Seq<Frame> {
    let extent = extent_across(full, response.edge);
    if 0 <= index < frames.len() && extent > 0 {
        dragged(
            frames,
            edge_of(frames[index].rect, response.edge),
            canvas_delta(response.delta as int, extent),
        )
    } else {
        frames
    }
}

/// A drag further than the canvas is wide does what a drag by the width of
/// the canvas does.
pub proof fn lemma_far_drag(frames: Seq<Frame>, origin: Interval, delta: int)
    ensures
        delta >= UNIT ==> dragged(frames, origin, delta) == dragged(frames, origin, UNIT as int),
        delta <= -UNIT ==> dragged(frames, origin, delta) == dragged(frames, origin, -UNIT),
{
    let span = expansion(frames, origin);
    lemma_low_limit_is_largest(frames, span);
    lemma_high_limit_is_smallest(frames, span);
}

impl Layout {
    /// Applies a drag that was sensed on one side of the frame at `index`,
    /// while the layout was shown in the viewport `full`: the side is dragged
    /// by the share of the canvas that `response.delta` is of the viewport.
    pub fn respond_to_drag(&mut self, index: usize, response: DragResponse, full: &Rect)
        ensures
            final(self).content@ == responded(old(self).content@, index as int, response, *full),
            final(self).id == old(self).id,
            final(self).name == old(self).name,
            roomy(old(self).content@) ==> roomy(final(self).content@),
            old(self).well_formed() ==> final(self).well_formed(),
            roomy(old(self).content@) && tiles_canvas(old(self).content@) ==> tiles_canvas(
                final(self).content@,
            ),
    {
        let extent: i64 = match response.edge {
            Edge::Top | Edge::Bottom => full.max.y as i64 - full.min.y as i64,
            Edge::Left | Edge::Right => full.max.x as i64 - full.min.x as i64,
        };
        if index >= self.content.len() || extent <= 0 {
            return ;
        }
        let reach = normalized_delta(response.delta, extent);
        let drag_delta: i32 = if reach > UNIT as i64 {
            UNIT
        } else if reach < -(UNIT as i64) {
            -UNIT
        } else {
            reach as i32
        };
        let origin = get_interval(&self.content[index].rect, response.edge);
        proof {
            lemma_far_drag(self.content@, origin, reach as int);
        }
        self.drag(origin, drag_delta);
    }
}

} // verus!
