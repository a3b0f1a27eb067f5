use graphite::expansion::{expand_interval, widen_once};
use graphite::frame::Edge;
use graphite::geometry::{Axis, Rect, EPSILON, MIN_SIZE, UNIT};
use graphite::interval::{get_interval, Interval};
use graphite::layout::{Frame, Layout};
use graphite::limits::clamp_range;

fn layout_of(rects: &[Rect]) -> Layout {
    let mut content = Vec::new();
    for (index, rect) in rects.iter().enumerate() {
        content.push(Frame::new(index, *rect));
    }
    Layout::new(String::from("test"), content)
}

/// A on the left over the full height, B and C above each other on the right.
fn three_frames() -> Layout {
    layout_of(&[
        Rect::from_x_y_ranges(0, 500_000, 0, 1_000_000),
        Rect::from_x_y_ranges(500_000, 1_000_000, 0, 500_000),
        Rect::from_x_y_ranges(500_000, 1_000_000, 500_000, 1_000_000),
    ])
}

/// As `three_frames`, but the lower right quarter is split into C and D.
fn four_frames() -> Layout {
    layout_of(&[
        Rect::from_x_y_ranges(0, 500_000, 0, 1_000_000),
        Rect::from_x_y_ranges(500_000, 1_000_000, 0, 500_000),
        Rect::from_x_y_ranges(500_000, 600_000, 500_000, 1_000_000),
        Rect::from_x_y_ranges(600_000, 1_000_000, 500_000, 1_000_000),
    ])
}

fn rects(layout: &Layout) -> Vec<Rect> {
    layout.content.iter().map(|frame| frame.rect).collect()
}

fn vertical(from: i32, to: i32, pos: i32) -> Interval {
    Interval { axis: Axis::Vertical, axis_from: from, axis_to: to, perpendicular_pos: pos }
}

fn horizontal(from: i32, to: i32, pos: i32) -> Interval {
    Interval { axis: Axis::Horizontal, axis_from: from, axis_to: to, perpendicular_pos: pos }
}

fn area(rect: &Rect) -> i64 {
    (rect.max.x as i64 - rect.min.x as i64) * (rect.max.y as i64 - rect.min.y as i64)
}

fn overlap(a: &Rect, b: &Rect) -> bool {
    a.min.x < b.max.x && b.min.x < a.max.x && a.min.y < b.max.y && b.min.y < a.max.y
}

fn assert_tiles(layout: &Layout) {
    let all = rects(layout);
    let mut total: i64 = 0;
    for (i, a) in all.iter().enumerate() {
        assert!(0 <= a.min.x && a.min.x <= a.max.x && a.max.x <= UNIT);
        assert!(0 <= a.min.y && a.min.y <= a.max.y && a.max.y <= UNIT);
        total += area(a);
        for b in all.iter().skip(i + 1) {
            assert!(!overlap(a, b));
        }
    }
    assert_eq!(total, UNIT as i64 * UNIT as i64);
}

fn assert_roomy(layout: &Layout) {
    for rect in rects(layout) {
        assert!(rect.max.x - rect.min.x >= MIN_SIZE);
        assert!(rect.max.y - rect.min.y >= MIN_SIZE);
    }
}

#[test]
fn drag_moves_both_neighbours() {
    let mut layout = three_frames();
    layout.drag(vertical(0, 1_000_000, 500_000), 100_000);
    assert_eq!(
        rects(&layout),
        vec![
            Rect::from_x_y_ranges(0, 600_000, 0, 1_000_000),
            Rect::from_x_y_ranges(600_000, 1_000_000, 0, 500_000),
            Rect::from_x_y_ranges(600_000, 1_000_000, 500_000, 1_000_000),
        ]
    );
}

#[test]
fn drag_is_clamped_to_min_size_from_border() {
    let mut layout = three_frames();
    layout.drag(vertical(0, 1_000_000, 500_000), 900_000);
    assert_eq!(UNIT - MIN_SIZE, 950_000);
    assert_eq!(layout.content[0].rect.max.x, 950_000);
    assert_eq!(layout.content[1].rect.min.x, 950_000);
    assert_eq!(layout.content[2].rect.min.x, 950_000);
}

#[test]
fn drag_is_clamped_on_the_low_side() {
    let mut layout = three_frames();
    layout.drag(vertical(0, 1_000_000, 500_000), -900_000);
    assert_eq!(layout.content[0].rect.max.x, 50_000);
    assert_eq!(layout.content[1].rect.min.x, 50_000);
    assert_eq!(layout.content[2].rect.min.x, 50_000);
}

#[test]
fn short_divider_expands_to_the_tall_neighbour() {
    let layout = three_frames();
    let grabbed = get_interval(&layout.content[1].rect, Edge::Left);
    assert_eq!(grabbed, vertical(0, 500_000, 500_000));
    assert_eq!(expand_interval(&layout.content, grabbed), vertical(0, 1_000_000, 500_000));
}

#[test]
fn expansion_comes_before_the_clamp() {
    // B's left side is grabbed. Only through A does the drag reach C, which
    // is narrow: it is C that stops the boundary.
    let mut layout = four_frames();
    let grabbed = get_interval(&layout.content[1].rect, Edge::Left);
    layout.drag(grabbed, 200_000);
    assert_eq!(
        rects(&layout),
        vec![
            Rect::from_x_y_ranges(0, 550_000, 0, 1_000_000),
            Rect::from_x_y_ranges(550_000, 1_000_000, 0, 500_000),
            Rect::from_x_y_ranges(550_000, 600_000, 500_000, 1_000_000),
            Rect::from_x_y_ranges(600_000, 1_000_000, 500_000, 1_000_000),
        ]
    );
}

#[test]
fn one_scan_widens_by_the_touching_sides_only() {
    let layout = four_frames();
    // The upper half of the divider touches A and B; C is reached only by a
    // second scan.
    assert_eq!(
        widen_once(&layout.content, vertical(100_000, 400_000, 500_000)),
        vertical(0, 1_000_000, 500_000)
    );
    // The boundary between B above and C, D below touches B and C at first,
    // and D only once it has grown.
    let first = widen_once(&layout.content, horizontal(500_000, 550_000, 500_000));
    assert_eq!(first, horizontal(500_000, 1_000_000, 500_000));
    assert_eq!(widen_once(&layout.content, first), first);
    assert_eq!(
        expand_interval(&layout.content, horizontal(500_000, 550_000, 500_000)),
        horizontal(500_000, 1_000_000, 500_000)
    );
}

#[test]
fn expansion_goes_through_several_frames() {
    // Sides that overlap like bricks: each scan reaches one frame more.
    let layout = layout_of(&[
        Rect::from_x_y_ranges(0, 300_000, 0, 500_000),
        Rect::from_x_y_ranges(300_000, 1_000_000, 0, 500_000),
        Rect::from_x_y_ranges(0, 200_000, 500_000, 1_000_000),
        Rect::from_x_y_ranges(200_000, 600_000, 500_000, 1_000_000),
        Rect::from_x_y_ranges(600_000, 1_000_000, 500_000, 1_000_000),
    ]);
    let grabbed = get_interval(&layout.content[2].rect, Edge::Top);
    assert_eq!(grabbed, horizontal(0, 200_000, 500_000));
    assert_eq!(
        widen_once(&layout.content, grabbed),
        horizontal(0, 300_000, 500_000)
    );
    assert_eq!(
        expand_interval(&layout.content, grabbed),
        horizontal(0, 1_000_000, 500_000)
    );
}

#[test]
fn expansion_takes_no_more_scans_than_frames() {
    let layout = layout_of(&[
        Rect::from_x_y_ranges(0, 300_000, 0, 500_000),
        Rect::from_x_y_ranges(300_000, 1_000_000, 0, 500_000),
        Rect::from_x_y_ranges(0, 200_000, 500_000, 1_000_000),
        Rect::from_x_y_ranges(200_000, 600_000, 500_000, 1_000_000),
        Rect::from_x_y_ranges(600_000, 1_000_000, 500_000, 1_000_000),
    ]);
    for frame in layout.content.iter() {
        for edge in [Edge::Top, Edge::Bottom, Edge::Left, Edge::Right] {
            let grabbed = get_interval(&frame.rect, edge);
            let mut span = grabbed;
            for _ in 0..layout.content.len() {
                span = widen_once(&layout.content, span);
            }
            assert_eq!(widen_once(&layout.content, span), span);
            assert_eq!(expand_interval(&layout.content, grabbed), span);
        }
    }
}

#[test]
fn expansion_keeps_an_interval_that_touches_nothing() {
    let layout = three_frames();
    let lonely = vertical(100_000, 200_000, 250_000);
    assert_eq!(expand_interval(&layout.content, lonely), lonely);
}

#[test]
fn drag_of_an_interval_that_touches_nothing_changes_nothing() {
    let mut layout = three_frames();
    let before = rects(&layout);
    layout.drag(vertical(100_000, 200_000, 250_000), 100_000);
    assert_eq!(rects(&layout), before);
}

#[test]
fn borders_do_not_move() {
    for pos in [0, EPSILON, -5, UNIT, UNIT - EPSILON, UNIT + 5, 500, 999_500] {
        let mut layout = three_frames();
        let before = rects(&layout);
        layout.drag(vertical(0, 1_000_000, pos), 300_000);
        assert_eq!(rects(&layout), before);
        layout.drag(horizontal(0, 1_000_000, pos), -300_000);
        assert_eq!(rects(&layout), before);
    }
}

#[test]
fn border_sides_of_frames_do_not_move() {
    let mut layout = three_frames();
    let before = rects(&layout);
    let left = get_interval(&layout.content[0].rect, Edge::Left);
    layout.drag(left, 200_000);
    let bottom = get_interval(&layout.content[2].rect, Edge::Bottom);
    layout.drag(bottom, -200_000);
    assert_eq!(rects(&layout), before);
}

#[test]
fn drag_by_nothing_changes_nothing() {
    for index in 0..4 {
        for edge in [Edge::Top, Edge::Bottom, Edge::Left, Edge::Right] {
            let mut layout = four_frames();
            let before = rects(&layout);
            let grabbed = get_interval(&layout.content[index].rect, edge);
            layout.drag(grabbed, 0);
            assert_eq!(rects(&layout), before);
        }
    }
}

#[test]
fn drags_keep_the_tiling_and_the_minimum_size() {
    let mut layout = four_frames();
    let deltas = [300_000, -700_000, 20_000, 999_999, -1, -999_999, 123_456, i32::MAX, i32::MIN];
    let mut step = 0;
    for round in 0..6 {
        for index in 0..4 {
            for edge in [Edge::Right, Edge::Top, Edge::Left, Edge::Bottom] {
                let grabbed = get_interval(&layout.content[index].rect, edge);
                layout.drag(grabbed, deltas[(step + round) % deltas.len()]);
                step += 1;
                assert_tiles(&layout);
                assert_roomy(&layout);
            }
        }
    }
}

#[test]
fn horizontal_boundary_moves_down() {
    let mut layout = three_frames();
    let grabbed = get_interval(&layout.content[1].rect, Edge::Bottom);
    assert_eq!(grabbed, horizontal(500_000, 1_000_000, 500_000));
    layout.drag(grabbed, 250_000);
    assert_eq!(
        rects(&layout),
        vec![
            Rect::from_x_y_ranges(0, 500_000, 0, 1_000_000),
            Rect::from_x_y_ranges(500_000, 1_000_000, 0, 750_000),
            Rect::from_x_y_ranges(500_000, 1_000_000, 750_000, 1_000_000),
        ]
    );
}

#[test]
fn clamp_range_of_the_middle_divider() {
    let layout = three_frames();
    assert_eq!(
        clamp_range(&layout.content, &vertical(0, 1_000_000, 500_000)),
        (50_000, 950_000)
    );
    let layout = four_frames();
    // A asks for 0 + MIN_SIZE, C for 600_000 - MIN_SIZE.
    assert_eq!(
        clamp_range(&layout.content, &vertical(0, 1_000_000, 500_000)),
        (50_000, 550_000)
    );
    // Across the divider between C and D: A ends before it, at 500_000.
    assert_eq!(
        clamp_range(&layout.content, &vertical(500_000, 1_000_000, 600_000)),
        (550_000, 950_000)
    );
}

#[test]
fn clamp_range_ignores_frames_that_only_touch_the_end() {
    let layout = four_frames();
    // The segment ends where C and D start: they overlap it by nothing.
    assert_eq!(
        clamp_range(&layout.content, &vertical(0, 500_000, 500_000)),
        (50_000, 950_000)
    );
    // An overlap of less than EPSILON does not count either.
    assert_eq!(
        clamp_range(&layout.content, &vertical(0, 500_999, 500_000)),
        (50_000, 950_000)
    );
    assert_eq!(
        clamp_range(&layout.content, &vertical(0, 501_000, 500_000)),
        (50_000, 550_000)
    );
}

#[test]
fn side_exactly_on_the_boundary_limits_nothing_by_itself() {
    // One frame that starts exactly on the boundary and is narrower than
    // MIN_SIZE: only its far side counts.
    let layout = layout_of(&[Rect::from_x_y_ranges(500_000, 520_000, 0, 1_000_000)]);
    assert_eq!(
        clamp_range(&layout.content, &vertical(0, 1_000_000, 500_000)),
        (50_000, 470_000)
    );
}

#[test]
fn empty_clamp_range_leaves_the_layout_alone() {
    // Two frames too narrow to keep MIN_SIZE on either side of the boundary.
    let mut layout = layout_of(&[
        Rect::from_x_y_ranges(480_000, 500_000, 0, 1_000_000),
        Rect::from_x_y_ranges(500_000, 520_000, 0, 1_000_000),
    ]);
    let span = vertical(0, 1_000_000, 500_000);
    assert_eq!(clamp_range(&layout.content, &span), (530_000, 470_000));
    let before = rects(&layout);
    layout.drag(span, 10_000);
    assert_eq!(rects(&layout), before);
    layout.drag(span, 0);
    assert_eq!(rects(&layout), before);
}

#[test]
fn thin_frame_breaks_the_tiling() {
    // A frame thinner than EPSILON has both neighbours within reach of the
    // boundary: without the minimum size a drag by nothing moves them.
    let mut layout = layout_of(&[
        Rect::from_x_y_ranges(0, 500_000, 0, 1_000_000),
        Rect::from_x_y_ranges(500_000, 500_500, 0, 1_000_000),
        Rect::from_x_y_ranges(500_500, 1_000_000, 0, 1_000_000),
    ]);
    layout.drag(vertical(0, 1_000_000, 500_000), 0);
    assert_eq!(
        rects(&layout),
        vec![
            Rect::from_x_y_ranges(0, 450_500, 0, 1_000_000),
            Rect::from_x_y_ranges(450_500, 500_500, 0, 1_000_000),
            Rect::from_x_y_ranges(450_500, 1_000_000, 0, 1_000_000),
        ]
    );
}

#[test]
fn drag_keeps_name_identity_and_contents() {
    let mut layout = three_frames();
    let id = layout.id;
    let frame_ids: Vec<egui::Id> = layout.content.iter().map(|frame| frame.id).collect();
    layout.drag(vertical(0, 1_000_000, 500_000), 100_000);
    assert_eq!(layout.id, id);
    assert_eq!(layout.name, "test");
    assert_eq!(layout.content.len(), 3);
    for (index, frame) in layout.content.iter().enumerate() {
        assert_eq!(frame.frame_type, index);
        assert_eq!(frame.id, frame_ids[index]);
    }
}
