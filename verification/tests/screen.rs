use graphite::frame::{DragResponse, Edge};
use graphite::geometry::Rect;
use graphite::layout::{default_layout, Frame, Layout};
use graphite::screen::{frame_on_screen, lerp, normalized_delta, relative_to_real_rect};

fn rects(layout: &Layout) -> Vec<Rect> {
    layout.content.iter().map(|frame| frame.rect).collect()
}

fn three_frames() -> Layout {
    Layout::new(
        String::from("test"),
        vec![
            Frame::new(0, Rect::from_x_y_ranges(0, 500_000, 0, 1_000_000)),
            Frame::new(1, Rect::from_x_y_ranges(500_000, 1_000_000, 0, 500_000)),
            Frame::new(2, Rect::from_x_y_ranges(500_000, 1_000_000, 500_000, 1_000_000)),
        ],
    )
}

#[test]
fn lerp_reaches_both_ends() {
    assert_eq!(lerp(100, 900, 0), 100);
    assert_eq!(lerp(100, 900, 1_000_000), 900);
    assert_eq!(lerp(900, 100, 0), 900);
    assert_eq!(lerp(900, 100, 1_000_000), 100);
    assert_eq!(lerp(-50, -50, 333_333), -50);
}

#[test]
fn lerp_is_linear() {
    assert_eq!(lerp(100, 900, 500_000), 500);
    assert_eq!(lerp(100, 900, 250_000), 300);
    assert_eq!(lerp(900, 100, 250_000), 700);
    assert_eq!(lerp(-400, 400, 750_000), 200);
    assert_eq!(lerp(0, 1920, 750_000), 1440);
}

#[test]
fn lerp_rounds_towards_the_start() {
    assert_eq!(lerp(0, 10, 199_999), 1);
    assert_eq!(lerp(0, 10, 99_999), 0);
    assert_eq!(lerp(10, 0, 199_999), 9);
    assert_eq!(lerp(10, 0, 99_999), 10);
    assert_eq!(lerp(0, 3, 333_333), 0);
    assert_eq!(lerp(0, 3, 333_334), 1);
}

#[test]
fn lerp_goes_on_past_the_ends() {
    assert_eq!(lerp(100, 900, 2_000_000), 1_700);
    assert_eq!(lerp(100, 900, -1_000_000), -700);
    assert_eq!(lerp(i32::MIN, i32::MAX, i32::MAX), -2_147_483_648 + 9_223_372_030_412);
    assert_eq!(lerp(i32::MAX, i32::MIN, i32::MAX), 2_147_483_647 - 9_223_372_030_412);
}

#[test]
fn frame_on_the_screen() {
    let full = Rect::from_x_y_ranges(0, 1920, 30, 1050);
    assert_eq!(
        relative_to_real_rect(Rect::from_x_y_ranges(0, 750_000, 0, 1_000_000), full),
        Rect::from_x_y_ranges(0, 1440, 30, 1050)
    );
    assert_eq!(
        relative_to_real_rect(Rect::from_x_y_ranges(750_000, 1_000_000, 0, 660_000), full),
        Rect::from_x_y_ranges(1440, 1920, 30, 703)
    );
    assert_eq!(
        relative_to_real_rect(Rect::from_x_y_ranges(750_000, 1_000_000, 660_000, 1_000_000), full),
        Rect::from_x_y_ranges(1440, 1920, 703, 1050)
    );
}

#[test]
fn frame_off_the_canvas_is_not_on_the_screen() {
    let full = Rect::from_x_y_ranges(0, 1920, 30, 1050);
    assert_eq!(
        frame_on_screen(Rect::from_x_y_ranges(750_000, 1_000_000, 0, 660_000), full),
        Some(Rect::from_x_y_ranges(1440, 1920, 30, 703))
    );
    assert_eq!(
        frame_on_screen(Rect::from_x_y_ranges(1_000_000, 0, 1_000_000, 0), full),
        Some(Rect::from_x_y_ranges(1920, 0, 1050, 30))
    );
    assert_eq!(frame_on_screen(Rect::from_x_y_ranges(-1, 1_000_000, 0, 660_000), full), None);
    assert_eq!(frame_on_screen(Rect::from_x_y_ranges(0, 1_000_001, 0, 660_000), full), None);
    assert_eq!(frame_on_screen(Rect::from_x_y_ranges(0, 1_000_000, -7, 660_000), full), None);
    assert_eq!(frame_on_screen(Rect::from_x_y_ranges(0, 1_000_000, 0, i32::MAX), full), None);
}

#[test]
fn canvas_fills_the_viewport() {
    let full = Rect::from_x_y_ranges(-300, 77, 12, 4000);
    let canvas = Rect::from_x_y_ranges(0, 1_000_000, 0, 1_000_000);
    assert_eq!(relative_to_real_rect(canvas, full), full);
}

#[test]
fn screen_distance_to_canvas_distance() {
    assert_eq!(normalized_delta(192, 1920), 100_000);
    assert_eq!(normalized_delta(-192, 1920), -100_000);
    assert_eq!(normalized_delta(0, 1920), 0);
    assert_eq!(normalized_delta(1, 3), 333_333);
    assert_eq!(normalized_delta(-1, 3), -333_333);
    assert_eq!(normalized_delta(2, 3), 666_666);
    assert_eq!(normalized_delta(i32::MAX, 1), 2_147_483_647_000_000);
    assert_eq!(normalized_delta(i32::MIN, 1), -2_147_483_648_000_000);
}

#[test]
fn sensed_drag_moves_the_boundary() {
    let mut layout = three_frames();
    let full = Rect::from_x_y_ranges(0, 1920, 30, 1050);
    layout.respond_to_drag(0, DragResponse { edge: Edge::Right, delta: 192 }, &full);
    assert_eq!(
        rects(&layout),
        vec![
            Rect::from_x_y_ranges(0, 600_000, 0, 1_000_000),
            Rect::from_x_y_ranges(600_000, 1_000_000, 0, 500_000),
            Rect::from_x_y_ranges(600_000, 1_000_000, 500_000, 1_000_000),
        ]
    );
    // The height of the viewport is 1020.
    layout.respond_to_drag(2, DragResponse { edge: Edge::Top, delta: -102 }, &full);
    assert_eq!(
        rects(&layout),
        vec![
            Rect::from_x_y_ranges(0, 600_000, 0, 1_000_000),
            Rect::from_x_y_ranges(600_000, 1_000_000, 0, 400_000),
            Rect::from_x_y_ranges(600_000, 1_000_000, 400_000, 1_000_000),
        ]
    );
}

#[test]
fn sensed_drag_far_beyond_the_canvas_is_clamped() {
    let mut layout = three_frames();
    let full = Rect::from_x_y_ranges(0, 1, 0, 1);
    layout.respond_to_drag(1, DragResponse { edge: Edge::Left, delta: i32::MAX }, &full);
    assert_eq!(layout.content[0].rect.max.x, 950_000);
    layout.respond_to_drag(1, DragResponse { edge: Edge::Left, delta: i32::MIN }, &full);
    assert_eq!(layout.content[0].rect.max.x, 50_000);
    assert_eq!(layout.content[1].rect.min.x, 50_000);
    assert_eq!(layout.content[2].rect.min.x, 50_000);
}

#[test]
fn sensed_drag_without_frame_or_viewport_changes_nothing() {
    let mut layout = default_layout();
    let before = rects(&layout);
    let full = Rect::from_x_y_ranges(0, 1920, 30, 1050);
    layout.respond_to_drag(3, DragResponse { edge: Edge::Right, delta: 192 }, &full);
    assert_eq!(rects(&layout), before);
    let flat = Rect::from_x_y_ranges(0, 1920, 30, 30);
    layout.respond_to_drag(1, DragResponse { edge: Edge::Bottom, delta: 10 }, &flat);
    assert_eq!(rects(&layout), before);
    let turned = Rect::from_x_y_ranges(1920, 0, 30, 1050);
    layout.respond_to_drag(0, DragResponse { edge: Edge::Right, delta: 10 }, &turned);
    assert_eq!(rects(&layout), before);
}
