use graphite::frame::{Direction, DragResponse, Edge};
use graphite::geometry::{range_along_axis, Axis, Point, Rect, EPSILON, MIN_SIZE, UNIT};
use graphite::interval::{
    down_interval, get_interval, intersects_interval, left_interval, right_interval, up_interval,
    Interval,
};
use graphite::layout::{default_layout, Frame, Layout, Layouts};

fn sample() -> Rect {
    Rect::from_x_y_ranges(100_000, 400_000, 200_000, 900_000)
}

fn segment(axis: Axis, from: i32, to: i32, pos: i32) -> Interval {
    Interval { axis, axis_from: from, axis_to: to, perpendicular_pos: pos }
}

#[test]
fn constants_are_in_ticks() {
    assert_eq!(UNIT, 1_000_000);
    assert_eq!(EPSILON, 1_000);
    assert_eq!(MIN_SIZE, 50_000);
}

#[test]
fn axis_other_flips() {
    assert_eq!(Axis::Horizontal.other(), Axis::Vertical);
    assert_eq!(Axis::Vertical.other(), Axis::Horizontal);
    assert_eq!(Axis::Vertical.other().other(), Axis::Vertical);
}

#[test]
fn edges_and_directions_correspond() {
    let pairs = [
        (Edge::Top, Direction::Up),
        (Edge::Bottom, Direction::Down),
        (Edge::Left, Direction::Left),
        (Edge::Right, Direction::Right),
    ];
    for (edge, direction) in pairs {
        assert_eq!(Direction::from(edge), direction);
        assert_eq!(Edge::from(direction), edge);
        assert_eq!(Edge::from(Direction::from(edge)), edge);
    }
}

#[test]
fn axis_of_direction() {
    assert_eq!(Axis::from(Direction::Up), Axis::Vertical);
    assert_eq!(Axis::from(Direction::Down), Axis::Vertical);
    assert_eq!(Axis::from(Direction::Left), Axis::Horizontal);
    assert_eq!(Axis::from(Direction::Right), Axis::Horizontal);
}

#[test]
fn rect_from_ranges() {
    assert_eq!(
        sample(),
        Rect { min: Point { x: 100_000, y: 200_000 }, max: Point { x: 400_000, y: 900_000 } }
    );
}

#[test]
fn range_along_each_axis() {
    assert_eq!(range_along_axis(&sample(), Axis::Horizontal), (100_000, 400_000));
    assert_eq!(range_along_axis(&sample(), Axis::Vertical), (200_000, 900_000));
}

#[test]
fn sides_as_intervals() {
    let rect = sample();
    assert_eq!(up_interval(&rect), segment(Axis::Horizontal, 100_000, 400_000, 200_000));
    assert_eq!(down_interval(&rect), segment(Axis::Horizontal, 100_000, 400_000, 900_000));
    assert_eq!(left_interval(&rect), segment(Axis::Vertical, 200_000, 900_000, 100_000));
    assert_eq!(right_interval(&rect), segment(Axis::Vertical, 200_000, 900_000, 400_000));
    assert_eq!(get_interval(&rect, Edge::Top), up_interval(&rect));
    assert_eq!(get_interval(&rect, Edge::Bottom), down_interval(&rect));
    assert_eq!(get_interval(&rect, Edge::Left), left_interval(&rect));
    assert_eq!(get_interval(&rect, Edge::Right), right_interval(&rect));
}

#[test]
fn intervals_that_overlap_intersect() {
    let a = segment(Axis::Vertical, 0, 500_000, 300_000);
    assert!(a.intersects(&segment(Axis::Vertical, 400_000, 900_000, 300_000)));
    assert!(a.intersects(&segment(Axis::Vertical, 499_999, 900_000, 300_000)));
    assert!(a.intersects(&a));
    assert!(a.intersects(&segment(Axis::Vertical, -10, 1, 300_000)));
}

#[test]
fn intervals_that_only_touch_do_not_intersect() {
    let a = segment(Axis::Vertical, 0, 500_000, 300_000);
    assert!(!a.intersects(&segment(Axis::Vertical, 500_000, 900_000, 300_000)));
    assert!(!segment(Axis::Vertical, 500_000, 900_000, 300_000).intersects(&a));
    assert!(!a.intersects(&segment(Axis::Vertical, 600_000, 900_000, 300_000)));
}

#[test]
fn intervals_on_different_axes_do_not_intersect() {
    let a = segment(Axis::Vertical, 0, 500_000, 300_000);
    assert!(!a.intersects(&segment(Axis::Horizontal, 0, 500_000, 300_000)));
}

#[test]
fn intervals_intersect_within_epsilon_only() {
    let a = segment(Axis::Horizontal, 0, 500_000, 300_000);
    assert!(a.intersects(&segment(Axis::Horizontal, 0, 500_000, 300_999)));
    assert!(a.intersects(&segment(Axis::Horizontal, 0, 500_000, 299_001)));
    assert!(!a.intersects(&segment(Axis::Horizontal, 0, 500_000, 301_000)));
    assert!(!a.intersects(&segment(Axis::Horizontal, 0, 500_000, 299_000)));
    let far = segment(Axis::Horizontal, 0, 500_000, i32::MIN);
    assert!(!far.intersects(&segment(Axis::Horizontal, 0, 500_000, i32::MAX)));
}

#[test]
fn intersects_interval_finds_each_side() {
    let rect = sample();
    assert_eq!(
        intersects_interval(&rect, &segment(Axis::Horizontal, 0, 150_000, 200_000)),
        Some(Edge::Top)
    );
    assert_eq!(
        intersects_interval(&rect, &segment(Axis::Horizontal, 0, 150_000, 900_500)),
        Some(Edge::Bottom)
    );
    assert_eq!(
        intersects_interval(&rect, &segment(Axis::Vertical, 0, 250_000, 100_000)),
        Some(Edge::Left)
    );
    assert_eq!(
        intersects_interval(&rect, &segment(Axis::Vertical, 850_000, 950_000, 399_500)),
        Some(Edge::Right)
    );
    assert_eq!(intersects_interval(&rect, &segment(Axis::Vertical, 0, 200_000, 100_000)), None);
    assert_eq!(intersects_interval(&rect, &segment(Axis::Vertical, 0, 950_000, 250_000)), None);
    assert_eq!(intersects_interval(&rect, &segment(Axis::Horizontal, 0, 950_000, 100_000)), None);
}

#[test]
fn intersects_interval_prefers_top_and_left() {
    // Lower than twice EPSILON: both horizontal sides lie on the segment.
    let flat = Rect::from_x_y_ranges(0, 500_000, 300_000, 301_500);
    assert_eq!(
        intersects_interval(&flat, &segment(Axis::Horizontal, 0, 500_000, 300_800)),
        Some(Edge::Top)
    );
    let thin = Rect::from_x_y_ranges(300_000, 301_500, 0, 500_000);
    assert_eq!(
        intersects_interval(&thin, &segment(Axis::Vertical, 0, 500_000, 300_800)),
        Some(Edge::Left)
    );
}

#[test]
fn modify_size_moves_one_side() {
    let moves = [
        (Edge::Top, Rect::from_x_y_ranges(100_000, 400_000, 7, 900_000)),
        (Edge::Bottom, Rect::from_x_y_ranges(100_000, 400_000, 200_000, 7)),
        (Edge::Left, Rect::from_x_y_ranges(7, 400_000, 200_000, 900_000)),
        (Edge::Right, Rect::from_x_y_ranges(100_000, 7, 200_000, 900_000)),
    ];
    for (edge, expected) in moves {
        let mut frame = Frame::new(3, sample());
        let id = frame.id;
        frame.modify_size(edge, 7);
        assert_eq!(frame.rect, expected);
        assert_eq!(frame.frame_type, 3);
        assert_eq!(frame.id, id);
    }
}

#[test]
fn new_frames_and_layouts_keep_what_they_are_given() {
    let frame = Frame::new(9999, sample());
    assert_eq!(frame.frame_type, 9999);
    assert_eq!(frame.rect, sample());
    let layout = Layout::new(String::from("Side by side"), vec![frame.clone(), Frame::new(1, sample())]);
    assert_eq!(layout.name, "Side by side");
    assert_eq!(layout.content.len(), 2);
    assert_eq!(layout.content[0].frame_type, 9999);
    assert_eq!(layout.content[1].frame_type, 1);
}

#[test]
fn identities_are_fresh() {
    let a = Frame::new(0, sample());
    let b = Frame::new(0, sample());
    let layout = Layout::new(String::from("ids"), vec![]);
    assert_ne!(a.id, b.id);
    assert_ne!(a.id, layout.id);
    assert_ne!(b.id, layout.id);
}

#[test]
fn clone_of_a_frame_is_the_frame() {
    let frame = Frame::new(2, sample());
    let copy = frame.clone();
    assert_eq!(copy.id, frame.id);
    assert_eq!(copy.rect, frame.rect);
    assert_eq!(copy.frame_type, frame.frame_type);
}

#[test]
fn default_layout_has_three_frames() {
    let layout = default_layout();
    assert_eq!(layout.name, "Default");
    let rects: Vec<Rect> = layout.content.iter().map(|frame| frame.rect).collect();
    assert_eq!(
        rects,
        vec![
            Rect::from_x_y_ranges(0, 750_000, 0, 1_000_000),
            Rect::from_x_y_ranges(750_000, 1_000_000, 0, 660_000),
            Rect::from_x_y_ranges(750_000, 1_000_000, 660_000, 1_000_000),
        ]
    );
    let types: Vec<usize> = layout.content.iter().map(|frame| frame.frame_type).collect();
    assert_eq!(types, vec![0, 1, 2]);
}

#[test]
fn layouts_start_with_the_default_layout() {
    let layouts = Layouts::new();
    assert_eq!(layouts.selected, 0);
    assert_eq!(layouts.layouts.len(), 1);
    assert_eq!(layouts.layouts[0].name, "Default");
    assert_eq!(layouts.current(), 0);
}

#[test]
fn current_layout_is_the_selected_or_the_last() {
    let mut layouts = Layouts::new();
    layouts.layouts.push(default_layout());
    layouts.layouts.push(default_layout());
    layouts.selected = 1;
    assert_eq!(layouts.current(), 1);
    layouts.selected = 2;
    assert_eq!(layouts.current(), 2);
    layouts.selected = 3;
    assert_eq!(layouts.current(), 2);
    layouts.selected = usize::MAX;
    assert_eq!(layouts.current(), 2);
}

#[test]
fn drag_response_holds_side_and_distance() {
    let response = DragResponse { edge: Edge::Left, delta: -12 };
    assert_eq!(response.edge, Edge::Left);
    assert_eq!(response.delta, -12);
}
