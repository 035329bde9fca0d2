use tmj::animation::rect_trans::EdgeTransition;
use tmj::animation::offset_shift::ShiftDirection;
use tmj::animation::rect_trans::{resize_target, slide_target, Rect, ResizeAnchor, SlideDirection};

#[test]
fn slide_up_moves_y_up() {
    let start = Rect::new(10, 20, 5, 8);
    let target = slide_target(start, SlideDirection::Up, 7);
    assert_eq!(target, Rect::new(10, 13, 5, 8));
}

#[test]
fn resize_from_center_keeps_center() {
    let start = Rect::new(10, 10, 20, 20);
    let target = resize_target(start, ResizeAnchor::Center, 10, 10);
    assert_eq!(target, Rect::new(15, 15, 10, 10));
}

#[test]
fn rect_new_clips_size_at_the_coordinate_limit() {
    let r = Rect::new(65530, 65000, 10, 600);
    assert_eq!(r, Rect { x: 65530, y: 65000, width: 5, height: 535 });
    let r = Rect::new(1, 2, 3, 4);
    assert_eq!(r, Rect { x: 1, y: 2, width: 3, height: 4 });
}

#[test]
fn slides_stop_at_the_edges() {
    let start = Rect::new(3, 4, 5, 6);
    assert_eq!(slide_target(start, SlideDirection::Up, 10), Rect::new(3, 0, 5, 6));
    assert_eq!(slide_target(start, SlideDirection::Left, 10), Rect::new(0, 4, 5, 6));
    assert_eq!(slide_target(start, SlideDirection::Down, 10), Rect::new(3, 14, 5, 6));
    assert_eq!(slide_target(start, SlideDirection::Right, 10), Rect::new(13, 4, 5, 6));
    let far = Rect::new(65530, 0, 5, 1);
    assert_eq!(slide_target(far, SlideDirection::Right, 100), Rect { x: 65535, y: 0, width: 0, height: 1 });
}

#[test]
fn slide_there_and_back_returns() {
    let start = Rect::new(40, 50, 7, 9);
    let there = slide_target(start, SlideDirection::Down, 12);
    let back = slide_target(there, SlideDirection::Up, 12);
    assert_eq!(back, start);
}

#[test]
fn resize_keeps_each_anchor() {
    let start = Rect::new(10, 10, 20, 20);
    assert_eq!(resize_target(start, ResizeAnchor::TopLeft, 4, 6), Rect::new(10, 10, 4, 6));
    assert_eq!(resize_target(start, ResizeAnchor::BottomRight, 4, 6), Rect::new(26, 24, 4, 6));
    assert_eq!(resize_target(start, ResizeAnchor::Top, 4, 6), Rect::new(18, 10, 4, 6));
    assert_eq!(resize_target(start, ResizeAnchor::Right, 4, 6), Rect::new(26, 17, 4, 6));
}

#[test]
fn resize_rounds_halves_away_from_zero() {
    // centre at 10 + 5 / 2 = 12.5; a width of 2 starts at 11.5, which rounds to 12
    let start = Rect::new(10, 0, 5, 1);
    assert_eq!(resize_target(start, ResizeAnchor::Center, 2, 1).x, 12);
    // a start at -0.5 rounds to -1 and is clamped to 0
    let start = Rect::new(0, 0, 1, 1);
    assert_eq!(resize_target(start, ResizeAnchor::Center, 2, 2), Rect::new(0, 0, 2, 2));
    // growing from the bottom right past the origin clamps to 0
    let start = Rect::new(2, 2, 2, 2);
    assert_eq!(resize_target(start, ResizeAnchor::BottomRight, 10, 10), Rect::new(0, 0, 10, 10));
}

#[test]
fn shift_moves_the_offset() {
    assert_eq!(ShiftDirection::Up.apply((3, 4), 2), (3, 2));
    assert_eq!(ShiftDirection::Down.apply((3, 4), 2), (3, 6));
    assert_eq!(ShiftDirection::Left.apply((3, 4), 2), (1, 4));
    assert_eq!(ShiftDirection::Right.apply((3, 4), 2), (5, 4));
    // the distance is taken by its low 32 bits
    assert_eq!(ShiftDirection::Right.apply((0, 0), (1i64 << 32) + 5), (5, 0));
    let there = ShiftDirection::Left.apply((7, -9), 30);
    assert_eq!(ShiftDirection::Right.apply(there, 30), (7, -9));
}

#[test]
fn edge_rectangles_open_and_close() {
    let area = Rect::new(0, 2, 80, 20);
    assert_eq!(area.bottom(), 22);
    let show = EdgeTransition::new(area, 3, true);
    assert_eq!(show.top_start, Rect::new(0, 2, 80, 0));
    assert_eq!(show.top_target, Rect::new(0, 2, 80, 3));
    assert_eq!(show.bottom_start, Rect::new(0, 22, 80, 0));
    assert_eq!(show.bottom_target, Rect::new(0, 19, 80, 3));
    let hide = EdgeTransition::new(area, 3, false);
    assert_eq!(hide.top_start, show.top_target);
    assert_eq!(hide.bottom_target, show.bottom_start);
}

#[test]
fn shift_directions_by_name() {
    assert_eq!(ShiftDirection::from_name("Left"), Some(ShiftDirection::Left));
    assert_eq!(ShiftDirection::from_name("left"), None);
    assert_eq!(ShiftDirection::Down.name(), "Down");
}
