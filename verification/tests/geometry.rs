use roguelike::color::Color;
use roguelike::geometry::{
    grid_to_screen, scale_and_shift, spans_meet, PixelOffset, PixelSize, Region, ScreenPoint,
};

#[test]
fn grid_to_screen_scales_column_by_width_and_row_by_height() {
    let point =
        grid_to_screen((2, 3), PixelSize { width: 12, height: 24 }, PixelOffset { x: 0, y: 120 });
    assert_eq!(point, ScreenPoint { x: 36, y: 168 });
}

#[test]
fn grid_to_screen_of_the_origin_is_the_offset() {
    let point =
        grid_to_screen((0, 0), PixelSize { width: 12, height: 24 }, PixelOffset { x: 5, y: 9 });
    assert_eq!(point, ScreenPoint { x: 5, y: 9 });
}

#[test]
fn grid_to_screen_does_not_wrap() {
    let most = usize::MAX;
    let point = grid_to_screen(
        (most, most),
        PixelSize { width: most, height: most },
        PixelOffset { x: most, y: most },
    );
    let expected = (most as u128) * (most as u128) + (most as u128);
    assert_eq!(point, ScreenPoint { x: expected, y: expected });
}

#[test]
fn scale_and_shift_is_exact() {
    assert_eq!(scale_and_shift(3, 12, 0), 36);
    assert_eq!(scale_and_shift(2, 24, 120), 168);
    assert_eq!(scale_and_shift(0, 24, 7), 7);
    assert_eq!(scale_and_shift(usize::MAX, 2, 1), 2 * (usize::MAX as u128) + 1);
}

#[test]
fn spans_meet_when_they_share_a_point() {
    assert!(spans_meet(0, 10, 9, 1));
    assert!(spans_meet(9, 1, 0, 10));
    assert!(spans_meet(5, 5, 5, 5));
    assert!(!spans_meet(0, 10, 10, 10));
    assert!(!spans_meet(10, 10, 0, 10));
    assert!(!spans_meet(0, 0, 0, 10));
    assert!(!spans_meet(3, 10, 5, 0));
    assert!(spans_meet(u128::MAX, 1, u128::MAX, usize::MAX));
}

#[test]
fn regions_overlap_when_they_share_a_pixel() {
    let a = Region { x: 0, y: 0, width: 24, height: 24 };
    let beside = Region { x: 24, y: 0, width: 24, height: 24 };
    let across = Region { x: 23, y: 23, width: 24, height: 24 };
    let below = Region { x: 0, y: 24, width: 24, height: 24 };
    let flat = Region { x: 3, y: 3, width: 5, height: 0 };
    assert!(a.overlaps(a));
    assert!(!a.overlaps(beside));
    assert!(!beside.overlaps(a));
    assert!(a.overlaps(across));
    assert!(across.overlaps(a));
    assert!(!a.overlaps(below));
    assert!(!a.overlaps(flat));
    assert!(!flat.overlaps(flat));
}

#[test]
fn colors_by_name() {
    assert_eq!(Color::white(), Color { r: 255, g: 255, b: 255, a: 255 });
    assert_eq!(Color::black(), Color { r: 0, g: 0, b: 0, a: 255 });
    assert_eq!(Color::red(), Color { r: 255, g: 0, b: 0, a: 255 });
    assert_eq!(Color::blue(), Color { r: 0, g: 0, b: 255, a: 255 });
    assert_eq!(Color::purple(), Color { r: 255, g: 0, b: 255, a: 255 });
    assert_eq!(Color::opaque(1, 2, 3), Color { r: 1, g: 2, b: 3, a: 255 });
    assert_eq!(Color::red().with_alpha(128), Color { r: 255, g: 0, b: 0, a: 128 });
    assert_eq!(Color::opaque(1, 2, 3).with_alpha(0), Color { r: 1, g: 2, b: 3, a: 0 });
}
