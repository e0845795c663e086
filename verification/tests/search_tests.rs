use fischy::colors::{matches_any, Color, ColorTarget};
use fischy::geometry::{Point, Region};
use fischy::screen::Screen;
use fischy::search::{shake_click_point, shake_target};

const WHITE: [u8; 3] = [255, 255, 255];
const RED: [u8; 3] = [200, 10, 10];

fn screen_with(width: u32, height: u32, marks: &[(u32, u32, [u8; 3])]) -> Screen {
    let mut data = vec![0u8; (width * height * 3) as usize];
    for &(x, y, c) in marks {
        let i = ((y * width + x) * 3) as usize;
        data[i..i + 3].copy_from_slice(&c);
    }
    Screen::from_rgb(width, height, data).unwrap()
}

fn region(x1: u32, y1: u32, x2: u32, y2: u32) -> Region {
    Region { point1: Point { x: x1, y: y1 }, point2: Point { x: x2, y: y2 } }
}

fn white_target() -> ColorTarget {
    ColorTarget { color: Color { r: 255, g: 255, b: 255 }, variation: 0 }
}

#[test]
fn color_target_tolerance() {
    let t = ColorTarget { color: Color { r: 100, g: 100, b: 100 }, variation: 5 };
    assert!(t.matches(Color { r: 105, g: 95, b: 100 }));
    assert!(!t.matches(Color { r: 106, g: 100, b: 100 }));
    assert!(!t.matches(Color { r: 100, g: 100, b: 94 }));
    assert!(t.matches(t.color));
    let exact = ColorTarget { color: Color { r: 0, g: 0, b: 255 }, variation: 0 };
    assert!(exact.matches(Color { r: 0, g: 0, b: 255 }));
    assert!(!exact.matches(Color { r: 0, g: 0, b: 254 }));
}

#[test]
fn matches_any_tries_every_target() {
    let targets = [
        ColorTarget { color: Color { r: 0, g: 0, b: 0 }, variation: 0 },
        white_target(),
    ];
    assert!(matches_any(&targets, Color { r: 255, g: 255, b: 255 }));
    assert!(!matches_any(&targets, Color { r: 1, g: 1, b: 1 }));
    assert!(!matches_any(&[], Color { r: 0, g: 0, b: 0 }));
}

#[test]
fn corners_and_size() {
    let r = region(2, 3, 10, 7);
    assert_eq!(r.corners(), [2, 3, 10, 7]);
    let d = r.get_size();
    assert_eq!((d.width, d.height), (8, 4));
}

#[test]
fn mid_row_left_to_right() {
    // region rows 0..=2, middle row is 1
    let s = screen_with(4, 3, &[(3, 1, WHITE), (2, 1, WHITE), (0, 0, WHITE)]);
    let r = region(0, 0, 3, 2);
    assert_eq!(r.search_color_mid_ltr(&s, &[white_target()]), Some(Point { x: 2, y: 1 }));
}

#[test]
fn mid_row_rounds_down() {
    // rows 0..=3: middle row is 1
    let s = screen_with(4, 4, &[(1, 2, WHITE)]);
    let r = region(0, 0, 3, 3);
    assert_eq!(r.search_color_mid_ltr(&s, &[white_target()]), None);
    let s = screen_with(4, 4, &[(1, 1, WHITE)]);
    assert_eq!(r.search_color_mid_ltr(&s, &[white_target()]), Some(Point { x: 1, y: 1 }));
}

#[test]
fn mid_row_no_match() {
    let s = screen_with(4, 3, &[(0, 0, WHITE), (1, 2, WHITE)]);
    let r = region(0, 0, 3, 2);
    assert_eq!(r.search_color_mid_ltr(&s, &[white_target()]), None);
}

#[test]
fn left_half_column_major() {
    // width 5 (x 0..=4): half width 2, columns 0..=2
    let s = screen_with(5, 3, &[(1, 0, WHITE), (0, 2, RED), (2, 1, WHITE)]);
    let r = region(0, 0, 4, 2);
    let red = ColorTarget { color: Color { r: 200, g: 10, b: 10 }, variation: 3 };
    assert_eq!(
        r.search_color_left_half(&s, &[white_target(), red]),
        Some(Point { x: 0, y: 2 })
    );
    assert_eq!(r.search_color_left_half(&s, &[white_target()]), Some(Point { x: 1, y: 0 }));
}

#[test]
fn left_half_ignores_right_columns() {
    let s = screen_with(5, 3, &[(3, 0, WHITE), (4, 2, WHITE)]);
    let r = region(0, 0, 4, 2);
    assert_eq!(r.search_color_left_half(&s, &[white_target()]), None);
}

#[test]
fn right_half_from_the_right() {
    // columns 4, 3, 2 in that order; each from the top
    let s = screen_with(5, 3, &[(2, 0, WHITE), (4, 2, WHITE), (4, 1, WHITE)]);
    let r = region(0, 0, 4, 2);
    assert_eq!(r.search_color_right_half(&s, &[white_target()]), Some(Point { x: 4, y: 1 }));
    let s = screen_with(5, 3, &[(2, 0, WHITE), (1, 1, WHITE)]);
    assert_eq!(r.search_color_right_half(&s, &[white_target()]), Some(Point { x: 2, y: 0 }));
    let s = screen_with(5, 3, &[(1, 0, WHITE), (0, 2, WHITE)]);
    assert_eq!(r.search_color_right_half(&s, &[white_target()]), None);
}

#[test]
fn region_offset_inside_screen() {
    let s = screen_with(6, 6, &[(3, 4, WHITE), (1, 1, WHITE)]);
    let r = region(2, 2, 5, 5);
    assert_eq!(r.search_color_left_half(&s, &[white_target()]), Some(Point { x: 3, y: 4 }));
}

#[test]
fn shake_bubble_bottom_up() {
    let almost_white = [254, 255, 254];
    let s = screen_with(4, 4, &[(3, 0, WHITE), (2, 3, almost_white), (0, 3, [250, 250, 250])]);
    let r = region(0, 0, 3, 3);
    assert_eq!(r.search_shake_bubble(&s), Some(Point { x: 2, y: 3 }));
    let s = screen_with(4, 4, &[(3, 0, WHITE), (1, 1, WHITE)]);
    assert_eq!(r.search_shake_bubble(&s), Some(Point { x: 1, y: 1 }));
    let s = screen_with(4, 4, &[]);
    assert_eq!(r.search_shake_bubble(&s), None);
}

#[test]
fn shake_target_is_white_with_tolerance_one() {
    let t = shake_target();
    assert_eq!(t.color, Color { r: 255, g: 255, b: 255 });
    assert_eq!(t.variation, 1);
}

#[test]
fn shake_click_offset() {
    assert_eq!(shake_click_point(Point { x: 100, y: 50 }), Point { x: 120, y: 40 });
    assert_eq!(shake_click_point(Point { x: 0, y: 10 }), Point { x: 20, y: 0 });
}

#[test]
fn mid_row_with_corners_out_of_order() {
    let s = screen_with(4, 4, &[(1, 1, WHITE), (2, 1, WHITE)]);
    // rows 3 and 0: middle row 1; columns 0..=3
    let r = region(0, 3, 3, 0);
    assert_eq!(r.search_color_mid_ltr(&s, &[white_target()]), Some(Point { x: 1, y: 1 }));
    // columns 3 down to 0: empty range
    let r = region(3, 0, 0, 3);
    assert_eq!(r.search_color_mid_ltr(&s, &[white_target()]), None);
}

#[test]
fn shake_bubble_with_corners_out_of_order() {
    let s = screen_with(4, 4, &[(1, 1, WHITE)]);
    assert_eq!(region(3, 0, 0, 3).search_shake_bubble(&s), None);
    assert_eq!(region(0, 3, 3, 0).search_shake_bubble(&s), None);
    assert!(region(3, 0, 0, 3).shake_area_exec().fits(4, 4));
}

#[test]
fn shake_area_fits_screen() {
    assert!(region(0, 0, 3, 3).shake_area_exec().fits(4, 4));
    assert!(!region(0, 0, 4, 3).shake_area_exec().fits(4, 4));
    assert!(!region(0, 0, 3, 4).shake_area_exec().fits(4, 4));
}

#[test]
fn more_targets_match_no_later() {
    let s = screen_with(5, 3, &[(2, 0, WHITE), (0, 2, RED)]);
    let r = region(0, 0, 4, 2);
    let red = ColorTarget { color: Color { r: 200, g: 10, b: 10 }, variation: 0 };
    let few = r.search_color_left_half(&s, &[white_target()]);
    let more = r.search_color_left_half(&s, &[white_target(), red]);
    let swapped = r.search_color_left_half(&s, &[red, white_target()]);
    assert_eq!(few, Some(Point { x: 2, y: 0 }));
    assert_eq!(more, Some(Point { x: 0, y: 2 }));
    assert_eq!(swapped, more);
    assert_eq!(r.search_color_left_half(&s, &[]), None);
}
