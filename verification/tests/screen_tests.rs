use fischy::colors::Color;
use fischy::screen::{rgba_to_rgb, Screen};

#[test]
fn rgba_drops_alpha() {
    assert_eq!(rgba_to_rgb(&[1, 2, 3, 4, 5, 6, 7, 8]), vec![1, 2, 3, 5, 6, 7]);
}

#[test]
fn rgba_keeps_partial_last_pixel() {
    assert_eq!(rgba_to_rgb(&[1, 2, 3, 4, 5, 6]), vec![1, 2, 3, 5, 6]);
    assert_eq!(rgba_to_rgb(&[1, 2, 3, 4, 5, 6, 7]), vec![1, 2, 3, 5, 6, 7]);
    assert_eq!(rgba_to_rgb(&[9]), vec![9]);
    assert_eq!(rgba_to_rgb(&[]), Vec::<u8>::new());
}

#[test]
fn from_rgb_checks_size() {
    assert!(Screen::from_rgb(2, 2, vec![0; 11]).is_none());
    let s = Screen::from_rgb(2, 2, vec![0; 12]).unwrap();
    assert_eq!(s.width(), 2);
    assert_eq!(s.height(), 2);
    let extra = Screen::from_rgb(1, 1, vec![7; 5]).unwrap();
    assert_eq!(extra.into_data(), vec![7; 5]);
    assert!(Screen::from_rgb(u32::MAX, u32::MAX, vec![0; 3]).is_none());
    assert!(Screen::from_rgb(0, 1000, vec![]).is_some());
}

#[test]
fn frame_pixels_keep_their_colour() {
    // 2 x 2 frame, RGBA
    let raw = vec![
        10, 11, 12, 255, 20, 21, 22, 255, //
        30, 31, 32, 255, 40, 41, 42, 255,
    ];
    let s = Screen::from_rgba_frame(2, 2, &raw).unwrap();
    assert_eq!(s.pixel(0, 0), Color { r: 10, g: 11, b: 12 });
    assert_eq!(s.pixel(1, 0), Color { r: 20, g: 21, b: 22 });
    assert_eq!(s.pixel(0, 1), Color { r: 30, g: 31, b: 32 });
    assert_eq!(s.pixel(1, 1), Color { r: 40, g: 41, b: 42 });
}

#[test]
fn frame_too_small_is_refused() {
    // 14 RGBA bytes give 11 RGB bytes, one short of a 2 x 2 picture
    assert!(Screen::from_rgba_frame(2, 2, &vec![0u8; 14]).is_none());
    // 15 RGBA bytes give 12: the last pixel's alpha byte is not needed
    assert!(Screen::from_rgba_frame(2, 2, &vec![0u8; 15]).is_some());
}
