use vibetty_screenshot::glyph::{
    alpha_from_rgba, alpha_from_subpixel, bitmap_in_range, bitmap_to_rgba, char_step_in_range, clip_glyph_to_line,
    clip_in_range, glyph_x_offset, glyph_x_offset_in_range, BitmapMode,
};

#[test]
fn alpha_from_rgba_takes_fourth_byte() {
    assert_eq!(alpha_from_rgba(&vec![1, 2, 3, 4, 5, 6, 7, 8]), vec![4, 8]);
    assert_eq!(alpha_from_rgba(&vec![1, 2, 3, 4, 5, 6]), vec![4]);
    assert_eq!(alpha_from_rgba(&vec![]), Vec::<u8>::new());
}

#[test]
fn alpha_from_subpixel_averages() {
    assert_eq!(alpha_from_subpixel(&vec![255, 255, 255, 1, 2, 4, 9]), vec![255, 2]);
}

#[test]
fn glyph_x_offset_primary_uses_bearing() {
    assert_eq!(glyph_x_offset(10, false, 20, 7, 2), 12);
    assert_eq!(glyph_x_offset(10, false, 20, 7, -3), 7);
}

#[test]
fn glyph_x_offset_fallback_centres() {
    assert_eq!(glyph_x_offset(10, true, 20, 14, 2), 13);
    assert_eq!(glyph_x_offset(10, true, 20, 15, 2), 12);
    // Wider than the cell: at the pen.
    assert_eq!(glyph_x_offset(10, true, 20, 25, 2), 10);
}

#[test]
fn clip_glyph_inside_row_is_kept() {
    let mask: Vec<u8> = (0..6).collect();
    let g = clip_glyph_to_line(3, 2, 2, 3, &mask, 10).unwrap();
    assert_eq!((g.x, g.y, g.w, g.h), (3, 2, 2, 3));
    assert_eq!(g.mask, mask);
}

#[test]
fn clip_glyph_above_row_drops_top_rows() {
    let mask: Vec<u8> = (0..6).collect();
    let g = clip_glyph_to_line(0, -1, 2, 3, &mask, 10).unwrap();
    assert_eq!((g.y, g.h), (0, 2));
    assert_eq!(g.mask, vec![2, 3, 4, 5]);
}

#[test]
fn clip_glyph_below_row_end_drops_bottom_rows() {
    let mask: Vec<u8> = (0..8).collect();
    let g = clip_glyph_to_line(0, 3, 2, 4, &mask, 5).unwrap();
    assert_eq!((g.y, g.h), (3, 2));
    assert_eq!(g.mask, vec![0, 1, 2, 3]);
}

#[test]
fn clip_glyph_nothing_left() {
    let mask: Vec<u8> = (0..6).collect();
    assert!(clip_glyph_to_line(0, -3, 2, 3, &mask, 10).is_none());
    assert!(clip_glyph_to_line(0, 10, 2, 3, &mask, 10).is_none());
    assert!(clip_glyph_to_line(0, 0, 2, 0, &mask, 10).is_none());
}

#[test]
fn clip_glyph_starting_below_row_is_not_limited() {
    let mask: Vec<u8> = (0..6).collect();
    let g = clip_glyph_to_line(0, 12, 2, 3, &mask, 10).unwrap();
    assert_eq!((g.y, g.h), (12, 3));
}

#[test]
fn bitmap_gray_to_rgba() {
    // 2 by 2 pixels, pitch 3 (one padding byte per row)
    let buf = vec![10, 20, 99, 30, 40, 99];
    let rgba = bitmap_to_rgba(&buf, 2, 2, 3, BitmapMode::Gray);
    assert_eq!(rgba, vec![10, 10, 10, 10, 20, 20, 20, 20, 30, 30, 30, 30, 40, 40, 40, 40]);
}

#[test]
fn bitmap_mono_to_rgba() {
    // 3 by 1 pixels: bits 1 0 1
    let buf = vec![0b1010_0000];
    let rgba = bitmap_to_rgba(&buf, 3, 1, 1, BitmapMode::Mono);
    assert_eq!(rgba, vec![255, 255, 255, 255, 0, 0, 0, 0, 255, 255, 255, 255]);
}

#[test]
fn bitmap_mono_outside_buffer_is_clear() {
    let buf = vec![0xff];
    let rgba = bitmap_to_rgba(&buf, 1, 2, 1, BitmapMode::Mono);
    assert_eq!(rgba, vec![255, 255, 255, 255, 0, 0, 0, 0]);
}

#[test]
fn bitmap_other_mode_is_empty() {
    assert!(bitmap_to_rgba(&vec![1, 2, 3], 1, 1, 1, BitmapMode::Other).is_empty());
}

#[test]
fn clip_in_range_needs_only_kept_rows() {
    // A 2 by 4 glyph starting one row above a 2-row line keeps rows 1 and 2:
    // the mask must hold 3 rows, not 4.
    let mask = vec![1u8; 6];
    assert!(clip_in_range(-1, 2, 4, &mask, 2));
    let short = vec![1u8; 5];
    assert!(!clip_in_range(-1, 2, 4, &short, 2));
    assert!(!clip_in_range(i32::MIN, 2, 4, &mask, 2));
    // A glyph that is dropped needs no mask at all.
    assert!(clip_in_range(0, 2, 0, &vec![], 2));
}

#[test]
fn bitmap_in_range_checks_rows() {
    assert!(bitmap_in_range(&vec![0u8; 4], 2, 2, 2, BitmapMode::Gray));
    assert!(!bitmap_in_range(&vec![0u8; 3], 2, 2, 2, BitmapMode::Gray));
    assert!(bitmap_in_range(&vec![0u8; 2], 8, 2, 1, BitmapMode::Mono));
    assert!(!bitmap_in_range(&vec![], 0x10000, 0x10000, 1, BitmapMode::Other));
}

#[test]
fn char_step_picks_fallback_and_advances() {
    assert_eq!(vibetty_screenshot::glyph::char_step(0, 10, 8), (true, 26));
    assert_eq!(vibetty_screenshot::glyph::char_step(42, 10, 8), (false, 18));
    assert_eq!(vibetty_screenshot::glyph::char_step(1, -8, 8), (false, 0));
}

#[test]
fn placement_checkers_catch_overflow() {
    assert!(glyph_x_offset_in_range(10, false, 8, 5, -2));
    assert!(!glyph_x_offset_in_range(i32::MAX, false, 8, 5, 1));
    assert!(!glyph_x_offset_in_range(0, true, i32::MIN, 1, 0));
    assert!(glyph_x_offset_in_range(i32::MAX - 1, true, 4, 10, 0));
    assert!(char_step_in_range(1, 0, i32::MAX));
    assert!(!char_step_in_range(0, 0, i32::MAX));
    assert!(!char_step_in_range(7, i32::MAX, 1));
}
