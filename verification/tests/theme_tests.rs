use vibetty_screenshot::clamp;
use vibetty_screenshot::{Color, Theme};

#[test]
fn default_theme_palette() {
    let t = Theme::default();
    assert_eq!(t.colors[0], [0, 0, 0, 255]);
    assert_eq!(t.colors[1], [194, 54, 33, 255]);
    assert_eq!(t.colors[8], [128, 128, 128, 255]);
    assert_eq!(t.colors[15], [255, 255, 255, 255]);
}

#[test]
fn color_default_is_light_grey() {
    let t = Theme::default();
    assert_eq!(t.color_to_rgba(Color::Default), [229, 229, 229, 255]);
}

#[test]
fn color_palette_indices() {
    let t = Theme::default();
    for i in 0..16u8 {
        assert_eq!(t.color_to_rgba(Color::Idx(i)), t.colors[i as usize]);
    }
}

#[test]
fn color_cube() {
    let t = Theme::default();
    assert_eq!(t.color_to_rgba(Color::Idx(16)), [0, 0, 0, 255]);
    assert_eq!(t.color_to_rgba(Color::Idx(21)), [0, 0, 255, 255]);
    assert_eq!(t.color_to_rgba(Color::Idx(196)), [255, 0, 0, 255]);
    assert_eq!(t.color_to_rgba(Color::Idx(46)), [0, 255, 0, 255]);
    assert_eq!(t.color_to_rgba(Color::Idx(231)), [255, 255, 255, 255]);
    // 16 + 36*2 + 6*3 + 4 = 110
    assert_eq!(t.color_to_rgba(Color::Idx(110)), [102, 153, 204, 255]);
}

#[test]
fn color_grey_ramp() {
    let t = Theme::default();
    assert_eq!(t.color_to_rgba(Color::Idx(232)), [8, 8, 8, 255]);
    assert_eq!(t.color_to_rgba(Color::Idx(244)), [128, 128, 128, 255]);
    assert_eq!(t.color_to_rgba(Color::Idx(255)), [238, 238, 238, 255]);
}

#[test]
fn color_rgb() {
    let t = Theme::default();
    assert_eq!(t.color_to_rgba(Color::Rgb(1, 2, 3)), [1, 2, 3, 255]);
}

#[test]
fn custom_palette_is_used() {
    let mut t = Theme::default();
    t.colors[3] = [9, 8, 7, 6];
    assert_eq!(t.color_to_rgba(Color::Idx(3)), [9, 8, 7, 6]);
}

#[test]
fn foreground_plain_equals_background() {
    let t = Theme::default();
    for c in [Color::Default, Color::Idx(3), Color::Idx(100), Color::Idx(240), Color::Rgb(5, 6, 7)] {
        assert_eq!(t.get_foreground(c, false, false), t.color_to_rgba(c));
        assert_eq!(t.get_background(c), t.color_to_rgba(c));
    }
}

#[test]
fn foreground_bold_brightens() {
    let t = Theme::default();
    assert_eq!(t.get_foreground(Color::Idx(1), true, false), t.colors[9]);
    assert_eq!(t.get_foreground(Color::Idx(7), true, false), t.colors[15]);
    assert_eq!(t.get_foreground(Color::Default, true, false), [255, 255, 255, 255]);
    // Bright and extended colours are unchanged by bold.
    assert_eq!(t.get_foreground(Color::Idx(9), true, false), t.colors[9]);
    assert_eq!(t.get_foreground(Color::Idx(196), true, false), [255, 0, 0, 255]);
    assert_eq!(t.get_foreground(Color::Rgb(1, 2, 3), true, false), [1, 2, 3, 255]);
}

#[test]
fn foreground_dim_halves_toward_grey() {
    let t = Theme::default();
    // Red (194, 54, 33): c / 2 + 15
    assert_eq!(t.get_foreground(Color::Idx(1), false, true), [112, 42, 31, 255]);
    assert_eq!(t.get_foreground(Color::Default, false, true), [129, 129, 129, 255]);
    assert_eq!(t.get_foreground(Color::Rgb(0, 0, 0), false, true), [15, 15, 15, 255]);
    assert_eq!(t.get_foreground(Color::Rgb(255, 255, 255), false, true), [142, 142, 142, 255]);
    // Bold and dim together: bright variant, then dimmed.
    assert_eq!(t.get_foreground(Color::Idx(2), true, true), [57, 142, 57, 255]);
}

#[test]
fn default_theme_every_color_opaque() {
    let t = Theme::default();
    for i in 0..=255u8 {
        for (bold, dim) in [(false, false), (true, false), (false, true), (true, true)] {
            assert_eq!(t.get_foreground(Color::Idx(i), bold, dim)[3], 255);
        }
        assert_eq!(t.color_to_rgba(Color::Idx(i))[3], 255);
    }
}

#[test]
fn clamp_values() {
    assert_eq!(clamp(5, 1, 3), 3);
    assert_eq!(clamp(0, 1, 3), 1);
    assert_eq!(clamp(2, 1, 3), 2);
    assert_eq!(clamp(1, 1, 3), 1);
    assert_eq!(clamp(3, 1, 3), 3);
    // The lower bound is tested first.
    assert_eq!(clamp(5, 10, 3), 10);
    assert_eq!(clamp("m", "a", "k"), "k");
}
