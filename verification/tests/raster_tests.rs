use vibetty_screenshot::raster::{blend_pixel, composite_pixel};

#[test]
fn blend_full_coverage_paints_color() {
    assert_eq!(blend_pixel([10, 20, 30, 99], 255, [1, 2, 3, 4]), [10, 20, 30, 255]);
}

#[test]
fn blend_onto_transparent_keeps_color() {
    assert_eq!(blend_pixel([200, 100, 50, 255], 77, [0, 0, 0, 0]), [200, 100, 50, 77]);
    assert_eq!(blend_pixel([9, 9, 9, 255], 1, [123, 45, 67, 0]), [9, 9, 9, 1]);
}

#[test]
fn blend_half_red_over_blue() {
    // out_a = 128 + (127 * 255 + 127) / 255 = 255
    // r = (255 * 32640 + 32512) / 65025 = 128, b = (255 * 32385 + 32512) / 65025 = 127
    assert_eq!(blend_pixel([255, 0, 0, 255], 128, [0, 0, 255, 255]), [128, 0, 127, 255]);
}

#[test]
fn blend_over_half_transparent() {
    // dst_a = 100, alpha = 50: out_a = 50 + (205 * 100 + 127) / 255 = 130
    // src_w = 12750, dst_w = 20500, total = 33250
    // r = (255 * 12750 + 0 + 16625) / 33250 = 98
    let r = blend_pixel([255, 0, 0, 255], 50, [0, 0, 0, 100]);
    assert_eq!(r, [98, 0, 0, 130]);
}

#[test]
fn blend_alpha_never_drops() {
    for a in 1..=255u32 {
        for da in [0u8, 1, 100, 254, 255] {
            let r = blend_pixel([10, 200, 30, 255], a, [250, 5, 130, da]);
            assert!(r[3] as u32 >= a);
            assert!(r[3] >= da);
            assert!(r[0] >= 10 && r[0] <= 250);
            assert!(r[1] >= 5 && r[1] <= 200);
            assert!(r[2] >= 30 && r[2] <= 130);
        }
    }
}

#[test]
fn composite_transparent_text_keeps_background() {
    assert_eq!(composite_pixel([255, 255, 255, 0], [1, 2, 3, 4]), [1, 2, 3, 4]);
}

#[test]
fn composite_opaque_text() {
    // (255 * 255 + 0 + 128) >> 8 = 254
    assert_eq!(composite_pixel([255, 255, 255, 255], [0, 0, 0, 255]), [254, 254, 254, 255]);
    // Half alpha: (200 * 128 + 100 * 127 + 128) >> 8 = 150
    assert_eq!(composite_pixel([200, 0, 0, 128], [100, 0, 0, 7]), [150, 0, 0, 255]);
}
