use vibetty_screenshot::{Canvas, GlyphImage, RgbaBuffer};

fn px(img: &RgbaBuffer, x: u32, y: u32) -> [u8; 4] {
    img.image.get_pixel(x, y).0
}

#[test]
fn canvas_new_sizes() {
    let c = Canvas::new(4, 3).unwrap();
    assert_eq!(c.width(), 4);
    assert_eq!(c.height(), 3);
    assert_eq!(c.char_width(), 8);
    assert_eq!(c.char_height(), 16);
}

#[test]
fn canvas_new_refuses_empty() {
    match Canvas::new(0, 10) {
        Err(e) => assert_eq!(e, "Failed to create pixmap"),
        Ok(_) => panic!("a zero-width canvas was created"),
    }
    assert!(Canvas::new(10, 0).is_err());
    // A row of more than i32::MAX bytes is refused too.
    assert!(Canvas::new(u32::MAX / 4 + 1, 1).is_err());
}

#[test]
fn canvas_set_char_size() {
    let mut c = Canvas::new(2, 2).unwrap();
    c.set_char_size(9, 19);
    assert_eq!(c.char_width(), 9);
    assert_eq!(c.char_height(), 19);
}

#[test]
fn blank_canvas_is_transparent() {
    let c = Canvas::new(3, 2).unwrap();
    let img = c.into_image().unwrap();
    assert_eq!(img.image.dimensions(), (3, 2));
    for y in 0..2 {
        for x in 0..3 {
            assert_eq!(px(&img, x, y), [0, 0, 0, 0]);
        }
    }
}

#[test]
fn fill_paints_every_pixel() {
    let mut c = Canvas::new(3, 2).unwrap();
    c.fill([10, 20, 30, 255]);
    let img = c.into_image().unwrap();
    for y in 0..2 {
        for x in 0..3 {
            assert_eq!(px(&img, x, y), [10, 20, 30, 255]);
        }
    }
}

#[test]
fn fill_stores_premultiplied() {
    let mut c = Canvas::new(1, 1).unwrap();
    c.fill([200, 100, 0, 0]);
    let img = c.into_image().unwrap();
    assert_eq!(px(&img, 0, 0), [0, 0, 0, 0]);
}

#[test]
fn fill_rect_paints_inside_only() {
    let mut c = Canvas::new(6, 5).unwrap();
    c.fill([0, 0, 0, 255]);
    c.fill_rect(1, 2, 3, 2, [200, 10, 20, 255]);
    let img = c.into_image().unwrap();
    for y in 0..5u32 {
        for x in 0..6u32 {
            let inside = (1..4).contains(&x) && (2..4).contains(&y);
            let want = if inside { [200, 10, 20, 255] } else { [0, 0, 0, 255] };
            assert_eq!(px(&img, x, y), want, "pixel ({x}, {y})");
        }
    }
}

#[test]
fn fill_rect_clips_to_canvas() {
    let mut c = Canvas::new(4, 4).unwrap();
    c.fill_rect(-2, -2, 4, 4, [1, 2, 3, 255]);
    c.fill_rect(3, 3, 10, 10, [4, 5, 6, 255]);
    c.fill_rect(1, 1, 0, 3, [9, 9, 9, 255]);
    let img = c.into_image().unwrap();
    assert_eq!(px(&img, 0, 0), [1, 2, 3, 255]);
    assert_eq!(px(&img, 1, 1), [1, 2, 3, 255]);
    assert_eq!(px(&img, 2, 2), [0, 0, 0, 0]);
    assert_eq!(px(&img, 3, 3), [4, 5, 6, 255]);
}

#[test]
fn title_bar_colors() {
    let mut c = Canvas::new(5, 40).unwrap();
    c.fill([30, 30, 30, 255]);
    c.draw_title_bar("Terminal", 16);
    let img = c.into_image().unwrap();
    assert_eq!(px(&img, 0, 0), [40, 40, 45, 255]);
    assert_eq!(px(&img, 4, 29), [40, 40, 45, 255]);
    assert_eq!(px(&img, 2, 30), [60, 60, 65, 255]);
    assert_eq!(px(&img, 2, 31), [60, 60, 65, 255]);
    assert_eq!(px(&img, 2, 32), [30, 30, 30, 255]);
}

#[test]
fn draw_text_swash_blends_mask() {
    let mut c = Canvas::new(4, 4).unwrap();
    let glyph = GlyphImage { x: 1, y: 0, w: 2, h: 2, mask: vec![255, 0, 128, 77] };
    c.draw_text_swash(&vec![glyph], 0, 1, [200, 100, 50, 255]);
    let img = c.into_image().unwrap();
    // Text over a transparent background: (t * a + 128) >> 8, opaque.
    assert_eq!(px(&img, 1, 1), [199, 100, 50, 255]);
    assert_eq!(px(&img, 2, 1), [0, 0, 0, 0]);
    // coverage 128 onto transparent gives (200, 100, 50, 128) on the text layer
    assert_eq!(px(&img, 1, 2), [100, 50, 25, 255]);
    assert_eq!(px(&img, 2, 2), [60, 30, 15, 255]);
    assert_eq!(px(&img, 0, 0), [0, 0, 0, 0]);
}

#[test]
fn draw_text_swash_over_background() {
    let mut c = Canvas::new(2, 1).unwrap();
    c.fill([0, 0, 255, 255]);
    let glyph = GlyphImage { x: 0, y: 0, w: 2, h: 1, mask: vec![255, 0] };
    c.draw_text_swash(&vec![glyph], 0, 0, [255, 255, 255, 255]);
    let img = c.into_image().unwrap();
    assert_eq!(px(&img, 0, 0), [254, 254, 254, 255]);
    assert_eq!(px(&img, 1, 0), [0, 0, 255, 255]);
}

#[test]
fn draw_text_swash_clips_off_canvas() {
    let mut c = Canvas::new(2, 2).unwrap();
    let glyph = GlyphImage { x: -1, y: -1, w: 3, h: 3, mask: vec![255; 9] };
    c.draw_text_swash(&vec![glyph], 0, 0, [10, 20, 30, 255]);
    let img = c.into_image().unwrap();
    assert_eq!(px(&img, 0, 0), [10, 20, 30, 255]);
    assert_eq!(px(&img, 1, 1), [10, 20, 30, 255]);
}

#[test]
fn draw_text_swash_short_mask_is_skipped() {
    let mut c = Canvas::new(3, 1).unwrap();
    let glyph = GlyphImage { x: 0, y: 0, w: 3, h: 1, mask: vec![255] };
    c.draw_text_swash(&vec![glyph], 0, 0, [10, 20, 30, 255]);
    let img = c.into_image().unwrap();
    assert_eq!(px(&img, 0, 0), [10, 20, 30, 255]);
    assert_eq!(px(&img, 1, 0), [0, 0, 0, 0]);
}

#[test]
fn draw_text_swash_overlapping_glyphs_blend_in_order() {
    let mut c = Canvas::new(1, 1).unwrap();
    let a = GlyphImage { x: 0, y: 0, w: 1, h: 1, mask: vec![255] };
    let b = GlyphImage { x: 0, y: 0, w: 1, h: 1, mask: vec![128] };
    c.draw_text_swash(&vec![a, b], 0, 0, [0, 0, 255, 255]);
    let img = c.into_image().unwrap();
    assert_eq!(px(&img, 0, 0), [0, 0, 254, 255]);
}

#[test]
fn draw_text_freetype_reads_fourth_byte() {
    let mut c = Canvas::new(2, 1).unwrap();
    let glyph = GlyphImage { x: 0, y: 0, w: 2, h: 1, mask: vec![0, 0, 0, 255, 9, 9, 9, 0] };
    c.draw_text_freetype(&vec![glyph], 0, 0, [10, 20, 30, 255]);
    let img = c.into_image().unwrap();
    assert_eq!(px(&img, 0, 0), [10, 20, 30, 255]);
    assert_eq!(px(&img, 1, 0), [0, 0, 0, 0]);
}

#[test]
fn fill_background_resized_crops_centre() {
    let mut c = Canvas::new(2, 2).unwrap();
    // A 4 by 2 image: columns 1 and 2 are kept.
    let mut raw = Vec::new();
    for y in 0..2u8 {
        for x in 0..4u8 {
            raw.extend_from_slice(&[x, y, 7, 255]);
        }
    }
    let resized = RgbaBuffer { image: image::RgbaImage::from_raw(4, 2, raw).unwrap() };
    c.fill_background_resized(&resized);
    let img = c.into_image().unwrap();
    assert_eq!(px(&img, 0, 0), [1, 0, 7, 255]);
    assert_eq!(px(&img, 1, 0), [2, 0, 7, 255]);
    assert_eq!(px(&img, 0, 1), [1, 1, 7, 255]);
    assert_eq!(px(&img, 1, 1), [2, 1, 7, 255]);
}

#[test]
fn fill_background_resized_too_small_is_ignored() {
    let mut c = Canvas::new(3, 3).unwrap();
    c.fill([5, 5, 5, 255]);
    let resized = RgbaBuffer { image: image::RgbaImage::from_raw(2, 2, vec![255; 16]).unwrap() };
    c.fill_background_resized(&resized);
    let img = c.into_image().unwrap();
    assert_eq!(px(&img, 0, 0), [5, 5, 5, 255]);
}

#[test]
fn replace_text_layer_swaps_same_size() {
    let mut c = Canvas::new(2, 1).unwrap();
    let layer = RgbaBuffer { image: image::RgbaImage::from_raw(2, 1, vec![0, 0, 0, 0, 10, 20, 30, 255]).unwrap() };
    let old = c.replace_text_layer(layer).ok().unwrap();
    assert_eq!(old.image.as_raw(), &vec![0u8; 8]);
    let wrong = RgbaBuffer { image: image::RgbaImage::new(3, 1) };
    assert!(c.replace_text_layer(wrong).is_err());
    let img = c.into_image().unwrap();
    assert_eq!(px(&img, 1, 0), [10, 20, 30, 255]);
    assert_eq!(px(&img, 0, 0), [0, 0, 0, 0]);
}

#[test]
fn fill_rect_huge_rectangle_paints_on_canvas_part() {
    let mut c = Canvas::new(3, 2).unwrap();
    c.fill_rect(0, 0, u32::MAX, 10, [7, 8, 9, 255]);
    c.fill_rect(-5, 1, u32::MAX, u32::MAX, [1, 2, 3, 255]);
    let img = c.into_image().unwrap();
    assert_eq!(px(&img, 2, 0), [7, 8, 9, 255]);
    assert_eq!(px(&img, 0, 1), [1, 2, 3, 255]);
    assert_eq!(px(&img, 2, 1), [1, 2, 3, 255]);
}

#[test]
fn fill_rect_far_edge_past_i32_max() {
    let mut c = Canvas::new(2, 2).unwrap();
    c.fill_rect(1, 1, i32::MAX as u32, i32::MAX as u32, [4, 4, 4, 255]);
    let img = c.into_image().unwrap();
    assert_eq!(px(&img, 1, 1), [4, 4, 4, 255]);
    assert_eq!(px(&img, 0, 0), [0, 0, 0, 0]);
    assert_eq!(px(&img, 1, 0), [0, 0, 0, 0]);
}

#[test]
fn fill_background_scaled_resizes_then_crops() {
    let mut c = Canvas::new(4, 2).unwrap();
    // A 1 by 1 red image, scaled to 4 by 4 and cropped to the middle rows.
    let image = RgbaBuffer { image: image::RgbaImage::from_raw(1, 1, vec![255, 0, 0, 255]).unwrap() };
    c.fill_background_scaled(&image, 4, 4);
    let img = c.into_image().unwrap();
    for y in 0..2 {
        for x in 0..4 {
            assert_eq!(px(&img, x, y), [255, 0, 0, 255]);
        }
    }
}

#[test]
fn fill_background_cover_refuses_empty_image() {
    let mut c = Canvas::new(2, 2).unwrap();
    c.fill([9, 9, 9, 255]);
    let empty = RgbaBuffer { image: image::RgbaImage::new(0, 3) };
    assert!(!c.fill_background_cover(&empty, 2, 2));
    let red = RgbaBuffer { image: image::RgbaImage::from_raw(1, 1, vec![255, 0, 0, 255]).unwrap() };
    assert!(!c.fill_background_cover(&red, 0, 2));
    let img = c.into_image().unwrap();
    assert_eq!(px(&img, 1, 1), [9, 9, 9, 255]);
}

#[test]
fn fill_background_cover_paints_scaled_image() {
    let mut c = Canvas::new(2, 3).unwrap();
    let red = RgbaBuffer { image: image::RgbaImage::from_raw(1, 1, vec![0, 0, 255, 255]).unwrap() };
    assert_eq!(red.size(), (1, 1));
    assert!(c.fill_background_cover(&red, 3, 3));
    let img = c.into_image().unwrap();
    assert_eq!(px(&img, 0, 0), [0, 0, 255, 255]);
    assert_eq!(px(&img, 1, 2), [0, 0, 255, 255]);
}

#[test]
fn title_bar_rows_on_tall_canvas() {
    let mut c = Canvas::new(3, 40).unwrap();
    c.draw_title_bar("t", 0);
    let img = c.into_image().unwrap();
    assert_eq!(px(&img, 2, 0), [40, 40, 45, 255]);
    assert_eq!(px(&img, 2, 29), [40, 40, 45, 255]);
    assert_eq!(px(&img, 0, 30), [60, 60, 65, 255]);
    assert_eq!(px(&img, 1, 31), [60, 60, 65, 255]);
    assert_eq!(px(&img, 1, 32), [0, 0, 0, 0]);
    assert_eq!(px(&img, 0, 39), [0, 0, 0, 0]);
}

#[test]
fn fill_rect_one_pixel_column_takes_colour() {
    let mut c = Canvas::new(3, 3).unwrap();
    c.fill_rect(1, 0, 1, 3, [11, 22, 33, 255]);
    c.fill_rect(2, 2, 1, 1, [44, 55, 66, 255]);
    let img = c.into_image().unwrap();
    assert_eq!(px(&img, 1, 0), [11, 22, 33, 255]);
    assert_eq!(px(&img, 1, 2), [11, 22, 33, 255]);
    assert_eq!(px(&img, 2, 2), [44, 55, 66, 255]);
    assert_eq!(px(&img, 0, 1), [0, 0, 0, 0]);
    assert_eq!(px(&img, 2, 1), [0, 0, 0, 0]);
}

#[test]
fn fill_rect_on_wide_canvas_uses_exact_tiles() {
    // Wider than 8191 pixels: tiny-skia fills the rectangle tile by tile.
    let mut c = Canvas::new(8200, 3).unwrap();
    c.fill_rect(8188, 1, 6, 1, [10, 20, 30, 255]);
    c.fill_rect(8195, 0, 1, 3, [1, 2, 3, 255]);
    let img = c.into_image().unwrap();
    for x in 8188..8194 {
        assert_eq!(px(&img, x, 1), [10, 20, 30, 255]);
    }
    assert_eq!(px(&img, 8187, 1), [0, 0, 0, 0]);
    assert_eq!(px(&img, 8194, 1), [0, 0, 0, 0]);
    assert_eq!(px(&img, 8190, 0), [0, 0, 0, 0]);
    assert_eq!(px(&img, 8190, 2), [0, 0, 0, 0]);
    for y in 0..3 {
        assert_eq!(px(&img, 8195, y), [1, 2, 3, 255]);
        assert_eq!(px(&img, 8196, y), [0, 0, 0, 0]);
    }
}

#[test]
fn title_bar_on_tall_canvas_beyond_tile() {
    let mut c = Canvas::new(2, 8200).unwrap();
    c.draw_title_bar("", 0);
    c.fill_rect(0, 8190, 2, 4, [5, 6, 7, 255]);
    let img = c.into_image().unwrap();
    assert_eq!(px(&img, 1, 0), [40, 40, 45, 255]);
    assert_eq!(px(&img, 0, 31), [60, 60, 65, 255]);
    assert_eq!(px(&img, 0, 32), [0, 0, 0, 0]);
    assert_eq!(px(&img, 1, 8189), [0, 0, 0, 0]);
    assert_eq!(px(&img, 1, 8190), [5, 6, 7, 255]);
    assert_eq!(px(&img, 0, 8193), [5, 6, 7, 255]);
    assert_eq!(px(&img, 0, 8194), [0, 0, 0, 0]);
}
