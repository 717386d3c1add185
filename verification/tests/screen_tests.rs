use vibetty_screenshot::capture::render_layout;
use vibetty_screenshot::screen::CellView;
use vibetty_screenshot::{layout_in_range, layout_screen, Color, GlyphImage, ScreenGrid, Theme};

fn parse(rows: u16, cols: u16, input: &str) -> vt100::Screen {
    let mut p = vt100::Parser::new(rows, cols, 0);
    p.process(input.as_bytes());
    p.screen().clone()
}

fn cell(text: &str) -> CellView {
    CellView {
        contents: text.to_string(),
        has_contents: !text.is_empty(),
        is_wide: false,
        is_wide_continuation: false,
        fgcolor: Color::Default,
        bgcolor: Color::Default,
        bold: false,
        dim: false,
    }
}

#[test]
fn grid_from_screen_reads_cells() {
    let screen = parse(3, 4, "ab\r\n\x1b[31;42mc\x1b[0m");
    let g = ScreenGrid::from_screen(&screen);
    assert_eq!((g.rows, g.cols), (3, 4));
    assert_eq!(g.cells.len(), 12);
    let a = g.cells[0].as_ref().unwrap();
    assert_eq!(a.contents, "a");
    assert!(a.has_contents);
    let c = g.cells[4].as_ref().unwrap();
    assert_eq!(c.contents, "c");
    assert_eq!(c.fgcolor, Color::Idx(1));
    assert_eq!(c.bgcolor, Color::Idx(2));
    let empty = g.cells[3].as_ref().unwrap();
    assert!(!empty.has_contents);
}

#[test]
fn grid_from_screen_reads_attributes() {
    let screen = parse(1, 4, "\x1b[1mB\x1b[0m\x1b[2mD\x1b[0m\x1b[38;2;1;2;3mR");
    let g = ScreenGrid::from_screen(&screen);
    assert!(g.cells[0].as_ref().unwrap().bold);
    assert!(g.cells[1].as_ref().unwrap().dim);
    assert_eq!(g.cells[2].as_ref().unwrap().fgcolor, Color::Rgb(1, 2, 3));
}

#[test]
fn grid_from_screen_wide_characters() {
    let screen = parse(1, 4, "中");
    let g = ScreenGrid::from_screen(&screen);
    let first = g.cells[0].as_ref().unwrap();
    assert!(first.is_wide);
    assert_eq!(first.contents, "中");
    assert!(g.cells[1].as_ref().unwrap().is_wide_continuation);
}

#[test]
fn rows_used_skips_trailing_empty_rows() {
    let screen = parse(10, 5, "x\r\n\r\ny");
    let g = ScreenGrid::from_screen(&screen);
    assert_eq!(g.last_content_row(), 2);
    assert_eq!(g.rows_used(), 3);
}

#[test]
fn rows_used_ignores_spaces() {
    let screen = parse(4, 5, "x\r\n   ");
    let g = ScreenGrid::from_screen(&screen);
    assert_eq!(g.rows_used(), 1);
    let blank = parse(4, 5, "");
    assert_eq!(ScreenGrid::from_screen(&blank).rows_used(), 1);
}

#[test]
fn rows_used_of_empty_grid_is_one() {
    let g = ScreenGrid { rows: 0, cols: 0, cells: vec![] };
    assert_eq!(g.rows_used(), 1);
}

#[test]
fn layout_sizes_and_runs() {
    let mut cells = vec![Some(cell("a")), Some(cell("")), None, Some(cell("b"))];
    if let Some(c) = &mut cells[3] {
        c.bgcolor = Color::Idx(4);
        c.bold = true;
        c.fgcolor = Color::Idx(1);
    }
    let g = ScreenGrid { rows: 2, cols: 2, cells };
    let theme = Theme::default();
    assert!(layout_in_range(&g, 8, 16, 10, true));
    let l = layout_screen(&g, 8, 16, 10, true, &None, &theme);
    assert_eq!(l.width, 2 * 8 + 20);
    assert_eq!(l.height, 2 * 16 + 32 + 20);
    assert!(l.title_bar);
    assert_eq!(l.rects.len(), 1);
    let r = &l.rects[0];
    assert_eq!((r.x, r.y, r.width, r.height, r.color), (18, 32 + 10 + 16, 8, 16, theme.colors[4]));
    assert_eq!(l.texts.len(), 3);
    assert_eq!(l.texts[0].text, "Terminal");
    assert_eq!((l.texts[0].x, l.texts[0].y, l.texts[0].color), (18, 10, [220, 220, 220, 255]));
    assert_eq!((l.texts[1].text.as_str(), l.texts[1].x, l.texts[1].y), ("a", 10, 42));
    assert_eq!((l.texts[2].text.as_str(), l.texts[2].x, l.texts[2].y), ("b", 18, 58));
    assert_eq!(l.texts[2].color, theme.colors[9]);
}

#[test]
fn layout_without_decorations_and_with_title() {
    let g = ScreenGrid { rows: 1, cols: 1, cells: vec![Some(cell("z"))] };
    let theme = Theme::default();
    let l = layout_screen(&g, 5, 7, 0, false, &Some("t".to_string()), &theme);
    assert_eq!((l.width, l.height), (5, 7));
    assert!(!l.title_bar);
    assert_eq!(l.texts.len(), 1);
    let l = layout_screen(&g, 5, 7, 0, true, &Some("my title".to_string()), &theme);
    assert_eq!(l.texts[0].text, "my title");
    assert_eq!(l.height, 39);
}

#[test]
fn layout_wide_cells() {
    let mut c = cell("中");
    c.is_wide = true;
    c.bgcolor = Color::Rgb(1, 1, 1);
    let mut cont = cell("");
    cont.is_wide_continuation = true;
    let g = ScreenGrid { rows: 1, cols: 2, cells: vec![Some(c), Some(cont)] };
    let l = layout_screen(&g, 8, 16, 0, false, &None, &Theme::default());
    assert_eq!(l.rects.len(), 1);
    assert_eq!(l.rects[0].width, 16);
    assert_eq!(l.texts.len(), 1);
}

#[test]
fn layout_out_of_range() {
    let g = ScreenGrid { rows: 1, cols: 2, cells: vec![None, None] };
    assert!(!layout_in_range(&g, u32::MAX, 16, 0, false));
    assert!(!layout_in_range(&g, 8, 16, u32::MAX, false));
    let bad = ScreenGrid { rows: 2, cols: 2, cells: vec![None] };
    assert!(!layout_in_range(&bad, 8, 16, 0, false));
    let mut c = cell("x");
    c.is_wide = true;
    let wide = ScreenGrid { rows: 1, cols: 1, cells: vec![Some(c)] };
    assert!(!layout_in_range(&wide, u32::MAX / 2 + 1, 1, 0, false));
    assert!(layout_in_range(&g, u32::MAX / 2, 1, 0, false));
}

#[test]
fn render_layout_paints_background_rects_and_text() {
    let mut c = cell("a");
    c.bgcolor = Color::Rgb(0, 0, 200);
    let g = ScreenGrid { rows: 1, cols: 2, cells: vec![Some(c), None] };
    let theme = Theme::default();
    let l = layout_screen(&g, 2, 2, 1, false, &None, &theme);
    assert_eq!((l.width, l.height), (6, 4));
    let glyph = GlyphImage { x: 0, y: 0, w: 1, h: 1, mask: vec![255] };
    let img = render_layout(&l, 2, 2, &vec![vec![glyph]], false).ok().unwrap();
    assert_eq!(img.image.dimensions(), (6, 4));
    // The background is transparent.
    assert_eq!(img.image.get_pixel(0, 0).0, [0, 0, 0, 0]);
    assert_eq!(img.image.get_pixel(2, 1).0, [0, 0, 200, 255]);
    // text (229, 229, 229) over the cell background: (t * 255 + b * 0 + 128) >> 8
    assert_eq!(img.image.get_pixel(1, 1).0, [228, 228, 228, 255]);
    assert_eq!(img.image.get_pixel(3, 1).0, [0, 0, 0, 0]);
}

#[test]
fn render_layout_refuses_empty_image() {
    let g = ScreenGrid { rows: 1, cols: 0, cells: vec![] };
    let l = layout_screen(&g, 8, 0, 0, false, &None, &Theme::default());
    match render_layout(&l, 8, 0, &vec![], false) {
        Err(vibetty_screenshot::ScreenshotError::CanvasError(s)) => assert_eq!(s, "Failed to create pixmap"),
        _ => panic!("expected a canvas error"),
    }
}

#[test]
fn render_layout_title_bar() {
    let g = ScreenGrid { rows: 1, cols: 1, cells: vec![None] };
    let l = layout_screen(&g, 4, 4, 0, true, &None, &Theme::default());
    let glyphs: Vec<Vec<GlyphImage>> = vec![vec![]];
    let img = render_layout(&l, 4, 4, &glyphs, false).ok().unwrap();
    assert_eq!(img.image.dimensions(), (4, 36));
    assert_eq!(img.image.get_pixel(0, 0).0, [40, 40, 45, 255]);
    assert_eq!(img.image.get_pixel(0, 31).0, [60, 60, 65, 255]);
    assert_eq!(img.image.get_pixel(0, 33).0, [0, 0, 0, 0]);
}

#[test]
fn layout_cells_inside_image() {
    let screen = parse(5, 7, "\x1b[41mab\x1b[0m\r\n\x1b[44m中x\x1b[0m\r\n\r\nlast");
    let g = ScreenGrid::from_screen(&screen);
    let (cw, ch, pad) = (9u32, 17u32, 3u32);
    assert!(layout_in_range(&g, cw, ch, pad, true));
    let l = layout_screen(&g, cw, ch, pad, true, &None, &Theme::default());
    assert_eq!(g.rows_used(), 4);
    assert_eq!(l.height, 4 * ch + 32 + 2 * pad);
    assert_eq!(l.width, 7 * cw + 2 * pad);
    assert!(!l.rects.is_empty());
    for r in &l.rects {
        assert!(r.x >= 0 && r.y >= 0);
        assert!(r.x as u32 + cw <= l.width);
        assert!(r.y as u32 + r.height <= l.height);
    }
    for t in &l.texts[1..] {
        assert!(t.x as u32 + cw <= l.width);
        assert!(t.y as u32 + ch <= l.height);
    }
}

#[test]
fn render_layout_four_byte_masks() {
    let g = ScreenGrid { rows: 1, cols: 1, cells: vec![Some(cell("a"))] };
    let l = layout_screen(&g, 2, 2, 0, false, &None, &Theme::default());
    // Coverage in the fourth byte of each pixel, as FreeType masks hold it.
    let glyph = GlyphImage { x: 0, y: 0, w: 1, h: 1, mask: vec![0, 0, 0, 255] };
    let img = render_layout(&l, 2, 2, &vec![vec![glyph]], true).ok().unwrap();
    assert_eq!(img.image.get_pixel(0, 0).0, [228, 228, 228, 255]);
    assert_eq!(img.image.get_pixel(1, 0).0, [0, 0, 0, 0]);
    // Read as one-byte masks, the first byte (0) covers nothing.
    let glyph = GlyphImage { x: 0, y: 0, w: 1, h: 1, mask: vec![0, 0, 0, 255] };
    let img = render_layout(&l, 2, 2, &vec![vec![glyph]], false).ok().unwrap();
    assert_eq!(img.image.get_pixel(0, 0).0, [0, 0, 0, 0]);
}

#[test]
fn render_layout_unpainted_pixels_transparent() {
    let mut c = cell("");
    c.bgcolor = Color::Idx(1);
    let g2 = ScreenGrid { rows: 2, cols: 2, cells: vec![Some(c), None, None, Some(cell("z"))] };
    let l = layout_screen(&g2, 3, 3, 2, true, &None, &Theme::default());
    let glyphs: Vec<Vec<GlyphImage>> = l.texts.iter().map(|_| vec![]).collect();
    let img = render_layout(&l, 3, 3, &glyphs, false).ok().unwrap();
    let (w, h) = img.image.dimensions();
    let mut opaque = 0;
    for y in 32..h {
        for x in 0..w {
            let inside = l.rects.iter().any(|r| {
                (x as i64) >= r.x as i64 && (x as i64) < r.x as i64 + r.width as i64
                    && (y as i64) >= r.y as i64 && (y as i64) < r.y as i64 + r.height as i64
            });
            let p = img.image.get_pixel(x, y).0;
            if inside {
                opaque += 1;
                assert_eq!(p[3], 255);
            } else {
                assert_eq!(p, [0, 0, 0, 0]);
            }
        }
    }
    assert_eq!(opaque, 9);
}
