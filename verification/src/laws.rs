//! Properties of the library that span its functions.

use vstd::prelude::*;
use crate::glyph::{clip_dest_y, clip_keeps, clip_skip_top, clip_visible_rows, glyphs_pixel, mask_alpha, spec_glyph_x, GlyphImage};
use crate::capture::{background_pixels, rects_painted, texts_pixel};
use crate::layout::{
    cell_x, cell_y, laid_out, layout_fits, layout_height, layout_width, rect_view, rects_before, text_view, texts_before,
    title_height, title_texts, RectOp, ScreenLayout, TextOp,
};
use crate::raster::{blended_alpha, spec_blend, spec_composite, weighted_channel};
use crate::screen::{last_content_row_below, row_has_content, spec_rows_used, ScreenGrid};
use crate::theme::{Theme, cube_level, palette_entry, spec_bold_color, spec_color_to_rgba, spec_dim, spec_foreground, Color};

verus! {

/// A theme whose sixteen palette colours are opaque renders every colour
/// opaque, as foreground (with any attributes) and as background.
pub proof fn law_opaque_palette_opaque_colors(colors: [[u8; 4]; 16], color: Color, bold: bool, dim: bool)
    requires
        forall|i: int| 0 <= i < 16 ==> #[trigger] palette_entry(colors, i)[3] == 255,
    ensures
        spec_color_to_rgba(colors, color)[3] == 255,
        spec_foreground(colors, color, bold, dim)[3] == 255,
{
    match color {
        Color::Idx(i) => {
            if i < 16 {
                assert(palette_entry(colors, i as int)[3] == 255);
            }
            if i < 8 {
                assert(palette_entry(colors, i + 8)[3] == 255);
            }
        },
        Color::Default => {
            assert(palette_entry(colors, 15)[3] == 255);
        },
        _ => {},
    }
}

/// Colours 16-231 are the 6x6x6 cube: index `16 + 36 r + 6 g + b` is
/// `(51 r, 51 g, 51 b)`, opaque.
pub proof fn law_color_cube(colors: [[u8; 4]; 16], r: u8, g: u8, b: u8)
    requires
        r < 6,
        g < 6,
        b < 6,
    ensures
        spec_color_to_rgba(colors, Color::Idx((16 + 36 * r + 6 * g + b) as u8)) == seq![
            (51 * r) as u8,
            (51 * g) as u8,
            (51 * b) as u8,
            255u8,
        ],
{
    let i = (16 + 36 * r + 6 * g + b) as u8;
    let j = i - 16;
    assert(j == 36 * r + 6 * g + b);
    assert(j / 36 == r);
    assert(j / 6 == 6 * r + g);
    assert((j / 6) % 6 == g);
    assert(j % 6 == b);
    assert(cube_level(r as int) == (51 * r) as u8);
}

/// Colours 232-255 are the grey ramp: index `232 + k` is grey `10 k + 8`.
pub proof fn law_grey_ramp(colors: [[u8; 4]; 16], k: u8)
    requires
        k < 24,
    ensures
        spec_color_to_rgba(colors, Color::Idx((232 + k) as u8)) == seq![
            (10 * k + 8) as u8,
            (10 * k + 8) as u8,
            (10 * k + 8) as u8,
            255u8,
        ],
{
}

/// Bold turns the eight normal colours into their bright variants and the
/// default colour into bright white.
pub proof fn law_bold_brightens(colors: [[u8; 4]; 16], i: u8)
    requires
        i < 8,
    ensures
        spec_foreground(colors, Color::Idx(i), true, false) == palette_entry(colors, i + 8),
        spec_foreground(colors, Color::Default, true, false) == palette_entry(colors, 15),
{
}

/// Without attributes the foreground colour is the colour's RGBA value,
/// the same as the background colour.
pub proof fn law_plain_foreground(colors: [[u8; 4]; 16], color: Color)
    ensures
        spec_foreground(colors, color, false, false) == spec_color_to_rgba(colors, color),
{
}

/// Dim halves each channel toward grey 30 (`c / 2 + 15`, so within
/// 15..=142) and keeps alpha.
pub proof fn law_dim_halves(colors: [[u8; 4]; 16], color: Color, bold: bool)
    ensures
        ({
            let c = spec_bold_color(colors, color, bold);
            let d = spec_foreground(colors, color, bold, true);
            &&& forall|k: int| 0 <= k < 3 ==> #[trigger] d[k] == c[k] / 2 + 15 && 15 <= d[k] <= 142
            &&& d[3] == c[3]
        }),
{
    let c = spec_bold_color(colors, color, bold);
    let d = spec_foreground(colors, color, bold, true);
    assert(c.len() == 4) by {
        match color {
            Color::Idx(i) => {
                if i < 16 {
                    assert(palette_entry(colors, i as int).len() == 4);
                }
                if i < 8 {
                    assert(palette_entry(colors, i + 8).len() == 4);
                }
            },
            Color::Default => {
                assert(palette_entry(colors, 15).len() == 4);
            },
            _ => {},
        }
    }
    assert(d == spec_dim(c));
}

/// Full coverage paints the colour, opaque, whatever was below.
pub proof fn law_full_coverage_paints_color(color: Seq<u8>, dst: Seq<u8>)
    ensures
        spec_blend(color, 255, dst) == seq![color[0], color[1], color[2], 255u8],
{
}

/// Straight alpha: coverage `a` painted onto a transparent pixel gives the
/// colour itself with alpha `a`.
pub proof fn law_blend_onto_transparent(color: Seq<u8>, a: int, dst: Seq<u8>)
    requires
        color.len() == 4,
        dst.len() == 4,
        0 < a <= 255,
        dst[3] == 0,
    ensures
        spec_blend(color, a, dst) == seq![color[0], color[1], color[2], a as u8],
{
    if a < 255 {
        let t = a * 255;
        assert forall|c: int, d: int| 0 <= c <= 255 implies #[trigger] weighted_channel(c, t, d, 0) == c by {
            assert(d * 0 == 0);
            assert((c * t + (t + 0) / 2) / (t + 0) == c) by (nonlinear_arith)
                requires t > 0, 0 <= c;
        }
        assert(weighted_channel(color[0] as int, t, dst[0] as int, 0) == color[0]);
        assert(weighted_channel(color[1] as int, t, dst[1] as int, 0) == color[1]);
        assert(weighted_channel(color[2] as int, t, dst[2] as int, 0) == color[2]);
        assert(blended_alpha(a, 0) == a);
        assert(spec_blend(color, a, dst) =~= seq![color[0], color[1], color[2], a as u8]);
    }
}

/// Blending never lowers alpha: the result is at least the coverage and at
/// least the destination's alpha; and each colour channel lies between the
/// colour's and the destination's.
pub proof fn law_blend_bounds(color: Seq<u8>, a: int, dst: Seq<u8>)
    requires
        color.len() == 4,
        dst.len() == 4,
        0 < a <= 255,
    ensures
        spec_blend(color, a, dst)[3] >= a,
        spec_blend(color, a, dst)[3] >= dst[3],
        forall|k: int|
            0 <= k < 3 ==> {
                let v = #[trigger] spec_blend(color, a, dst)[k];
                (color[k] <= v <= dst[k]) || (dst[k] <= v <= color[k])
            },
{
    if a < 255 {
        crate::raster::lemma_blended_alpha_bounds(a, dst[3] as int);
        let src_w = a * 255;
        let dst_w = dst[3] as int * (255 - a);
        assert(0 <= dst_w) by (nonlinear_arith)
            requires dst_w == dst[3] as int * (255 - a), a <= 255, dst[3] >= 0;
        crate::raster::lemma_weighted_channel_bounds(color[0] as int, src_w, dst[0] as int, dst_w);
        crate::raster::lemma_weighted_channel_bounds(color[1] as int, src_w, dst[1] as int, dst_w);
        crate::raster::lemma_weighted_channel_bounds(color[2] as int, src_w, dst[2] as int, dst_w);
    }
}

/// The text layer only shows where it has alpha: a transparent text pixel
/// leaves the background as it is, any other gives an opaque pixel.
pub proof fn law_composite_transparency(text: Seq<u8>, bg: Seq<u8>)
    ensures
        text[3] == 0 ==> spec_composite(text, bg) == bg,
        text[3] > 0 ==> spec_composite(text, bg)[3] == 255,
{
}

/// A pixel that no glyph covers keeps its value when a run is drawn.
pub proof fn law_uncovered_pixel_unchanged(
    glyphs: Seq<GlyphImage>,
    n: int,
    rgba: bool,
    ox: int,
    oy: int,
    color: Seq<u8>,
    x: int,
    y: int,
    p: Seq<u8>,
)
    requires
        forall|i: int|
            0 <= i < n ==> #[trigger] mask_alpha(glyphs[i], rgba, y - (oy + glyphs[i].y), x - (ox + glyphs[i].x))
                == 0,
    ensures
        glyphs_pixel(glyphs, n, rgba, ox, oy, color, x, y, p) == p,
    decreases n,
{
    if n > 0 {
        law_uncovered_pixel_unchanged(glyphs, n - 1, rgba, ox, oy, color, x, y, p);
        assert(mask_alpha(glyphs[n - 1], rgba, y - (oy + glyphs[n - 1].y), x - (ox + glyphs[n - 1].x)) == 0);
    }
}

/// Drawing a run never lowers a pixel's alpha: the pixel stays four bytes
/// and its alpha after the run is at least its alpha before.
pub proof fn law_run_never_lowers_alpha(
    glyphs: Seq<GlyphImage>,
    n: int,
    rgba: bool,
    ox: int,
    oy: int,
    color: Seq<u8>,
    x: int,
    y: int,
    p: Seq<u8>,
)
    requires
        color.len() == 4,
        p.len() == 4,
    ensures
        glyphs_pixel(glyphs, n, rgba, ox, oy, color, x, y, p).len() == 4,
        p[3] <= glyphs_pixel(glyphs, n, rgba, ox, oy, color, x, y, p)[3],
    decreases n,
{
    if n > 0 {
        law_run_never_lowers_alpha(glyphs, n - 1, rgba, ox, oy, color, x, y, p);
        let q = glyphs_pixel(glyphs, n - 1, rgba, ox, oy, color, x, y, p);
        let g = glyphs[n - 1];
        let a = mask_alpha(g, rgba, y - (oy + g.y), x - (ox + g.x));
        if a > 0 {
            law_blend_bounds(color, a, q);
        }
    }
}

/// A transparent pixel reached by exactly one glyph of a run, with
/// coverage `a`, takes the run's colour with alpha `a`: straight-alpha
/// blending onto nothing keeps the colour exact.
pub proof fn law_single_glyph_onto_transparent(
    glyphs: Seq<GlyphImage>,
    n: int,
    k: int,
    rgba: bool,
    ox: int,
    oy: int,
    color: Seq<u8>,
    x: int,
    y: int,
    p: Seq<u8>,
)
    requires
        color.len() == 4,
        p.len() == 4,
        p[3] == 0,
        0 <= k < n,
        mask_alpha(glyphs[k], rgba, y - (oy + glyphs[k].y), x - (ox + glyphs[k].x)) > 0,
        forall|j: int|
            0 <= j < n && j != k ==> #[trigger] mask_alpha(glyphs[j], rgba, y - (oy + glyphs[j].y), x - (ox
                + glyphs[j].x)) == 0,
    ensures
        glyphs_pixel(glyphs, n, rgba, ox, oy, color, x, y, p) == seq![
            color[0],
            color[1],
            color[2],
            mask_alpha(glyphs[k], rgba, y - (oy + glyphs[k].y), x - (ox + glyphs[k].x)) as u8,
        ],
    decreases n,
{
    let a = mask_alpha(glyphs[k], rgba, y - (oy + glyphs[k].y), x - (ox + glyphs[k].x));
    if n - 1 == k {
        assert forall|i: int| 0 <= i < k implies #[trigger] mask_alpha(
            glyphs[i],
            rgba,
            y - (oy + glyphs[i].y),
            x - (ox + glyphs[i].x),
        ) == 0 by {
            assert(i != k);
        }
        law_uncovered_pixel_unchanged(glyphs, k, rgba, ox, oy, color, x, y, p);
        law_blend_onto_transparent(color, a, p);
    } else {
        law_single_glyph_onto_transparent(glyphs, n - 1, k, rgba, ox, oy, color, x, y, p);
        assert(mask_alpha(glyphs[n - 1], rgba, y - (oy + glyphs[n - 1].y), x - (ox + glyphs[n - 1].x)) == 0);
    }
}

/// Every shown cell lies inside the image: its box, one cell wide and one
/// cell high, ends within the image's width and height.
pub proof fn law_cells_inside_image(
    g: ScreenGrid,
    char_width: u32,
    char_height: u32,
    padding: u32,
    show_decorations: bool,
    row: int,
    col: int,
)
    requires
        layout_fits(g, char_width, char_height, padding, show_decorations),
        0 <= row < spec_rows_used(g),
        0 <= col < g.cols,
    ensures
        cell_x(padding as int, char_width as int, col) + char_width <= layout_width(g, char_width as int, padding as int),
        cell_y(title_height(show_decorations), padding as int, char_height as int, row) + char_height
            <= layout_height(g, char_height as int, padding as int, show_decorations),
{
    assert(col * (char_width as int) + char_width <= (g.cols as int) * (char_width as int)) by (nonlinear_arith)
        requires col + 1 <= g.cols, 0 <= char_width;
    assert(row * (char_height as int) + char_height <= spec_rows_used(g) * (char_height as int)) by (nonlinear_arith)
        requires row + 1 <= spec_rows_used(g), 0 <= char_height;
}

/// The image shows the rows through the last one with content: no later
/// row of the screen has content, and the last shown row has content
/// unless only the first row is shown.
pub proof fn law_rows_used_is_last_content_row(g: ScreenGrid)
    ensures
        1 <= spec_rows_used(g),
        spec_rows_used(g) <= g.rows || spec_rows_used(g) == 1,
        forall|row: int| spec_rows_used(g) <= row < g.rows ==> !#[trigger] row_has_content(g, row),
        spec_rows_used(g) > 1 ==> row_has_content(g, spec_rows_used(g) - 1),
{
    crate::screen::lemma_last_content_row_bound(g, g.rows as int);
}

/// A fallback (wide) glyph no wider than its cell allocation lies within
/// it: it starts at or after the pen and ends by the allocation's end.
pub proof fn law_fallback_glyph_centred(pen_x: int, cell_w: int, w: int, left: int)
    requires
        0 <= w <= cell_w,
    ensures
        pen_x <= spec_glyph_x(pen_x, true, cell_w, w, left),
        spec_glyph_x(pen_x, true, cell_w, w, left) + w <= pen_x + cell_w,
{
}

/// A clipped glyph starting within its text row stays within it: its top
/// is at or below the row's top and its bottom at or above the row's end.
pub proof fn law_clipped_glyph_within_row(y_offset: int, h: int, line_height: int)
    requires
        clip_keeps(y_offset, h, line_height),
        clip_dest_y(y_offset) <= line_height,
    ensures
        0 <= clip_dest_y(y_offset),
        clip_dest_y(y_offset) + clip_visible_rows(y_offset, h, line_height) <= line_height,
        clip_skip_top(y_offset) + clip_visible_rows(y_offset, h, line_height) <= h,
{
}

/// Text pixel `(x, y)` when no glyph of the first `n` runs covers it:
/// transparent.
pub proof fn lemma_uncovered_text_pixel(
    texts: Seq<crate::layout::TextOp>,
    glyphs: Seq<Vec<GlyphImage>>,
    rgba: bool,
    n: int,
    x: int,
    y: int,
)
    requires
        forall|i: int, j: int|
            0 <= i < n && 0 <= j < glyphs[i]@.len() ==> #[trigger] mask_alpha(
                glyphs[i]@[j],
                rgba,
                y - (texts[i].y + glyphs[i]@[j].y),
                x - (texts[i].x + glyphs[i]@[j].x),
            ) == 0,
    ensures
        crate::capture::texts_pixel(texts, glyphs, rgba, n, x, y) == seq![0u8, 0u8, 0u8, 0u8],
    decreases n,
{
    if n > 0 {
        lemma_uncovered_text_pixel(texts, glyphs, rgba, n - 1, x, y);
        let g = glyphs[n - 1]@;
        let t = texts[n - 1];
        assert forall|j: int| 0 <= j < g.len() implies #[trigger] mask_alpha(
            g[j],
            rgba,
            y - (t.y + g[j].y),
            x - (t.x + g[j].x),
        ) == 0 by {
            assert(mask_alpha(glyphs[n - 1]@[j], rgba, y - (texts[n - 1].y + glyphs[n - 1]@[j].y), x - (texts[n
                - 1].x + glyphs[n - 1]@[j].x)) == 0);
        }
        law_uncovered_pixel_unchanged(
            g,
            g.len() as int,
            rgba,
            t.x as int,
            t.y as int,
            t.color@,
            x,
            y,
            crate::capture::texts_pixel(texts, glyphs, rgba, n - 1, x, y),
        );
    }
}

/// A screenshot's background is transparent: a pixel that no glyph covers
/// and that neither the title bar nor a cell rectangle paints is
/// `(0, 0, 0, 0)` in the image.
pub proof fn law_unpainted_pixel_transparent(
    l: crate::layout::ScreenLayout,
    glyphs: Seq<Vec<GlyphImage>>,
    rgba: bool,
    x: int,
    y: int,
)
    requires
        glyphs.len() == l.texts@.len(),
        crate::raster::pixel_at(crate::capture::background_pixels(l), l.width as int, x, y) == seq![0u8, 0u8, 0u8, 0u8],
        forall|i: int, j: int|
            0 <= i < l.texts@.len() && 0 <= j < glyphs[i]@.len() ==> #[trigger] mask_alpha(
                glyphs[i]@[j],
                rgba,
                y - (l.texts@[i].y + glyphs[i]@[j].y),
                x - (l.texts@[i].x + glyphs[i]@[j].x),
            ) == 0,
    ensures
        spec_composite(
            crate::capture::texts_pixel(l.texts@, glyphs, rgba, l.texts@.len() as int, x, y),
            crate::raster::pixel_at(crate::capture::background_pixels(l), l.width as int, x, y),
        ) == seq![0u8, 0u8, 0u8, 0u8],
{
    lemma_uncovered_text_pixel(l.texts@, glyphs, rgba, l.texts@.len() as int, x, y);
}

/// The text a title shows: the title, or "Terminal" when there is none.
pub open spec fn shown_title(title: Option<String>) -> Seq<char> {
    match title {
        Some(t) => t@,
        None => "Terminal"@,
    }
}

/// The title enters a screenshot only as shown: without decorations no
/// title run is laid out, and two titles that show the same text (a
/// missing title shows "Terminal") lay out the same run.
pub proof fn law_title_only_as_shown(t1: Option<String>, t2: Option<String>, padding: int, show_decorations: bool)
    requires
        !show_decorations || shown_title(t1) == shown_title(t2),
    ensures
        title_texts(t1, padding, show_decorations) == title_texts(t2, padding, show_decorations),
{
}

/// The background after `n` rectangles depends on their views alone.
proof fn lemma_rects_painted_views(r1: Seq<RectOp>, r2: Seq<RectOp>, n: int, pixels: Seq<u8>, size: (u32, u32))
    requires
        n <= r1.len(),
        r1.len() == r2.len(),
        forall|i: int| 0 <= i < r1.len() ==> #[trigger] rect_view(r1[i]) == rect_view(r2[i]),
    ensures
        rects_painted(r1, n, pixels, size) == rects_painted(r2, n, pixels, size),
    decreases n,
{
    if n > 0 {
        lemma_rects_painted_views(r1, r2, n - 1, pixels, size);
        assert(rect_view(r1[n - 1]) == rect_view(r2[n - 1]));
    }
}

/// The text layer after `n` runs depends on the runs' views and glyphs alone.
proof fn lemma_texts_pixel_views(
    t1: Seq<TextOp>,
    t2: Seq<TextOp>,
    glyphs: Seq<Vec<GlyphImage>>,
    rgba: bool,
    n: int,
    x: int,
    y: int,
)
    requires
        n <= t1.len(),
        t1.len() == t2.len(),
        forall|i: int| 0 <= i < t1.len() ==> #[trigger] text_view(t1[i]) == text_view(t2[i]),
    ensures
        texts_pixel(t1, glyphs, rgba, n, x, y) == texts_pixel(t2, glyphs, rgba, n, x, y),
    decreases n,
{
    if n > 0 {
        lemma_texts_pixel_views(t1, t2, glyphs, rgba, n - 1, x, y);
        assert(text_view(t1[n - 1]) == text_view(t2[n - 1]));
    }
}

/// A screenshot is a function of its layout's views: two layouts of the
/// same size and title bar, with the same rectangles and the same text
/// runs (position, colour, text), paint the same background and, from the
/// same rendered glyphs, the same text layer, so `render_layout` gives
/// them the same image.
pub proof fn law_layout_determines_image(
    l1: ScreenLayout,
    l2: ScreenLayout,
    glyphs: Seq<Vec<GlyphImage>>,
    rgba: bool,
    x: int,
    y: int,
)
    requires
        l1.width == l2.width,
        l1.height == l2.height,
        l1.title_bar == l2.title_bar,
        l1.rects@.len() == l2.rects@.len(),
        forall|i: int| 0 <= i < l1.rects@.len() ==> #[trigger] rect_view(l1.rects@[i]) == rect_view(l2.rects@[i]),
        l1.texts@.len() == l2.texts@.len(),
        forall|i: int| 0 <= i < l1.texts@.len() ==> #[trigger] text_view(l1.texts@[i]) == text_view(l2.texts@[i]),
    ensures
        background_pixels(l1) == background_pixels(l2),
        texts_pixel(l1.texts@, glyphs, rgba, l1.texts@.len() as int, x, y) == texts_pixel(
            l2.texts@,
            glyphs,
            rgba,
            l2.texts@.len() as int,
            x,
            y,
        ),
{
    let clear = Seq::new((4 * l1.width * l1.height) as nat, |i: int| 0u8);
    let barred = if l1.title_bar {
        crate::canvas::title_bar_pixels(clear, l1.width, l1.height)
    } else {
        clear
    };
    lemma_rects_painted_views(l1.rects@, l2.rects@, l1.rects@.len() as int, barred, (l1.width, l1.height));
    lemma_texts_pixel_views(l1.texts@, l2.texts@, glyphs, rgba, l1.texts@.len() as int, x, y);
}

/// The title enters a screenshot only as it is shown. Two layouts of one
/// screen, laid out with the same cell size, padding, decorations and
/// theme, whose titles show the same text (a missing title shows
/// "Terminal"), or with decorations off, are the same: same size and
/// title bar, the same rectangles, the same text runs, and so the same
/// background and, from the same rendered glyphs, the same text layer;
/// `render_layout` then gives both the same image, or refuses both.
pub proof fn law_title_only_as_shown_in_image(
    l1: ScreenLayout,
    l2: ScreenLayout,
    grid: ScreenGrid,
    char_width: u32,
    char_height: u32,
    padding: u32,
    show_decorations: bool,
    t1: Option<String>,
    t2: Option<String>,
    theme: Theme,
    glyphs: Seq<Vec<GlyphImage>>,
    rgba: bool,
    x: int,
    y: int,
)
    requires
        laid_out(l1, grid, char_width, char_height, padding, show_decorations, t1, theme),
        laid_out(l2, grid, char_width, char_height, padding, show_decorations, t2, theme),
        !show_decorations || shown_title(t1) == shown_title(t2),
    ensures
        l1.width == l2.width,
        l1.height == l2.height,
        l1.title_bar == l2.title_bar,
        l1.rects@.len() == l2.rects@.len(),
        forall|i: int| 0 <= i < l1.rects@.len() ==> #[trigger] rect_view(l1.rects@[i]) == rect_view(l2.rects@[i]),
        l1.texts@.len() == l2.texts@.len(),
        forall|i: int| 0 <= i < l1.texts@.len() ==> #[trigger] text_view(l1.texts@[i]) == text_view(l2.texts@[i]),
        background_pixels(l1) == background_pixels(l2),
        texts_pixel(l1.texts@, glyphs, rgba, l1.texts@.len() as int, x, y) == texts_pixel(
            l2.texts@,
            glyphs,
            rgba,
            l2.texts@.len() as int,
            x,
            y,
        ),
{
    law_title_only_as_shown(t1, t2, padding as int, show_decorations);
    let th = title_height(show_decorations);
    let rects = rects_before(
        grid,
        theme,
        char_width as int,
        char_height as int,
        padding as int,
        th,
        spec_rows_used(grid),
        0,
    );
    let texts = title_texts(t1, padding as int, show_decorations) + texts_before(
        grid,
        theme,
        char_width as int,
        char_height as int,
        padding as int,
        th,
        spec_rows_used(grid),
        0,
    );
    assert forall|i: int| 0 <= i < l1.rects@.len() implies #[trigger] rect_view(l1.rects@[i]) == rect_view(
        l2.rects@[i],
    ) by {
        assert(rect_view(l1.rects@[i]) == rects[i]);
        assert(rect_view(l2.rects@[i]) == rects[i]);
    }
    assert forall|i: int| 0 <= i < l1.texts@.len() implies #[trigger] text_view(l1.texts@[i]) == text_view(
        l2.texts@[i],
    ) by {
        assert(text_view(l1.texts@[i]) == texts[i]);
        assert(text_view(l2.texts@[i]) == texts[i]);
    }
    law_layout_determines_image(l1, l2, glyphs, rgba, x, y);
}

/// Padding adds to both sides and the title bar adds 32 rows: with the
/// padding grown by `d`, the image is `2 d` wider and `2 d` taller, and
/// showing decorations makes it 32 taller, whatever else is the same.
pub proof fn law_padding_and_title_bar_size(
    grid: ScreenGrid,
    char_width: int,
    char_height: int,
    padding: int,
    d: int,
    show1: bool,
    show2: bool,
)
    ensures
        layout_width(grid, char_width, padding + d) == layout_width(grid, char_width, padding) + 2 * d,
        layout_height(grid, char_height, padding + d, show2) + title_height(show1) == layout_height(
            grid,
            char_height,
            padding,
            show1,
        ) + 2 * d + title_height(show2),
        title_height(show1) == if show1 {
            32int
        } else {
            0int
        },
{
}

/// The colour a cell's text is drawn in before dim: with bold, the default
/// colour becomes palette entry 15 and palette entries 0-7 become their
/// bright variants 8-15; every other colour, and every colour without
/// bold, is the colour itself.
pub open spec fn bold_adjusted(colors: [[u8; 4]; 16], color: Color, bold: bool) -> Seq<u8> {
    match color {
        Color::Default => if bold {
            colors@[15]@
        } else {
            seq![229u8, 229u8, 229u8, 255u8]
        },
        Color::Idx(i) => if bold && i < 8 {
            colors@[i + 8]@
        } else {
            spec_color_to_rgba(colors, color)
        },
        Color::Rgb(r, g, b) => seq![r, g, b, 255u8],
    }
}

/// Every shown cell with text (other than the second half of a wide
/// character) gives one text run, at the cell's corner, holding the cell's
/// text, in the cell's own foreground colour: the bold-adjusted colour,
/// and with dim each RGB channel `c` of it becomes `c / 2 + 15` (halfway
/// toward grey 30) while alpha is kept. A dim default-coloured cell is
/// drawn in (129, 129, 129).
pub proof fn law_text_run_colour(
    g: ScreenGrid,
    theme: Theme,
    cw: int,
    ch: int,
    padding: int,
    th: int,
    row: int,
    col: int,
)
    requires
        0 <= row < g.rows,
        0 <= col < g.cols,
        g.cell(row, col) is Some,
        g.cell(row, col)->0.has_contents,
        !g.cell(row, col)->0.is_wide_continuation,
    ensures
        ({
            let cell = g.cell(row, col)->0;
            let run = crate::layout::cell_text(g, theme, cw, ch, padding, th, row, col);
            let base = bold_adjusted(theme.colors, cell.fgcolor, cell.bold);
            &&& run.len() == 1
            &&& run[0].0 == cell.contents@
            &&& run[0].3.len() == 4
            &&& run[0].3[3] == base[3]
            &&& forall|k: int|
                0 <= k < 3 ==> #[trigger] run[0].3[k] == if cell.dim {
                    (base[k] / 2 + 15) as u8
                } else {
                    base[k]
                }
        }),
{
    let cell = g.cell(row, col)->0;
    let base = bold_adjusted(theme.colors, cell.fgcolor, cell.bold);
    assert(spec_bold_color(theme.colors, cell.fgcolor, cell.bold) == base);
}

/// A dim cell in the default colour, not bold, is drawn in (129, 129, 129).
pub proof fn law_dim_default_is_grey_129(colors: [[u8; 4]; 16])
    ensures
        spec_foreground(colors, Color::Default, false, true) == seq![129u8, 129u8, 129u8, 255u8],
{
    assert(spec_foreground(colors, Color::Default, false, true) =~= seq![129u8, 129u8, 129u8, 255u8]);
}

/// Text with any coverage shows, over every background whatever its
/// alpha: each channel of the result is
/// `(t * ta + b * (255 - ta) + 128) / 256` and the result is opaque.
pub proof fn law_composite_mixes_covered_text(text: Seq<u8>, bg: Seq<u8>)
    requires
        text.len() == 4,
        bg.len() == 4,
        text[3] > 0,
    ensures
        spec_composite(text, bg).len() == 4,
        spec_composite(text, bg)[3] == 255,
        forall|k: int|
            0 <= k < 3 ==> #[trigger] spec_composite(text, bg)[k] == ((text[k] * text[3] + bg[k] * (255 - text[3])
                + 128) / 256) as u8,
{
}

/// A cover-fit image that covers the canvas (at least as wide and as tall)
/// is cropped evenly: canvas pixel `(x, y)` is image pixel
/// `((nw - w) / 2 + x, (nh - h) / 2 + y)`, the offset in each direction half
/// the overflow in that direction.
pub proof fn law_cover_crop_centred(
    before: crate::canvas::CanvasView,
    pixels: Seq<u8>,
    nw: u32,
    nh: u32,
    after: crate::canvas::CanvasView,
    x: int,
    y: int,
)
    requires
        crate::canvas::cover_painted(before, pixels, nw, nh, after),
        before.width <= nw,
        before.height <= nh,
        0 <= x < before.width,
        0 <= y < before.height,
    ensures
        after.char_width == before.char_width,
        after.char_height == before.char_height,
        after.text == before.text,
        after.width == before.width,
        after.height == before.height,
        crate::raster::pixel_at(after.background, before.width as int, x, y) == crate::raster::pixel_at(
            pixels,
            nw as int,
            (nw - before.width) / 2 + x,
            (nh - before.height) / 2 + y,
        ),
{
}

/// Bold changes only the default colour and palette entries 0-7: every
/// other colour is drawn bold exactly as plain, under any palette (a bold
/// grey-ramp colour `232 + k` stays grey `10 k + 8`).
pub proof fn law_bold_keeps_other_colours(colors: [[u8; 4]; 16], color: Color)
    requires
        !(color is Default),
        !(color matches Color::Idx(i) && i < 8),
    ensures
        spec_foreground(colors, color, true, false) == spec_color_to_rgba(colors, color),
        color matches Color::Idx(i) ==> (i >= 232 ==> spec_foreground(colors, color, true, false) == seq![
            ((i - 232) * 10 + 8) as u8,
            ((i - 232) * 10 + 8) as u8,
            ((i - 232) * 10 + 8) as u8,
            255u8,
        ]),
{
}

/// The last row with content below `n` is at or after every row below `n`
/// that has content.
proof fn lemma_last_content_row_at_least(g: ScreenGrid, n: int, row: int)
    requires
        0 <= row < n,
        row_has_content(g, row),
    ensures
        row <= last_content_row_below(g, n),
    decreases n,
{
    if n - 1 != row && !row_has_content(g, n - 1) {
        lemma_last_content_row_at_least(g, n - 1, row);
    }
}

/// A cell holding text other than a single space is content whatever its
/// width: its row has content and is shown (`rows_used` is past it). A
/// row whose only text is a wide (CJK) character is kept.
pub proof fn law_text_cell_row_shown(g: ScreenGrid, row: int, col: int)
    requires
        0 <= row < g.rows,
        0 <= col < g.cols,
        g.cell(row, col) is Some,
        g.cell(row, col)->0.has_contents,
        g.cell(row, col)->0.contents@ != " "@,
    ensures
        row_has_content(g, row),
        row < spec_rows_used(g),
{
    assert(crate::screen::is_content(g.cell(row, col)));
    lemma_last_content_row_at_least(g, g.rows as int, row);
}

/// An image narrower or shorter than the canvas does not cover it and
/// leaves the canvas unchanged.
pub proof fn law_cover_needs_full_cover(
    before: crate::canvas::CanvasView,
    pixels: Seq<u8>,
    nw: u32,
    nh: u32,
    after: crate::canvas::CanvasView,
)
    requires
        crate::canvas::cover_painted(before, pixels, nw, nh, after),
        nw < before.width || nh < before.height,
    ensures
        after == before,
{
}

/// The colour values: the default colour is (229, 229, 229), palette
/// indices 0-15 read the palette, RGB colours are themselves, all but
/// palette entries opaque.
pub proof fn law_color_values(colors: [[u8; 4]; 16], color: Color)
    ensures
        color is Default ==> spec_color_to_rgba(colors, color) == seq![229u8, 229u8, 229u8, 255u8],
        color matches Color::Idx(i) ==> (i < 16 ==> spec_color_to_rgba(colors, color) == colors@[i as int]@),
        color matches Color::Rgb(r, g, b) ==> spec_color_to_rgba(colors, color) == seq![r, g, b, 255u8],
{
}

/// A cell gives no text run when it holds no text or is the second half
/// of a wide character, and no rectangle when its background is the
/// default colour; otherwise its rectangle is its box at
/// `(padding + col * cw, th + padding + row * ch)`, one cell high, two
/// cells wide for a wide character, in its background colour, and its
/// run starts at the same corner.
pub proof fn law_cell_rect_and_run(
    g: ScreenGrid,
    theme: Theme,
    cw: int,
    ch: int,
    padding: int,
    th: int,
    row: int,
    col: int,
)
    requires
        0 <= row < g.rows,
        0 <= col < g.cols,
        g.cell(row, col) is Some,
    ensures
        ({
            let cell = g.cell(row, col)->0;
            let rect = crate::layout::cell_rect(g, theme, cw, ch, padding, th, row, col);
            let run = crate::layout::cell_text(g, theme, cw, ch, padding, th, row, col);
            &&& (!cell.has_contents || cell.is_wide_continuation) ==> run.len() == 0
            &&& (cell.has_contents && !cell.is_wide_continuation) ==> run.len() == 1 && run[0].1 == (padding + col
                * cw) as i32 && run[0].2 == (th + padding + row * ch) as i32
            &&& cell.bgcolor is Default ==> rect.len() == 0
            &&& !(cell.bgcolor is Default) ==> {
                &&& rect.len() == 1
                &&& rect[0].0 == (padding + col * cw) as i32
                &&& rect[0].1 == (th + padding + row * ch) as i32
                &&& rect[0].2 == (if cell.is_wide {
                    2 * cw
                } else {
                    cw
                }) as u32
                &&& rect[0].3 == ch as u32
                &&& rect[0].4 == spec_color_to_rgba(theme.colors, cell.bgcolor)
            }
        }),
{
    let cell = g.cell(row, col)->0;
    if !(cell.bgcolor is Default) {
        assert((if cell.is_wide { cw * 2 } else { cw }) == (if cell.is_wide { 2 * cw } else { cw }));
    }
}

/// A row whose cells hold no text, or only single spaces, has no content.
pub proof fn law_blank_row_has_no_content(g: ScreenGrid, row: int)
    requires
        forall|col: int|
            0 <= col < g.cols ==> match #[trigger] g.cell(row, col) {
                Some(c) => !c.has_contents || c.contents@ == " "@,
                None => true,
            },
    ensures
        !row_has_content(g, row),
{
    assert forall|col: int| 0 <= col < g.cols implies !#[trigger] crate::screen::is_content(g.cell(row, col)) by {
        match g.cell(row, col) {
            Some(c) => {},
            None => {},
        }
    }
}

} // verus!
