//! Painting a screen layout: background, title bar, cell rectangles and
//! rendered text runs, composited into the final image.

use vstd::prelude::*;
use crate::canvas::{
    composited, exact_fill_size, glyph_arith_fits, in_rect, lemma_composited_pixel, lemma_zero_pixel, rect_filled,
    title_bar_pixels, Canvas,
};
use crate::error::ScreenshotError;
use crate::glyph::{glyphs_pixel, mask_alpha, GlyphImage};
use crate::layout::{RectOp, ScreenLayout, TextOp};
use crate::pixmap::pixmap_fits;
use crate::raster::{pixel_at, spec_composite};
use crate::rgba::{rgba_pixels, rgba_size, RgbaBuffer};

verus! {

/// The background after the first `n` rectangles are painted onto `pixels`.
pub open spec fn rects_painted(rects: Seq<RectOp>, n: int, pixels: Seq<u8>, size: (u32, u32)) -> Seq<u8>
    decreases n,
{
    if n <= 0 {
        pixels
    } else {
        let r = rects[n - 1];
        rect_filled(rects_painted(rects, n - 1, pixels, size), size, rect_of(r), r.color@)
    }
}

/// A cell rectangle as `(x, y, width, height)`.
pub open spec fn rect_of(r: RectOp) -> (i32, i32, u32, u32) {
    (r.x, r.y, r.width, r.height)
}

/// Pixel `(x, y)` is painted neither by the title bar (when shown) nor by
/// any cell rectangle.
pub open spec fn background_untouched(l: ScreenLayout, x: int, y: int) -> bool {
    &&& (l.title_bar ==> y >= 32)
    &&& forall|k: int| 0 <= k < l.rects@.len() ==> !#[trigger] in_rect(rect_of(l.rects@[k]), x, y)
}

/// Pixel `(x, y)` of the background before the cell rectangles are
/// painted: with the title bar, (40, 40, 45) on rows 0 to 29 and
/// (60, 60, 65) on rows 30 and 31, both opaque; elsewhere transparent.
pub open spec fn title_bar_pixel(title_bar: bool, y: int) -> Seq<u8> {
    if title_bar && y < 30 {
        seq![40u8, 40u8, 45u8, 255u8]
    } else if title_bar && y < 32 {
        seq![60u8, 60u8, 65u8, 255u8]
    } else {
        seq![0u8, 0u8, 0u8, 0u8]
    }
}

/// Rectangle `k` is the last of the first `n` rectangles that covers pixel
/// `(x, y)`: it covers the pixel and no later one of them does.
pub open spec fn last_rect_covering(rects: Seq<RectOp>, k: int, n: int, x: int, y: int) -> bool {
    &&& 0 <= k < n
    &&& in_rect(rect_of(rects[k]), x, y)
    &&& forall|j: int| k < j < n ==> !#[trigger] in_rect(rect_of(rects[j]), x, y)
}

/// No glyph of any text run covers pixel `(x, y)`: each has alpha 0 there.
pub open spec fn text_uncovered(l: ScreenLayout, glyphs: Seq<Vec<GlyphImage>>, rgba: bool, x: int, y: int) -> bool {
    forall|i: int, j: int|
        0 <= i < l.texts@.len() && 0 <= j < glyphs[i]@.len() ==> #[trigger] mask_alpha(
            glyphs[i]@[j],
            rgba,
            y - (l.texts@[i].y + glyphs[i]@[j].y),
            x - (l.texts@[i].x + glyphs[i]@[j].x),
        ) == 0
}

/// The background of a screenshot: transparent, then the title bar (when
/// shown), then the cell rectangles in order.
pub open spec fn background_pixels(l: ScreenLayout) -> Seq<u8> {
    let clear = Seq::new((4 * l.width * l.height) as nat, |i: int| 0u8);
    let barred = if l.title_bar {
        title_bar_pixels(clear, l.width, l.height)
    } else {
        clear
    };
    rects_painted(l.rects@, l.rects@.len() as int, barred, (l.width, l.height))
}

/// Text-layer pixel `(x, y)` after the first `n` text runs are drawn, run
/// `i` with the glyphs `glyphs[i]` (masks of four bytes per pixel when
/// `rgba`, else of one), on a transparent layer.
pub open spec fn texts_pixel(
    texts: Seq<TextOp>,
    glyphs: Seq<Vec<GlyphImage>>,
    rgba: bool,
    n: int,
    x: int,
    y: int,
) -> Seq<u8>
    decreases n,
{
    if n <= 0 {
        seq![0u8, 0u8, 0u8, 0u8]
    } else {
        let t = texts[n - 1];
        glyphs_pixel(
            glyphs[n - 1]@,
            glyphs[n - 1]@.len() as int,
            rgba,
            t.x as int,
            t.y as int,
            t.color@,
            x,
            y,
            texts_pixel(texts, glyphs, rgba, n - 1, x, y),
        )
    }
}

/// Drawing every text run with its glyphs does no `i32` arithmetic that
/// overflows.
pub open spec fn glyph_runs_fit(l: ScreenLayout, glyphs: Seq<Vec<GlyphImage>>, rgba: bool) -> bool {
    forall|i: int, j: int|
        0 <= i < l.texts@.len() && 0 <= j < glyphs[i]@.len() ==> #[trigger] glyph_arith_fits(
            glyphs[i]@[j],
            l.texts@[i].x as int,
            l.texts@[i].y as int,
            l.width as int,
            l.height as int,
            rgba,
        )
}

/// Paint a layout: a transparent canvas of the layout's size, the title bar
/// when shown, each cell rectangle, and
/// each text run `i` from its rendered glyphs `glyphs[i]` (drawn as
/// `draw_text_freetype` draws them when `rgba_masks`, else as
/// `draw_text_swash`); then the text
/// layer composited over the background. The background is transparent:
/// on a canvas of less than 2^24 pixels each way, a pixel that no glyph
/// covers and that neither the title bar nor a cell rectangle paints is
/// `(0, 0, 0, 0)` in the image; a title-bar pixel that no glyph covers
/// and no cell rectangle paints has the title bar's colour
/// (`title_bar_pixel`); and a pixel that no glyph covers, whose last cell
/// rectangle has an opaque colour, has that colour. Fails, with
/// `CanvasError("Failed to create pixmap")`, exactly when the canvas size
/// is refused.
pub fn render_layout(
    layout: &ScreenLayout,
    char_width: u32,
    char_height: u32,
    glyphs: &Vec<Vec<GlyphImage>>,
    rgba_masks: bool,
) -> (r: Result<RgbaBuffer, ScreenshotError>)
    requires
        glyphs@.len() == layout.texts@.len(),
        glyph_runs_fit(*layout, glyphs@, rgba_masks),
    ensures
        r is Ok <==> pixmap_fits(layout.width, layout.height),
        r matches Err(e) ==> (e matches ScreenshotError::CanvasError(s) && s@ == "Failed to create pixmap"@),
        r matches Ok(img) ==> {
            &&& rgba_size(img) == (layout.width, layout.height)
            &&& rgba_pixels(img).len() == 4 * layout.width * layout.height
            &&& forall|x: int, y: int|
                0 <= x < layout.width && 0 <= y < layout.height ==> #[trigger] pixel_at(
                    rgba_pixels(img),
                    layout.width as int,
                    x,
                    y,
                ) == spec_composite(
                    texts_pixel(layout.texts@, glyphs@, rgba_masks, layout.texts@.len() as int, x, y),
                    pixel_at(background_pixels(*layout), layout.width as int, x, y),
                )
            &&& exact_fill_size(layout.width, layout.height) ==> forall|x: int, y: int|
                0 <= x < layout.width && 0 <= y < layout.height && background_untouched(*layout, x, y)
                    && text_uncovered(*layout, glyphs@, rgba_masks, x, y) ==> #[trigger] pixel_at(
                    rgba_pixels(img),
                    layout.width as int,
                    x,
                    y,
                ) == seq![0u8, 0u8, 0u8, 0u8]
            &&& exact_fill_size(layout.width, layout.height) ==> forall|x: int, y: int|
                0 <= x < layout.width && 0 <= y < layout.height && (forall|k: int|
                    0 <= k < layout.rects@.len() ==> !#[trigger] in_rect(rect_of(layout.rects@[k]), x, y))
                    && text_uncovered(*layout, glyphs@, rgba_masks, x, y) ==> #[trigger] pixel_at(
                    rgba_pixels(img),
                    layout.width as int,
                    x,
                    y,
                ) == title_bar_pixel(layout.title_bar, y)
            &&& exact_fill_size(layout.width, layout.height) ==> forall|k: int, x: int, y: int|
                #![trigger last_rect_covering(layout.rects@, k, layout.rects@.len() as int, x, y)]
                0 <= x < layout.width && 0 <= y < layout.height && last_rect_covering(
                    layout.rects@,
                    k,
                    layout.rects@.len() as int,
                    x,
                    y,
                ) && layout.rects@[k].color[3] == 255 && text_uncovered(*layout, glyphs@, rgba_masks, x, y)
                    ==> pixel_at(rgba_pixels(img), layout.width as int, x, y) == layout.rects@[k].color@
        },
{
    let mut canvas = match Canvas::new(layout.width, layout.height) {
        Ok(c) => c,
        Err(e) => {
            return Err(ScreenshotError::CanvasError(e));
        },
    };
    let ghost w = layout.width as int;
    let ghost h = layout.height as int;
    let ghost zeros = canvas@.text;
    canvas.set_char_size(char_width, char_height);
    if layout.title_bar {
        canvas.draw_title_bar("", 0);
    }
    let ghost barred = canvas@.background;
    assert forall|px: int, py: int|
        exact_fill_size(layout.width, layout.height) && 0 <= px < w && 0 <= py < h implies #[trigger] pixel_at(
        canvas@.background,
        w,
        px,
        py,
    ) == title_bar_pixel(layout.title_bar, py) by {
        lemma_zero_pixel(w, h, px, py);
    }
    let mut i: usize = 0;
    while i < layout.rects.len()
        invariant
            canvas@.width == layout.width,
            canvas@.height == layout.height,
            canvas@.text == zeros,
            i <= layout.rects@.len(),
            canvas@.background == rects_painted(layout.rects@, i as int, barred, (layout.width, layout.height)),
            w == layout.width,
            h == layout.height,
            exact_fill_size(layout.width, layout.height) ==> forall|px: int, py: int|
                0 <= px < w && 0 <= py < h && (forall|k: int|
                    0 <= k < i ==> !#[trigger] in_rect(rect_of(layout.rects@[k]), px, py)) ==> #[trigger] pixel_at(
                    canvas@.background,
                    w,
                    px,
                    py,
                ) == title_bar_pixel(layout.title_bar, py),
            exact_fill_size(layout.width, layout.height) ==> forall|k: int, px: int, py: int|
                #![trigger last_rect_covering(layout.rects@, k, i as int, px, py)]
                0 <= px < w && 0 <= py < h && last_rect_covering(layout.rects@, k, i as int, px, py)
                    && layout.rects@[k].color[3] == 255 ==> pixel_at(canvas@.background, w, px, py)
                    == layout.rects@[k].color@,
        decreases layout.rects@.len() - i,
    {
        let r = &layout.rects[i];
        let ghost b0 = canvas@.background;
        canvas.fill_rect(r.x, r.y, r.width, r.height, r.color);
        assert forall|px: int, py: int|
            exact_fill_size(layout.width, layout.height) && 0 <= px < w && 0 <= py < h && (forall|k: int|
                0 <= k < i + 1 ==> !#[trigger] in_rect(rect_of(layout.rects@[k]), px, py)) implies #[trigger] pixel_at(
            canvas@.background,
            w,
            px,
            py,
        ) == title_bar_pixel(layout.title_bar, py) by {
            assert(!in_rect(rect_of(layout.rects@[i as int]), px, py));
            assert forall|k: int| 0 <= k < i implies !#[trigger] in_rect(rect_of(layout.rects@[k]), px, py) by {
                assert(0 <= k < i + 1);
            }
            assert(pixel_at(b0, w, px, py) == title_bar_pixel(layout.title_bar, py));
        }
        assert forall|k: int, px: int, py: int|
            #![trigger last_rect_covering(layout.rects@, k, i + 1, px, py)]
            exact_fill_size(layout.width, layout.height) && 0 <= px < w && 0 <= py < h && last_rect_covering(
                layout.rects@,
                k,
                i + 1,
                px,
                py,
            ) && layout.rects@[k].color[3] == 255 implies pixel_at(canvas@.background, w, px, py)
            == layout.rects@[k].color@ by {
            if k == i {
                assert(in_rect((r.x, r.y, r.width, r.height), px, py));
            } else {
                assert(!in_rect(rect_of(layout.rects@[i as int]), px, py));
                assert(last_rect_covering(layout.rects@, k, i as int, px, py));
                assert(pixel_at(b0, w, px, py) == layout.rects@[k].color@);
            }
        }
        i = i + 1;
    }
    assert(canvas@.background == background_pixels(*layout));
    assert forall|x: int, y: int| 0 <= x < w && 0 <= y < h implies #[trigger] pixel_at(canvas@.text, w, x, y)
        == texts_pixel(layout.texts@, glyphs@, rgba_masks, 0, x, y) by {
        lemma_zero_pixel(w, h, x, y);
    }
    let mut k: usize = 0;
    while k < layout.texts.len()
        invariant
            canvas@.width == layout.width,
            canvas@.height == layout.height,
            w == layout.width,
            h == layout.height,
            canvas@.background == background_pixels(*layout),
            zeros == Seq::new((4 * w * h) as nat, |i: int| 0u8),
            glyphs@.len() == layout.texts@.len(),
            glyph_runs_fit(*layout, glyphs@, rgba_masks),
            k <= layout.texts@.len(),
            forall|x: int, y: int|
                0 <= x < w && 0 <= y < h ==> #[trigger] pixel_at(canvas@.text, w, x, y) == texts_pixel(
                    layout.texts@,
                    glyphs@,
                    rgba_masks,
                    k as int,
                    x,
                    y,
                ),
        decreases layout.texts@.len() - k,
    {
        let t = &layout.texts[k];
        assert forall|j: int| 0 <= j < glyphs@[k as int]@.len() implies #[trigger] glyph_arith_fits(
            glyphs@[k as int]@[j],
            t.x as int,
            t.y as int,
            canvas@.width as int,
            canvas@.height as int,
            rgba_masks,
        ) by {
            assert(glyph_arith_fits(
                glyphs@[k as int]@[j],
                layout.texts@[k as int].x as int,
                layout.texts@[k as int].y as int,
                layout.width as int,
                layout.height as int,
                rgba_masks,
            ));
        }
        if rgba_masks {
            canvas.draw_text_freetype(&glyphs[k], t.x, t.y, t.color);
        } else {
            canvas.draw_text_swash(&glyphs[k], t.x, t.y, t.color);
        }
        k = k + 1;
    }
    proof {
        use_type_invariant(&canvas);
    }
    let ghost v = canvas@;
    match canvas.into_image() {
        Ok(img) => {
            assert forall|x: int, y: int| 0 <= x < w && 0 <= y < h implies #[trigger] pixel_at(
                rgba_pixels(img),
                w,
                x,
                y,
            ) == spec_composite(
                texts_pixel(layout.texts@, glyphs@, rgba_masks, layout.texts@.len() as int, x, y),
                pixel_at(background_pixels(*layout), w, x, y),
            ) by {
                lemma_composited_pixel(v, x, y);
            }
            assert forall|x: int, y: int|
                exact_fill_size(layout.width, layout.height) && 0 <= x < w && 0 <= y < h && background_untouched(
                    *layout,
                    x,
                    y,
                ) && text_uncovered(*layout, glyphs@, rgba_masks, x, y) implies #[trigger] pixel_at(rgba_pixels(img), w, x, y)
                == seq![0u8, 0u8, 0u8, 0u8] by {
                lemma_composited_pixel(v, x, y);
                assert forall|k: int| 0 <= k < layout.rects@.len() implies !#[trigger] in_rect(
                    rect_of(layout.rects@[k]),
                    x,
                    y,
                ) by {}
                assert(pixel_at(v.background, w, x, y) == seq![0u8, 0u8, 0u8, 0u8]);
                crate::laws::law_unpainted_pixel_transparent(*layout, glyphs@, rgba_masks, x, y);
            }
            assert forall|x: int, y: int|
                exact_fill_size(layout.width, layout.height) && 0 <= x < w && 0 <= y < h && (forall|k: int|
                    0 <= k < layout.rects@.len() ==> !#[trigger] in_rect(rect_of(layout.rects@[k]), x, y))
                    && text_uncovered(*layout, glyphs@, rgba_masks, x, y) implies #[trigger] pixel_at(
                rgba_pixels(img),
                w,
                x,
                y,
            ) == title_bar_pixel(layout.title_bar, y) by {
                lemma_composited_pixel(v, x, y);
                crate::laws::lemma_uncovered_text_pixel(layout.texts@, glyphs@, rgba_masks, layout.texts@.len() as int, x, y);
                crate::laws::law_composite_transparency(
                    texts_pixel(layout.texts@, glyphs@, rgba_masks, layout.texts@.len() as int, x, y),
                    pixel_at(v.background, w, x, y),
                );
            }
            assert forall|k: int, x: int, y: int|
                #![trigger last_rect_covering(layout.rects@, k, layout.rects@.len() as int, x, y)]
                exact_fill_size(layout.width, layout.height) && 0 <= x < w && 0 <= y < h && last_rect_covering(
                    layout.rects@,
                    k,
                    layout.rects@.len() as int,
                    x,
                    y,
                ) && layout.rects@[k].color[3] == 255 && text_uncovered(*layout, glyphs@, rgba_masks, x, y)
                implies pixel_at(rgba_pixels(img), w, x, y) == layout.rects@[k].color@ by {
                lemma_composited_pixel(v, x, y);
                crate::laws::lemma_uncovered_text_pixel(layout.texts@, glyphs@, rgba_masks, layout.texts@.len() as int, x, y);
                crate::laws::law_composite_transparency(
                    texts_pixel(layout.texts@, glyphs@, rgba_masks, layout.texts@.len() as int, x, y),
                    pixel_at(v.background, w, x, y),
                );
            }
            Ok(img)
        },
        Err(e) => Err(ScreenshotError::CanvasError(e)),
    }
}

} // verus!
