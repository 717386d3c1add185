//! Canvas for rendering terminal content to images: a background layer of
//! filled shapes (`tiny_skia`) and a transparent text layer (`image`),
//! composited at the end.

use vstd::prelude::*;
use crate::glyph::{glyph_pixel, glyphs_pixel, mask_alpha, GlyphImage};
use crate::pixmap::{
    filled_rect_pixels, pixmap_byte_len, pixmap_bytes, pixmap_copy_from, pixmap_fill, pixmap_fill_rect, pixmap_fits,
    pixmap_height, pixmap_new, pixmap_pixels, pixmap_size, pixmap_width, premultiplied_rgba8,
};
use crate::raster::{
    blend_pixel, composite_pixel, lemma_pixel_in_bounds, lemma_put_pixel, pixel_at, pixel_start,
    spec_composite,
};
use crate::rgba::{
    crop_region, rgba_byte_len, rgba_resize, triangle_resized, rgba_crop_bytes, rgba_dimensions, rgba_from_raw, rgba_get_pixel, rgba_new, rgba_pixels, rgba_put_pixel, rgba_raw_bytes,
    rgba_size, RgbaBuffer,
};

verus! {

broadcast use vstd::string::to_string_from_display_ensures_for_str;

/// Canvas for drawing shapes and text.
pub struct Canvas {
    background: tiny_skia::Pixmap,
    text_layer: RgbaBuffer,
    char_width: u32,
    char_height: u32,
}

/// What a canvas holds: its size, the bytes of both layers, and the cell
/// size used for text.
pub struct CanvasView {
    pub width: u32,
    pub height: u32,
    /// Background bytes (premultiplied RGBA, row-major).
    pub background: Seq<u8>,
    /// Text-layer bytes (straight RGBA, row-major).
    pub text: Seq<u8>,
    pub char_width: u32,
    pub char_height: u32,
}

impl View for Canvas {
    type V = CanvasView;

    closed spec fn view(&self) -> CanvasView {
        CanvasView {
            width: pixmap_size(self.background).0,
            height: pixmap_size(self.background).1,
            background: pixmap_pixels(self.background),
            text: rgba_pixels(self.text_layer),
            char_width: self.char_width,
            char_height: self.char_height,
        }
    }
}

/// A well-formed canvas view: a size that `tiny_skia` accepts, and both
/// layers holding four bytes per pixel.
pub open spec fn view_wf(v: CanvasView) -> bool {
    &&& pixmap_fits(v.width, v.height)
    &&& v.background.len() == 4 * v.width * v.height
    &&& v.text.len() == 4 * v.width * v.height
}

/// The straight-alpha text layer drawn over the background: pixel by pixel,
/// `spec_composite`.
pub open spec fn composited(v: CanvasView) -> Seq<u8> {
    Seq::new(
        v.background.len(),
        |i: int|
            spec_composite(
                v.text.subrange(i - i % 4, i - i % 4 + 4),
                v.background.subrange(i - i % 4, i - i % 4 + 4),
            )[i % 4],
    )
}

/// The start of `[start, ..)` clipped to `[0, ..)`.
pub open spec fn span_lo(start: int) -> int {
    if start < 0 {
        0
    } else {
        start
    }
}

/// The end of `[.., start + len)` clipped to `[.., limit)`.
pub open spec fn span_hi(start: int, len: int, limit: int) -> int {
    if start + len < limit {
        start + len
    } else {
        limit
    }
}

/// The rectangle `(x, y, width, height)` clipped to a canvas of `size`:
/// `Some` of the part that lies on the canvas, `None` when none does.
pub open spec fn clipped_rect(size: (u32, u32), rect: (i32, i32, u32, u32)) -> Option<(i32, i32, u32, u32)> {
    let x0 = span_lo(rect.0 as int);
    let x1 = span_hi(rect.0 as int, rect.2 as int, size.0 as int);
    let y0 = span_lo(rect.1 as int);
    let y1 = span_hi(rect.1 as int, rect.3 as int, size.1 as int);
    if x0 < x1 && y0 < y1 {
        Some((x0 as i32, y0 as i32, (x1 - x0) as u32, (y1 - y0) as u32))
    } else {
        None
    }
}

/// The background after `fill_rect(rect, color)`: `Pixmap::fill_rect` of
/// the rectangle's part on the canvas; unchanged when no part is on it.
pub open spec fn rect_filled(background: Seq<u8>, size: (u32, u32), rect: (i32, i32, u32, u32), color: Seq<u8>) -> Seq<u8> {
    match clipped_rect(size, rect) {
        Some(c) => filled_rect_pixels(background, size, c, color),
        None => background,
    }
}

/// Pixel `(px, py)` lies in the rectangle `(x, y, width, height)`.
pub open spec fn in_rect(rect: (i32, i32, u32, u32), px: int, py: int) -> bool {
    &&& rect.0 <= px < rect.0 + rect.2
    &&& rect.1 <= py < rect.1 + rect.3
}

/// A canvas less than 2^24 pixels each way, where `tiny_skia` fills a
/// rectangle with integer edges exactly: every other pixel is left alone,
/// and an opaque colour fills the rectangle as it is.
pub open spec fn exact_fill_size(width: u32, height: u32) -> bool {
    width < 0x100_0000 && height < 0x100_0000
}

/// The background after the title bar is drawn: a 32-pixel band in
/// (40, 40, 45) across the top, then a 2-pixel line in (60, 60, 65) at its
/// bottom edge.
pub open spec fn title_bar_pixels(background: Seq<u8>, width: u32, height: u32) -> Seq<u8> {
    let band = rect_filled(background, (width, height), (0, 0, width, 32), seq![40u8, 40u8, 45u8, 255u8]);
    rect_filled(band, (width, height), (0, 30, width, 2), seq![60u8, 60u8, 65u8, 255u8])
}

/// Row `row` of a glyph drawn at `dy` is reached by the one-byte-mask
/// loop without `i32` overflow: `row * w` and `dy + row` fit.
pub open spec fn mask_row_fits(g: GlyphImage, dy: int, row: int) -> bool {
    &&& i32::MIN <= row * g.w <= i32::MAX
    &&& dy + row <= i32::MAX
}

/// `dx + col` fits `i32`.
pub open spec fn col_fits(dx: int, col: int) -> bool {
    dx + col <= i32::MAX
}

/// The RGBA-mask loop at `(row, col)`: `dy + row` fits, and so does the
/// mask offset `(row * w + col) * 4` when the pixel lies on the canvas.
pub open spec fn rgba_cell_fits(g: GlyphImage, dx: int, dy: int, width: int, height: int, row: int, col: int) -> bool {
    &&& dy + row <= i32::MAX
    &&& (0 <= dx + col < width && 0 <= dy + row < height ==> (row * g.w + col) * 4 <= i32::MAX)
}

/// The inputs on which drawing glyph `g` at `(ox, oy)` does no `i32`
/// arithmetic that overflows, in the loop for one-byte masks or, with
/// `rgba`, in the loop for four-byte masks.
pub open spec fn glyph_arith_fits(g: GlyphImage, ox: int, oy: int, width: int, height: int, rgba: bool) -> bool {
    let dx = ox + g.x;
    let dy = oy + g.y;
    &&& i32::MIN <= dx <= i32::MAX
    &&& i32::MIN <= dy <= i32::MAX
    &&& if !rgba {
        &&& forall|row: int| 0 <= row < g.h ==> #[trigger] mask_row_fits(g, dy, row)
        &&& forall|col: int| 0 <= col < g.w && g.h > 0 && dy < height && 0 < dy + g.h
            ==> #[trigger] col_fits(dx, col)
    } else {
        &&& forall|col: int| 0 <= col < g.w && g.h > 0 ==> #[trigger] col_fits(dx, col)
        &&& forall|row: int, col: int|
            0 <= row < g.h && 0 <= col < g.w ==> #[trigger] rgba_cell_fits(g, dx, dy, width, height, row, col)
    }
}

/// The canvas `after` is `before` with an `nw` by `nh` image of `pixels`
/// painted as its background, cropped evenly from both sides:
/// `crop_region` at `((nw - width) / 2, (nh - height) / 2)`, differences
/// saturating at 0. When the crop does not cover the canvas, nothing
/// changes.
pub open spec fn cover_painted(before: CanvasView, pixels: Seq<u8>, nw: u32, nh: u32, after: CanvasView) -> bool {
    let w = before.width;
    let h = before.height;
    let off_x = (if nw > w { nw - w } else { 0 }) / 2;
    let off_y = (if nh > h { nh - h } else { 0 }) / 2;
    let (cx, cy, cw, ch) = crop_region(nw, nh, off_x as u32, off_y as u32, w, h);
    if cw == w && ch == h {
        &&& after == (CanvasView { background: after.background, ..before })
        &&& forall|x: int, y: int|
            0 <= x < w && 0 <= y < h ==> #[trigger] pixel_at(after.background, w as int, x, y) == pixel_at(
                pixels,
                nw as int,
                cx + x,
                cy + y,
            )
    } else {
        after == before
    }
}

impl Canvas {
    /// The layers agree in size.
    pub closed spec fn layers_agree(&self) -> bool {
        rgba_size(self.text_layer) == pixmap_size(self.background)
    }

    /// A canvas as `new` makes it and every method keeps it.
    #[verifier::type_invariant]
    pub open spec fn wf(&self) -> bool {
        &&& self.layers_agree()
        &&& view_wf(self@)
    }

    /// Create a new canvas with the given dimensions: both layers
    /// transparent, cells of 8 by 16. Fails, with "Failed to create
    /// pixmap", exactly when `tiny_skia` refuses the size.
    pub fn new(width: u32, height: u32) -> (r: Result<Self, String>)
        ensures
            r is Ok <==> pixmap_fits(width, height),
            r matches Ok(c) ==> {
                &&& c@.width == width
                &&& c@.height == height
                &&& c@.background == Seq::new((4 * width * height) as nat, |i: int| 0u8)
                &&& c@.text == Seq::new((4 * width * height) as nat, |i: int| 0u8)
                &&& c@.char_width == 8
                &&& c@.char_height == 16
            },
            r matches Err(e) ==> e@ == "Failed to create pixmap"@,
    {
        let background = match pixmap_new(width, height) {
            Some(p) => p,
            None => {
                return Err("Failed to create pixmap".to_string());
            },
        };
        let text_layer = rgba_new(width, height);
        Ok(Canvas { background, text_layer, char_width: 8, char_height: 16 })
    }

    /// Set character size for text rendering.
    pub fn set_char_size(&mut self, width: u32, height: u32)
        ensures
            final(self)@ == (CanvasView { char_width: width, char_height: height, ..old(self)@ }),
    {
        proof {
            use_type_invariant(&*self);
        }
        self.char_width = width;
        self.char_height = height;
    }

    /// Get character width.
    pub fn char_width(&self) -> (r: u32)
        ensures
            r == self@.char_width,
    {
        self.char_width
    }

    /// Get character height.
    pub fn char_height(&self) -> (r: u32)
        ensures
            r == self@.char_height,
    {
        self.char_height
    }

    /// Get the canvas width.
    pub fn width(&self) -> (r: u32)
        ensures
            r == self@.width,
    {
        pixmap_width(&self.background)
    }

    /// Get the canvas height.
    pub fn height(&self) -> (r: u32)
        ensures
            r == self@.height,
    {
        pixmap_height(&self.background)
    }

    /// Fill the entire background with a colour (premultiplied as
    /// `tiny_skia` stores it; an opaque colour is stored as given).
    pub fn fill(&mut self, color: [u8; 4])
        ensures
            final(self)@ == (CanvasView {
                background: Seq::new(old(self)@.background.len(), |i: int| premultiplied_rgba8(color@)[i % 4]),
                ..old(self)@
            }),
            color[3] == 255 ==> final(self)@.background == Seq::new(
                old(self)@.background.len(),
                |i: int| color@[i % 4],
            ),
    {
        proof {
            use_type_invariant(&*self);
        }
        pixmap_fill(&mut self.background, color);
    }

    /// Paint an image, already scaled to cover the canvas (at least as
    /// wide and as tall, aspect ratio kept), as the background: its
    /// overflow is cropped evenly from both sides, and the cropped straight
    /// RGBA bytes are written into the background as they are (see
    /// `cover_painted`). When the cropped bytes do not fill the background
    /// exactly, it is left unchanged.
    pub fn fill_background_resized(&mut self, resized: &RgbaBuffer)
        ensures
            cover_painted(old(self)@, rgba_pixels(*resized), rgba_size(*resized).0, rgba_size(*resized).1, final(self)@),
    {
        proof {
            use_type_invariant(&*self);
        }
        let cw = self.width();
        let ch = self.height();
        let (nw, nh) = rgba_dimensions(resized);
        let off_x = nw.saturating_sub(cw) / 2;
        let off_y = nh.saturating_sub(ch) / 2;
        let src = rgba_crop_bytes(resized, off_x, off_y, cw, ch);
        let dst_len = pixmap_byte_len(&self.background);
        if dst_len == src.len() {
            let ghost region = crop_region(nw, nh, off_x, off_y, cw, ch);
            proof {
                lemma_crop_fills(cw as int, ch as int, region.2 as int, region.3 as int);
            }
            pixmap_copy_from(&mut self.background, &src);
        }
    }

    /// Paint `image` as the background with a "cover" fit, given the size
    /// `(nw, nh)` that covers the canvas: `imageops::resize` (triangle
    /// filter) scales the image to `(nw, nh)`, and the result is cropped
    /// and written as `fill_background_resized` does.
    pub fn fill_background_scaled(&mut self, image: &RgbaBuffer, nw: u32, nh: u32)
        requires
            0 < rgba_size(*image).0,
            0 < rgba_size(*image).1,
            0 < nw,
            0 < nh,
            16 * rgba_size(*image).0 * nh <= isize::MAX,
            4 * nw * nh <= isize::MAX,
        ensures
            cover_painted(
                old(self)@,
                triangle_resized(rgba_pixels(*image), rgba_size(*image), (nw, nh)),
                nw,
                nh,
                final(self)@,
            ),
    {
        let resized = rgba_resize(image, nw, nh);
        self.fill_background_resized(&resized);
    }

    /// Paint `image` as the background with a "cover" fit, as
    /// `fill_background_scaled` does, when that may be done: the image is
    /// not empty, `(nw, nh)` is not empty, and the resampling buffers fit
    /// (`16 * width * nh` and `4 * nw * nh` within `isize`). Otherwise the
    /// canvas is left unchanged and `false` is returned.
    pub fn fill_background_cover(&mut self, image: &RgbaBuffer, nw: u32, nh: u32) -> (r: bool)
        ensures
            r == ({
                &&& 0 < rgba_size(*image).0
                &&& 0 < rgba_size(*image).1
                &&& 0 < nw
                &&& 0 < nh
                &&& 16 * rgba_size(*image).0 * nh <= isize::MAX
                &&& 4 * nw * nh <= isize::MAX
            }),
            r ==> cover_painted(
                old(self)@,
                triangle_resized(rgba_pixels(*image), rgba_size(*image), (nw, nh)),
                nw,
                nh,
                final(self)@,
            ),
            !r ==> final(self)@ == old(self)@,
    {
        let (iw, ih) = image.size();
        if iw == 0 || ih == 0 || nw == 0 || nh == 0 {
            return false;
        }
        assert(16 * (iw as int) * (nh as int) <= 16 * 0x1_0000_0000 * 0x1_0000_0000) by (nonlinear_arith)
            requires iw < 0x1_0000_0000, nh < 0x1_0000_0000;
        assert(4 * (nw as int) * (nh as int) <= 4 * 0x1_0000_0000 * 0x1_0000_0000) by (nonlinear_arith)
            requires nw < 0x1_0000_0000, nh < 0x1_0000_0000;
        let resample: u128 = 16u128 * iw as u128 * nh as u128;
        let out: u128 = 4u128 * nw as u128 * nh as u128;
        if resample > isize::MAX as u128 || out > isize::MAX as u128 {
            return false;
        }
        self.fill_background_scaled(image, nw, nh);
        true
    }

    /// Put `layer` in place of the text layer and hand back the previous
    /// one, when `layer` has the canvas's size and four bytes per pixel;
    /// otherwise hand `layer` back and change nothing. (For text drawn by
    /// a renderer outside this library.)
    pub fn replace_text_layer(&mut self, layer: RgbaBuffer) -> (r: Result<RgbaBuffer, RgbaBuffer>)
        ensures
            r is Ok <==> (rgba_size(layer) == (old(self)@.width, old(self)@.height) && rgba_pixels(layer).len() == 4
                * old(self)@.width * old(self)@.height),
            r matches Ok(prev) ==> {
                &&& rgba_size(prev) == (old(self)@.width, old(self)@.height)
                &&& rgba_pixels(prev) == old(self)@.text
                &&& final(self)@ == (CanvasView { text: rgba_pixels(layer), ..old(self)@ })
            },
            r matches Err(l) ==> l == layer && final(self)@ == old(self)@,
    {
        proof {
            use_type_invariant(&*self);
        }
        let w = self.width();
        let h = self.height();
        let (lw, lh) = rgba_dimensions(&layer);
        let len = rgba_byte_len(&layer);
        let expected = self.text_layer_len();
        if lw != w || lh != h || len != expected {
            return Err(layer);
        }
        let mut layer = layer;
        core::mem::swap(&mut self.text_layer, &mut layer);
        Ok(layer)
    }

    fn text_layer_len(&self) -> (r: usize)
        requires
            self.wf(),
        ensures
            r == 4 * self@.width * self@.height,
    {
        rgba_byte_len(&self.text_layer)
    }

    /// Fill a rectangle of the background with a colour. The part of the
    /// rectangle that lies on the canvas is painted; an empty rectangle, or
    /// one wholly off the canvas, changes nothing. On a canvas of less than
    /// 2^24 pixels each way, every pixel outside the rectangle keeps its
    /// bytes, and with an opaque colour every pixel of the rectangle on the
    /// canvas reads back as the colour.
    pub fn fill_rect(&mut self, x: i32, y: i32, width: u32, height: u32, color: [u8; 4])
        ensures
            final(self)@ == (CanvasView {
                background: rect_filled(
                    old(self)@.background,
                    (old(self)@.width, old(self)@.height),
                    (x, y, width, height),
                    color@,
                ),
                ..old(self)@
            }),
            exact_fill_size(old(self)@.width, old(self)@.height) ==> forall|px: int, py: int|
                0 <= px < old(self)@.width && 0 <= py < old(self)@.height && !in_rect((x, y, width, height), px, py)
                    ==> #[trigger] pixel_at(final(self)@.background, old(self)@.width as int, px, py) == pixel_at(
                    old(self)@.background,
                    old(self)@.width as int,
                    px,
                    py,
                ),
            exact_fill_size(old(self)@.width, old(self)@.height) && color[3] == 255 ==> forall|px: int, py: int|
                0 <= px < old(self)@.width && 0 <= py < old(self)@.height && in_rect((x, y, width, height), px, py)
                    ==> #[trigger] pixel_at(final(self)@.background, old(self)@.width as int, px, py) == color@,
    {
        proof {
            use_type_invariant(&*self);
        }
        let cw = self.width() as i64;
        let ch = self.height() as i64;
        let x0: i64 = if x < 0 { 0 } else { x as i64 };
        let y0: i64 = if y < 0 { 0 } else { y as i64 };
        let xe: i64 = x as i64 + width as i64;
        let ye: i64 = y as i64 + height as i64;
        let x1: i64 = if xe < cw { xe } else { cw };
        let y1: i64 = if ye < ch { ye } else { ch };
        if x0 < x1 && y0 < y1 {
            pixmap_fill_rect(&mut self.background, x0 as i32, y0 as i32, (x1 - x0) as u32, (y1 - y0) as u32, color);
        }
    }

    /// Draw a title bar background at the top. On a canvas of less than
    /// 2^24 pixels each way, rows 0 to 29 read (40, 40, 45), rows 30 and 31
    /// read (60, 60, 65), both opaque, and the rows from 32 down keep their
    /// bytes.
    pub fn draw_title_bar(&mut self, _title: &str, _padding: u32)
        ensures
            final(self)@ == (CanvasView {
                background: title_bar_pixels(old(self)@.background, old(self)@.width, old(self)@.height),
                ..old(self)@
            }),
            exact_fill_size(old(self)@.width, old(self)@.height) ==> forall|px: int, py: int|
                0 <= px < old(self)@.width && 32 <= py < old(self)@.height ==> #[trigger] pixel_at(
                    final(self)@.background,
                    old(self)@.width as int,
                    px,
                    py,
                ) == pixel_at(old(self)@.background, old(self)@.width as int, px, py),
            exact_fill_size(old(self)@.width, old(self)@.height) ==> forall|px: int, py: int|
                0 <= px < old(self)@.width && 0 <= py < old(self)@.height && py < 30 ==> #[trigger] pixel_at(
                    final(self)@.background,
                    old(self)@.width as int,
                    px,
                    py,
                ) == seq![40u8, 40u8, 45u8, 255u8],
            exact_fill_size(old(self)@.width, old(self)@.height) ==> forall|px: int, py: int|
                0 <= px < old(self)@.width && 0 <= py < old(self)@.height && 30 <= py < 32 ==> #[trigger] pixel_at(
                    final(self)@.background,
                    old(self)@.width as int,
                    px,
                    py,
                ) == seq![60u8, 60u8, 65u8, 255u8],
    {
        proof {
            use_type_invariant(&*self);
        }
        let height: u32 = 32;
        let bg: [u8; 4] = [40, 40, 45, 255];
        let ghost b0 = self@.background;
        let w = self.width();
        self.fill_rect(0, 0, w, height, bg);
        let ghost b1 = self@.background;
        let w = self.width();
        self.fill_rect(0, height as i32 - 2, w, 2, [60, 60, 65, 255]);
        assert(bg@ == seq![40u8, 40u8, 45u8, 255u8]);
        assert([60u8, 60u8, 65u8, 255u8]@ == seq![60u8, 60u8, 65u8, 255u8]);
        assert forall|px: int, py: int|
            exact_fill_size(self@.width, self@.height) && 0 <= px < self@.width && 32 <= py < self@.height
            implies #[trigger] pixel_at(self@.background, self@.width as int, px, py) == pixel_at(
            b0,
            self@.width as int,
            px,
            py,
        ) by {
            assert(!in_rect((0i32, 30i32, w, 2u32), px, py));
            assert(!in_rect((0i32, 0i32, w, 32u32), px, py));
            assert(pixel_at(b1, self@.width as int, px, py) == pixel_at(b0, self@.width as int, px, py));
        }
        assert forall|px: int, py: int|
            exact_fill_size(self@.width, self@.height) && 0 <= px < self@.width && 0 <= py < self@.height && py < 30
            implies #[trigger] pixel_at(self@.background, self@.width as int, px, py) == seq![40u8, 40u8, 45u8, 255u8] by {
            assert(!in_rect((0i32, 30i32, w, 2u32), px, py));
            assert(in_rect((0i32, 0i32, w, 32u32), px, py));
            assert(pixel_at(b1, self@.width as int, px, py) == bg@);
        }
        assert forall|px: int, py: int|
            exact_fill_size(self@.width, self@.height) && 0 <= px < self@.width && 0 <= py < self@.height && 30 <= py
                < 32 implies #[trigger] pixel_at(self@.background, self@.width as int, px, py) == seq![
            60u8,
            60u8,
            65u8,
            255u8,
        ] by {
            assert(in_rect((0i32, 30i32, w, 2u32), px, py));
        }
    }

    /// Blend glyph `g`, drawn with its origin at `(ox, oy)`, into the text
    /// layer in `color`; pixels off the canvas are skipped.
    fn blend_glyph(&mut self, g: &GlyphImage, ox: i32, oy: i32, color: [u8; 4], rgba: bool)
        requires
            old(self).wf(),
        ensures
            final(self).wf(),
            final(self)@ == (CanvasView { text: final(self)@.text, ..old(self)@ }),
            forall|x: int, y: int|
                0 <= x < old(self)@.width && 0 <= y < old(self)@.height ==> #[trigger] pixel_at(
                    final(self)@.text,
                    old(self)@.width as int,
                    x,
                    y,
                ) == glyph_pixel(*g, rgba, ox as int, oy as int, color@, x, y, pixel_at(old(self)@.text, old(self)@.width as int, x, y)),
    {
        let ghost l0 = self@.text;
        let ghost w0 = self@.width as int;
        let ghost h0 = self@.height as int;
        let cw = self.width() as i64;
        let ch = self.height() as i64;
        let dx = ox as i64 + g.x as i64;
        let dy = oy as i64 + g.y as i64;
        let bw = g.w as i64;
        let bh = g.h as i64;
        let mut row: i64 = 0;
        while row < bh
            invariant
                self.wf(),
                self@ == (CanvasView { text: self@.text, ..old(self)@ }),
                w0 == self@.width,
                h0 == self@.height,
                cw == w0,
                ch == h0,
                l0 == old(self)@.text,
                dx == ox + g.x,
                dy == oy + g.y,
                bw == g.w,
                bh == g.h,
                0 <= row,
                row <= bh || row == 0,
                forall|x: int, y: int|
                    0 <= x < w0 && 0 <= y < h0 ==> #[trigger] pixel_at(self@.text, w0, x, y) == if y - dy < row {
                        glyph_pixel(*g, rgba, ox as int, oy as int, color@, x, y, pixel_at(l0, w0, x, y))
                    } else {
                        pixel_at(l0, w0, x, y)
                    },
            decreases bh - row,
        {
            let py = dy + row;
            if 0 <= py && py < ch {
                let mut col: i64 = 0;
                while col < bw
                    invariant
                        self.wf(),
                        self@ == (CanvasView { text: self@.text, ..old(self)@ }),
                        w0 == self@.width,
                        h0 == self@.height,
                        cw == w0,
                        ch == h0,
                        l0 == old(self)@.text,
                        dx == ox + g.x,
                        dy == oy + g.y,
                        bw == g.w,
                        bh == g.h,
                        0 <= row < bh,
                        py == dy + row,
                        0 <= py < ch,
                        0 <= col,
                        col <= bw || col == 0,
                        forall|x: int, y: int|
                            0 <= x < w0 && 0 <= y < h0 ==> #[trigger] pixel_at(self@.text, w0, x, y) == if y - dy
                                < row || (y - dy == row && x - dx < col) {
                                glyph_pixel(*g, rgba, ox as int, oy as int, color@, x, y, pixel_at(l0, w0, x, y))
                            } else {
                                pixel_at(l0, w0, x, y)
                            },
                    decreases bw - col,
                {
                    let px = dx + col;
                    if 0 <= px && px < cw {
                        assert(0 <= row * bw + col < 0x4000_0000_0000_0000) by (nonlinear_arith)
                            requires 0 <= row < bh, 0 <= col < bw, bh < 0x8000_0000, bw < 0x8000_0000;
                        let k = row * bw + col;
                        let len = g.mask.len();
                        let alpha: u32 = if !rgba {
                            if (k as u64) < (len as u64) {
                                g.mask[k as usize] as u32
                            } else {
                                0
                            }
                        } else {
                            let j: u64 = 4 * (k as u64) + 3;
                            if j < (len as u64) {
                                g.mask[j as usize] as u32
                            } else {
                                0
                            }
                        };
                        assert(alpha == mask_alpha(*g, rgba, row as int, col as int));
                        if alpha > 0 {
                            assert(pixel_at(self@.text, w0, px as int, py as int) == pixel_at(l0, w0, px as int, py as int));
                            let p = rgba_get_pixel(&self.text_layer, px as u32, py as u32);
                            let b = blend_pixel(color, alpha, p);
                            proof {
                                lemma_put_pixel(self@.text, w0, h0, px as int, py as int, b@);
                            }
                            rgba_put_pixel(&mut self.text_layer, px as u32, py as u32, b);
                            assert(p@ == pixel_at(l0, w0, px as int, py as int));
                        }
                    }
                    col = col + 1;
                }
            }
            row = row + 1;
        }
    }

    /// Draw one row of glyphs (one-byte alpha masks, as `swash` renders
    /// them), each placed relative to `(x, y)`, into the text layer in
    /// `color`: each mask pixel with nonzero coverage is blended
    /// straight-alpha source-over; full coverage writes the colour opaque.
    /// Pixels off the canvas, and mask bytes past the end of a mask, are
    /// skipped.
    pub fn draw_text_swash(&mut self, glyphs: &Vec<GlyphImage>, x: i32, y: i32, color: [u8; 4])
        requires
            forall|i: int|
                0 <= i < glyphs@.len() ==> #[trigger] glyph_arith_fits(
                    glyphs@[i],
                    x as int,
                    y as int,
                    old(self)@.width as int,
                    old(self)@.height as int,
                    false,
                ),
        ensures
            final(self)@ == (CanvasView { text: final(self)@.text, ..old(self)@ }),
            forall|px: int, py: int|
                0 <= px < old(self)@.width && 0 <= py < old(self)@.height ==> #[trigger] pixel_at(
                    final(self)@.text,
                    old(self)@.width as int,
                    px,
                    py,
                ) == glyphs_pixel(
                    glyphs@,
                    glyphs@.len() as int,
                    false,
                    x as int,
                    y as int,
                    color@,
                    px,
                    py,
                    pixel_at(old(self)@.text, old(self)@.width as int, px, py),
                ),
            forall|px: int, py: int|
                0 <= px < old(self)@.width && 0 <= py < old(self)@.height ==> old(self)@.text[pixel_start(
                    old(self)@.width as int,
                    px,
                    py,
                ) + 3] <= #[trigger] final(self)@.text[pixel_start(old(self)@.width as int, px, py) + 3],
    {
        proof {
            use_type_invariant(&*self);
        }
        let ghost t0 = self@.text;
        let ghost w0 = self@.width as int;
        let ghost h0 = self@.height as int;
        self.blend_glyphs(glyphs, x, y, color, false);
        assert forall|px: int, py: int| 0 <= px < w0 && 0 <= py < h0 implies t0[pixel_start(w0, px, py) + 3]
            <= #[trigger] self@.text[pixel_start(w0, px, py) + 3] by {
            lemma_pixel_in_bounds(w0, h0, px, py);
            crate::laws::law_run_never_lowers_alpha(
                glyphs@,
                glyphs@.len() as int,
                false,
                x as int,
                y as int,
                color@,
                px,
                py,
                pixel_at(t0, w0, px, py),
            );
            assert(pixel_at(t0, w0, px, py)[3] == t0[pixel_start(w0, px, py) + 3]);
            assert(pixel_at(self@.text, w0, px, py)[3] == self@.text[pixel_start(w0, px, py) + 3]);
        }
    }

    /// Draw one row of glyphs whose masks hold four bytes per pixel with
    /// coverage in the fourth (as the FreeType backend renders them), each
    /// placed relative to `(x, y)`, into the text layer in `color`; the
    /// blending is the same as `draw_text_swash`.
    pub fn draw_text_freetype(&mut self, glyphs: &Vec<GlyphImage>, x: i32, y: i32, color: [u8; 4])
        requires
            forall|i: int|
                0 <= i < glyphs@.len() ==> #[trigger] glyph_arith_fits(
                    glyphs@[i],
                    x as int,
                    y as int,
                    old(self)@.width as int,
                    old(self)@.height as int,
                    true,
                ),
        ensures
            final(self)@ == (CanvasView { text: final(self)@.text, ..old(self)@ }),
            forall|px: int, py: int|
                0 <= px < old(self)@.width && 0 <= py < old(self)@.height ==> #[trigger] pixel_at(
                    final(self)@.text,
                    old(self)@.width as int,
                    px,
                    py,
                ) == glyphs_pixel(
                    glyphs@,
                    glyphs@.len() as int,
                    true,
                    x as int,
                    y as int,
                    color@,
                    px,
                    py,
                    pixel_at(old(self)@.text, old(self)@.width as int, px, py),
                ),
            forall|px: int, py: int|
                0 <= px < old(self)@.width && 0 <= py < old(self)@.height ==> old(self)@.text[pixel_start(
                    old(self)@.width as int,
                    px,
                    py,
                ) + 3] <= #[trigger] final(self)@.text[pixel_start(old(self)@.width as int, px, py) + 3],
    {
        proof {
            use_type_invariant(&*self);
        }
        let ghost t0 = self@.text;
        let ghost w0 = self@.width as int;
        let ghost h0 = self@.height as int;
        self.blend_glyphs(glyphs, x, y, color, true);
        assert forall|px: int, py: int| 0 <= px < w0 && 0 <= py < h0 implies t0[pixel_start(w0, px, py) + 3]
            <= #[trigger] self@.text[pixel_start(w0, px, py) + 3] by {
            lemma_pixel_in_bounds(w0, h0, px, py);
            crate::laws::law_run_never_lowers_alpha(
                glyphs@,
                glyphs@.len() as int,
                true,
                x as int,
                y as int,
                color@,
                px,
                py,
                pixel_at(t0, w0, px, py),
            );
            assert(pixel_at(t0, w0, px, py)[3] == t0[pixel_start(w0, px, py) + 3]);
            assert(pixel_at(self@.text, w0, px, py)[3] == self@.text[pixel_start(w0, px, py) + 3]);
        }
    }

    fn blend_glyphs(&mut self, glyphs: &Vec<GlyphImage>, x: i32, y: i32, color: [u8; 4], rgba: bool)
        requires
            old(self).wf(),
        ensures
            final(self).wf(),
            final(self)@ == (CanvasView { text: final(self)@.text, ..old(self)@ }),
            forall|px: int, py: int|
                0 <= px < old(self)@.width && 0 <= py < old(self)@.height ==> #[trigger] pixel_at(
                    final(self)@.text,
                    old(self)@.width as int,
                    px,
                    py,
                ) == glyphs_pixel(
                    glyphs@,
                    glyphs@.len() as int,
                    rgba,
                    x as int,
                    y as int,
                    color@,
                    px,
                    py,
                    pixel_at(old(self)@.text, old(self)@.width as int, px, py),
                ),
    {
        let ghost l0 = self@.text;
        let ghost w0 = self@.width as int;
        let ghost h0 = self@.height as int;
        let mut i: usize = 0;
        while i < glyphs.len()
            invariant
                self.wf(),
                self@ == (CanvasView { text: self@.text, ..old(self)@ }),
                l0 == old(self)@.text,
                w0 == self@.width,
                h0 == self@.height,
                i <= glyphs@.len(),
                forall|px: int, py: int|
                    0 <= px < w0 && 0 <= py < h0 ==> #[trigger] pixel_at(self@.text, w0, px, py) == glyphs_pixel(
                        glyphs@,
                        i as int,
                        rgba,
                        x as int,
                        y as int,
                        color@,
                        px,
                        py,
                        pixel_at(l0, w0, px, py),
                    ),
            decreases glyphs@.len() - i,
        {
            let ghost before = self@.text;
            self.blend_glyph(&glyphs[i], x, y, color, rgba);
            assert forall|px: int, py: int|
                0 <= px < w0 && 0 <= py < h0 implies #[trigger] pixel_at(self@.text, w0, px, py) == glyphs_pixel(
                    glyphs@,
                    i + 1,
                    rgba,
                    x as int,
                    y as int,
                    color@,
                    px,
                    py,
                    pixel_at(l0, w0, px, py),
                ) by {
                assert(pixel_at(before, w0, px, py) == glyphs_pixel(glyphs@, i as int, rgba, x as int, y as int, color@, px, py, pixel_at(l0, w0, px, py)));
            }
            i = i + 1;
        }
    }

    /// Convert the canvas to the final image: the background bytes with
    /// the text layer composited over them (`spec_composite`, pixel by
    /// pixel). It always succeeds; the error "Failed to create image from
    /// raw data" cannot arise, as the background holds exactly four bytes
    /// per pixel.
    pub fn into_image(self) -> (r: Result<RgbaBuffer, String>)
        ensures
            r matches Ok(img) && rgba_size(img) == (self@.width, self@.height) && rgba_pixels(img)
                == composited(self@),
    {
        proof {
            use_type_invariant(&self);
        }
        let w = self.width();
        let h = self.height();
        let mut data = pixmap_bytes(&self.background);
        let text = rgba_raw_bytes(&self.text_layer);
        let ghost v = self@;
        let n = data.len();
        proof {
            let q = (v.width as int) * (v.height as int);
            assert(4 * (v.width as int) * (v.height as int) == q * 4) by (nonlinear_arith)
                requires q == (v.width as int) * (v.height as int);
            vstd::arithmetic::div_mod::lemma_mod_multiples_basic(q, 4);
        }
        let mut i: usize = 0;
        while i < n
            invariant
                n == data@.len(),
                n == v.background.len(),
                n == text@.len(),
                text@ == v.text,
                i % 4 == 0,
                n % 4 == 0,
                i <= n,
                forall|j: int| 0 <= j < i ==> #[trigger] data@[j] == composited(v)[j],
                forall|j: int| i <= j < n ==> #[trigger] data@[j] == v.background[j],
            decreases n - i,
        {
            let t: [u8; 4] = [text[i], text[i + 1], text[i + 2], text[i + 3]];
            let b: [u8; 4] = [data[i], data[i + 1], data[i + 2], data[i + 3]];
            let c = composite_pixel(t, b);
            assert(t@ == v.text.subrange(i as int, i + 4));
            assert(b@ == v.background.subrange(i as int, i + 4));
            data.set(i, c[0]);
            data.set(i + 1, c[1]);
            data.set(i + 2, c[2]);
            data.set(i + 3, c[3]);
            assert forall|j: int| i <= j < i + 4 implies #[trigger] data@[j] == composited(v)[j] by {
                assert(j - j % 4 == i);
            }
            i = i + 4;
        }
        match rgba_from_raw(w, h, data) {
            Some(img) => Ok(img),
            None => Err("Failed to create image from raw data".to_string()),
        }
    }
}

/// Pixel `(x, y)` of the composited image is the text pixel over the
/// background pixel.
pub proof fn lemma_composited_pixel(v: CanvasView, x: int, y: int)
    requires
        view_wf(v),
        0 <= x < v.width,
        0 <= y < v.height,
    ensures
        pixel_at(composited(v), v.width as int, x, y) == spec_composite(
            pixel_at(v.text, v.width as int, x, y),
            pixel_at(v.background, v.width as int, x, y),
        ),
{
    let s = pixel_start(v.width as int, x, y);
    lemma_pixel_in_bounds(v.width as int, v.height as int, x, y);
    assert(s % 4 == 0) by {
        vstd::arithmetic::div_mod::lemma_mod_multiples_basic(y * v.width + x, 4);
    }
    assert((s + 1) % 4 == 1 && (s + 2) % 4 == 2 && (s + 3) % 4 == 3);
    assert(pixel_at(composited(v), v.width as int, x, y) =~= spec_composite(
        pixel_at(v.text, v.width as int, x, y),
        pixel_at(v.background, v.width as int, x, y),
    ));
}

/// Every pixel of an all-zero image is `(0, 0, 0, 0)`.
pub proof fn lemma_zero_pixel(width: int, height: int, x: int, y: int)
    requires
        0 <= x < width,
        0 <= y < height,
    ensures
        pixel_at(Seq::new((4 * width * height) as nat, |i: int| 0u8), width, x, y) == seq![0u8, 0u8, 0u8, 0u8],
{
    lemma_pixel_in_bounds(width, height, x, y);
    assert(pixel_at(Seq::new((4 * width * height) as nat, |i: int| 0u8), width, x, y) =~= seq![0u8, 0u8, 0u8, 0u8]);
}

/// Whether drawing glyph `g` at `(ox, oy)` on a `width` by `height`
/// canvas stays clear of `i32` overflow (`glyph_arith_fits`).
fn glyph_in_range(g: &GlyphImage, ox: i32, oy: i32, width: u32, height: u32, rgba: bool) -> (r: bool)
    ensures
        r == glyph_arith_fits(*g, ox as int, oy as int, width as int, height as int, rgba),
{
    let imin = i32::MIN as i64;
    let imax = i32::MAX as i64;
    let dx = ox as i64 + g.x as i64;
    let dy = oy as i64 + g.y as i64;
    let bw = g.w as i64;
    let bh = g.h as i64;
    let cw = width as i64;
    let ch = height as i64;
    if dx < imin || dx > imax || dy < imin || dy > imax {
        return false;
    }
    if !rgba {
        let mut row: i64 = 0;
        while row < bh
            invariant
                !rgba,
                0 <= row,
                row <= bh || row == 0,
                bh == g.h,
                bw == g.w,
                dy == oy + g.y,
                imin == i32::MIN,
                imax == i32::MAX,
                forall|r0: int| 0 <= r0 < row ==> #[trigger] mask_row_fits(*g, dy as int, r0),
            decreases bh - row,
        {
            assert(-0x8000_0000 * 0x8000_0000 <= row * bw <= 0x8000_0000 * 0x8000_0000) by (nonlinear_arith)
                requires 0 <= row < 0x8000_0000, -0x8000_0000 <= bw < 0x8000_0000;
            let p = row * bw;
            if p < imin || p > imax || dy + row > imax {
                assert(!mask_row_fits(*g, dy as int, row as int));
                return false;
            }
            row = row + 1;
        }
        if bh > 0 && dy < ch && 0 < dy + bh && bw > 0 {
            // the widest column must fit; all narrower ones then do
            if dx + bw - 1 > imax {
                assert(!col_fits(dx as int, bw - 1));
                return false;
            }
        }
        assert(forall|c0: int| 0 <= c0 < g.w && g.h > 0 && dy < ch && 0 < dy + g.h ==> #[trigger] col_fits(dx as int, c0));
        true
    } else {
        if bw > 0 && bh > 0 && dx + bw - 1 > imax {
            assert(!col_fits(dx as int, bw - 1));
            return false;
        }
        assert(forall|c0: int| 0 <= c0 < g.w && g.h > 0 ==> #[trigger] col_fits(dx as int, c0));
        let mut row: i64 = 0;
        while row < bh
            invariant
                rgba,
                0 <= row,
                row <= bh || row == 0,
                bh == g.h,
                bw == g.w,
                dx == ox + g.x,
                dy == oy + g.y,
                cw == width,
                ch == height,
                imin == i32::MIN,
                imax == i32::MAX,
                -0x8000_0000 <= dx < 0x8000_0000,
                -0x8000_0000 <= dy < 0x8000_0000,
                forall|r0: int, c0: int|
                    0 <= r0 < row && 0 <= c0 < g.w ==> #[trigger] rgba_cell_fits(
                        *g,
                        dx as int,
                        dy as int,
                        width as int,
                        height as int,
                        r0,
                        c0,
                    ),
            decreases bh - row,
        {
            let mut col: i64 = 0;
            while col < bw
                invariant
                    rgba,
                    0 <= row < bh,
                    0 <= col,
                    col <= bw || col == 0,
                    bh == g.h,
                    bw == g.w,
                    dx == ox + g.x,
                    dy == oy + g.y,
                    cw == width,
                    ch == height,
                    imin == i32::MIN,
                    imax == i32::MAX,
                    -0x8000_0000 <= dx < 0x8000_0000,
                    -0x8000_0000 <= dy < 0x8000_0000,
                    forall|r0: int, c0: int|
                        (0 <= r0 < row && 0 <= c0 < g.w) || (r0 == row && 0 <= c0 < col) ==> #[trigger] rgba_cell_fits(
                            *g,
                            dx as int,
                            dy as int,
                            width as int,
                            height as int,
                            r0,
                            c0,
                        ),
                decreases bw - col,
            {
                assert(0 <= row * bw + col <= 0x8000_0000 * 0x8000_0000) by (nonlinear_arith)
                    requires 0 <= row < bh, 0 <= col < bw, bh < 0x8000_0000, bw < 0x8000_0000;
                let on_canvas = 0 <= dx + col && dx + col < cw && 0 <= dy + row && dy + row < ch;
                if dy + row > imax || (on_canvas && row * bw + col > imax / 4) {
                    assert(!rgba_cell_fits(*g, dx as int, dy as int, width as int, height as int, row as int, col as int));
                    return false;
                }
                col = col + 1;
            }
            row = row + 1;
        }
        true
    }
}

/// Whether drawing every glyph of a run at `(ox, oy)` on a `width` by
/// `height` canvas stays clear of `i32` overflow.
pub fn glyphs_in_range(glyphs: &Vec<GlyphImage>, ox: i32, oy: i32, width: u32, height: u32, rgba: bool) -> (r: bool)
    ensures
        r == forall|j: int|
            0 <= j < glyphs@.len() ==> #[trigger] glyph_arith_fits(
                glyphs@[j],
                ox as int,
                oy as int,
                width as int,
                height as int,
                rgba,
            ),
{
    let mut j: usize = 0;
    while j < glyphs.len()
        invariant
            j <= glyphs@.len(),
            forall|k: int|
                0 <= k < j ==> #[trigger] glyph_arith_fits(glyphs@[k], ox as int, oy as int, width as int, height as int, rgba),
        decreases glyphs@.len() - j,
    {
        if !glyph_in_range(&glyphs[j], ox, oy, width, height, rgba) {
            return false;
        }
        j = j + 1;
    }
    true
}

/// A crop of `cw` by `ch` pixels whose bytes number those of a `w` by `h`
/// image, neither dimension larger, has the same dimensions.
proof fn lemma_crop_fills(w: int, h: int, cw: int, ch: int)
    requires
        0 < w,
        0 < h,
        0 <= cw <= w,
        0 <= ch <= h,
        4 * cw * ch == 4 * w * h,
    ensures
        cw == w,
        ch == h,
{
    assert(cw * ch == w * h) by (nonlinear_arith)
        requires 4 * cw * ch == 4 * w * h;
    if cw < w {
        assert(cw * ch < w * h) by (nonlinear_arith)
            requires 0 <= cw < w, 0 <= ch <= h, 0 < h;
    }
    if ch < h {
        assert(cw * ch < w * h) by (nonlinear_arith)
            requires 0 <= cw <= w, 0 <= ch < h, 0 < w;
    }
}

} // verus!
