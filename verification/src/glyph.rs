//! Rendered glyphs and the integer steps of glyph preparation: mask
//! extraction, placement on the monospace grid, clipping to a text row,
//! and the conversion of FreeType bitmaps.

use vstd::prelude::*;
use crate::raster::spec_blend;

verus! {

/// Rendered glyph: position and alpha mask data.
pub struct GlyphImage {
    /// x offset
    pub x: i32,
    /// y offset
    pub y: i32,
    /// width
    pub w: i32,
    /// height
    pub h: i32,
    /// alpha mask data (one byte per pixel, or four with alpha last)
    pub mask: Vec<u8>,
}

/// Coverage (0..=255) that glyph `g` gives at its own `(row, col)`: the
/// mask byte there, or 0 outside the glyph or past the end of the mask.
/// With `rgba`, the mask holds four bytes per pixel and coverage is the
/// fourth.
pub open spec fn mask_alpha(g: GlyphImage, rgba: bool, row: int, col: int) -> int {
    if 0 <= row < g.h && 0 <= col < g.w {
        let k = row * g.w + col;
        if !rgba {
            if k < g.mask@.len() {
                g.mask@[k] as int
            } else {
                0
            }
        } else {
            if 4 * k + 3 < g.mask@.len() {
                g.mask@[4 * k + 3] as int
            } else {
                0
            }
        }
    } else {
        0
    }
}

/// Pixel `p` at canvas position `(x, y)` after glyph `g`, drawn with its
/// origin at `(ox, oy)`, is blended onto it in `color`.
pub open spec fn glyph_pixel(
    g: GlyphImage,
    rgba: bool,
    ox: int,
    oy: int,
    color: Seq<u8>,
    x: int,
    y: int,
    p: Seq<u8>,
) -> Seq<u8> {
    let a = mask_alpha(g, rgba, y - (oy + g.y), x - (ox + g.x));
    if a > 0 {
        spec_blend(color, a, p)
    } else {
        p
    }
}

/// Pixel `p` at `(x, y)` after the first `n` glyphs are drawn, in order.
pub open spec fn glyphs_pixel(
    glyphs: Seq<GlyphImage>,
    n: int,
    rgba: bool,
    ox: int,
    oy: int,
    color: Seq<u8>,
    x: int,
    y: int,
    p: Seq<u8>,
) -> Seq<u8>
    decreases n,
{
    if n <= 0 {
        p
    } else {
        glyph_pixel(
            glyphs[n - 1],
            rgba,
            ox,
            oy,
            color,
            x,
            y,
            glyphs_pixel(glyphs, n - 1, rgba, ox, oy, color, x, y, p),
        )
    }
}

/// A colour glyph image (four bytes per pixel) reduced to its alpha bytes.
pub fn alpha_from_rgba(data: &Vec<u8>) -> (r: Vec<u8>)
    ensures
        r@.len() == data@.len() / 4,
        forall|i: int| 0 <= i < r@.len() ==> #[trigger] r@[i] == data@[4 * i + 3],
{
    let mut alpha: Vec<u8> = Vec::new();
    let mut i: usize = 0;
    while 4 <= data.len() - i
        invariant
            i % 4 == 0,
            i <= data@.len(),
            alpha@.len() == i / 4,
            forall|k: int| 0 <= k < alpha@.len() ==> #[trigger] alpha@[k] == data@[4 * k + 3],
        decreases data@.len() - i,
    {
        alpha.push(data[i + 3]);
        i = i + 4;
    }
    alpha
}

/// A subpixel (three bytes per pixel) glyph mask reduced to one coverage
/// byte per pixel: the mean of the three, rounded down.
pub fn alpha_from_subpixel(data: &Vec<u8>) -> (r: Vec<u8>)
    ensures
        r@.len() == data@.len() / 3,
        forall|i: int|
            0 <= i < r@.len() ==> #[trigger] r@[i] == ((data@[3 * i] as int + data@[3 * i + 1] as int + data@[3
                * i + 2] as int) / 3) as u8,
{
    let mut alpha: Vec<u8> = Vec::new();
    let mut i: usize = 0;
    while 3 <= data.len() - i
        invariant
            i % 3 == 0,
            i <= data@.len(),
            alpha@.len() == i / 3,
            forall|k: int|
                0 <= k < alpha@.len() ==> #[trigger] alpha@[k] == ((data@[3 * k] as int + data@[3 * k + 1] as int
                    + data@[3 * k + 2] as int) / 3) as u8,
        decreases data@.len() - i,
    {
        alpha.push(((data[i] as u32 + data[i + 1] as u32 + data[i + 2] as u32) / 3) as u8);
        i = i + 3;
    }
    alpha
}

/// Horizontal placement of a glyph on the monospace grid: a glyph of the
/// primary font sits at the pen plus its left bearing; a fallback (wide)
/// glyph is centred in its cell allocation of `cell_w` pixels (never
/// left of the pen).
pub open spec fn spec_glyph_x(pen_x: int, is_fallback: bool, cell_w: int, w: int, left: int) -> int {
    if is_fallback {
        pen_x + if cell_w - w > 0 {
            (cell_w - w) / 2
        } else {
            0
        }
    } else {
        pen_x + left
    }
}

/// The x offset of a glyph, as `spec_glyph_x` gives it.
pub fn glyph_x_offset(pen_x: i32, is_fallback: bool, cell_w: i32, w: i32, left: i32) -> (r: i32)
    requires
        is_fallback ==> i32::MIN <= cell_w - w <= i32::MAX,
        i32::MIN <= spec_glyph_x(pen_x as int, is_fallback, cell_w as int, w as int, left as int) <= i32::MAX,
    ensures
        r == spec_glyph_x(pen_x as int, is_fallback, cell_w as int, w as int, left as int),
{
    if is_fallback {
        let d = cell_w - w;
        let half = d / 2;
        let centred = if half > 0 { half } else { 0 };
        pen_x + centred
    } else {
        pen_x + left
    }
}

/// Rows of a glyph hidden above a text row: those above the row's top.
pub open spec fn clip_skip_top(y_offset: int) -> int {
    if -y_offset > 0 {
        -y_offset
    } else {
        0
    }
}

/// The glyph's top within the row: its offset, or 0 when it starts above.
pub open spec fn clip_dest_y(y_offset: int) -> int {
    if y_offset > 0 {
        y_offset
    } else {
        0
    }
}

/// Rows of a glyph of height `h` kept in a row of `line_height` pixels:
/// those below the skipped top, at most the room left under the glyph's
/// top. When the glyph's top lies below the row (`line_height` less than
/// its offset), no limit applies and every row below the skipped top is
/// kept, so such a glyph is not clipped to the row. This is how the
/// renderer behaves, in spite of its aim of clipping glyphs to the cell
/// row: it converts the signed room to an unsigned size, which wraps to a
/// very large value when the top lies below the row.
pub open spec fn clip_visible_rows(y_offset: int, h: int, line_height: int) -> int {
    let skip = clip_skip_top(y_offset);
    let rest = if h >= skip {
        h - skip
    } else {
        0
    };
    let room = line_height - clip_dest_y(y_offset);
    if room < 0 {
        rest
    } else if rest < room {
        rest
    } else {
        room
    }
}

/// Whether anything of the glyph is kept.
pub open spec fn clip_keeps(y_offset: int, h: int, line_height: int) -> bool {
    h >= 0 && clip_visible_rows(y_offset, h, line_height) != 0 && clip_skip_top(y_offset) < h
}

/// Clip a rendered glyph (top-left at `(x_offset, y_offset)` within a text
/// row, `w` by `h` pixels, one mask byte per pixel) to the row's vertical
/// bounds `[0, line_height)`. `None` when no row of it remains; otherwise
/// the kept rows of the mask, with the glyph moved down to the row's top
/// when it started above it.
pub fn clip_glyph_to_line(
    x_offset: i32,
    y_offset: i32,
    w: i32,
    h: i32,
    mask: &Vec<u8>,
    line_height: i32,
) -> (r: Option<GlyphImage>)
    requires
        y_offset > i32::MIN,
        line_height - clip_dest_y(y_offset as int) >= i32::MIN,
        clip_keeps(y_offset as int, h as int, line_height as int) ==> {
            &&& w >= 0
            &&& (clip_skip_top(y_offset as int) + clip_visible_rows(y_offset as int, h as int, line_height as int))
                * w <= mask@.len()
        },
    ensures
        r is Some <==> clip_keeps(y_offset as int, h as int, line_height as int),
        r matches Some(g) ==> {
            let skip = clip_skip_top(y_offset as int);
            let rows = clip_visible_rows(y_offset as int, h as int, line_height as int);
            &&& g.x == x_offset
            &&& g.y == clip_dest_y(y_offset as int)
            &&& g.w == w
            &&& g.h == rows
            &&& g.mask@ == mask@.subrange(skip * w, (skip + rows) * w)
        },
{
    let neg = 0 - y_offset;
    let skip_top: i32 = if neg > 0 { neg } else { 0 };
    let dest_y: i32 = if y_offset > 0 { y_offset } else { 0 };
    if h < 0 {
        return None;
    }
    let rest: i32 = if h >= skip_top { h - skip_top } else { 0 };
    let room = line_height - dest_y;
    let visible_h: i32 = if room < 0 {
        rest
    } else if rest < room {
        rest
    } else {
        room
    };
    if visible_h == 0 || skip_top >= h {
        return None;
    }
    assert(skip_top as int == clip_skip_top(y_offset as int));
    assert(dest_y as int == clip_dest_y(y_offset as int));
    assert(visible_h as int == clip_visible_rows(y_offset as int, h as int, line_height as int));
    assert(clip_keeps(y_offset as int, h as int, line_height as int));
    let row_bytes = w as usize;
    let ghost skip = skip_top as int;
    let ghost rows = visible_h as int;
    assert(0 <= skip * (w as int) <= (skip + rows) * (w as int) <= mask@.len() && 0 <= rows * (w as int)
        <= mask@.len() && skip * (w as int) + rows * (w as int) == (skip + rows) * (w as int)) by (nonlinear_arith)
        requires 0 <= skip, 0 < rows, 0 <= w, (skip + rows) * (w as int) <= mask@.len();
    assert(row_bytes as int == w as int);
    assert((skip_top as usize) as int == skip);
    assert((visible_h as usize) as int == rows);
    let mlen = mask.len();
    let start = skip_top as usize * row_bytes;
    let end = start + visible_h as usize * row_bytes;
    assert(end == (skip + rows) * (w as int)) by (nonlinear_arith)
        requires end == skip * (w as int) + rows * (w as int);
    let mut clipped: Vec<u8> = Vec::new();
    let mut i = start;
    while i < end
        invariant
            start <= i <= end,
            end <= mask@.len(),
            clipped@ == mask@.subrange(start as int, i as int),
        decreases end - i,
    {
        clipped.push(mask[i]);
        i = i + 1;
    }
    Some(GlyphImage { x: x_offset, y: dest_y, w, h: visible_h, mask: clipped })
}

/// The pen's x after one character drawn at `pen_x` on a grid of
/// `cell_w`-pixel cells: two cells for a character the primary font lacks
/// (drawn with the fallback font and taken as wide), one cell otherwise.
pub open spec fn spec_next_pen(pen_x: int, is_fallback: bool, cell_w: int) -> int {
    if is_fallback {
        pen_x + cell_w * 2
    } else {
        pen_x + cell_w
    }
}

/// One character of a run drawn with a primary font and a fallback: the
/// fallback is used exactly when the primary font has no glyph for it
/// (glyph id 0); returns that choice and the pen's next x
/// (`spec_next_pen`).
pub fn char_step(primary_glyph: u16, pen_x: i32, cell_w: i32) -> (r: (bool, i32))
    requires
        primary_glyph == 0 ==> i32::MIN <= cell_w * 2 <= i32::MAX,
        i32::MIN <= spec_next_pen(pen_x as int, primary_glyph == 0, cell_w as int) <= i32::MAX,
    ensures
        r.0 == (primary_glyph == 0),
        r.1 == spec_next_pen(pen_x as int, r.0, cell_w as int),
{
    let is_fallback = primary_glyph == 0;
    let advance = if is_fallback {
        cell_w * 2
    } else {
        cell_w
    };
    (is_fallback, pen_x + advance)
}

/// Whether `glyph_x_offset` may be called with these arguments: its `i32`
/// arithmetic does not overflow.
pub fn glyph_x_offset_in_range(pen_x: i32, is_fallback: bool, cell_w: i32, w: i32, left: i32) -> (r: bool)
    ensures
        r == ({
            &&& is_fallback ==> i32::MIN <= cell_w - w <= i32::MAX
            &&& i32::MIN <= spec_glyph_x(pen_x as int, is_fallback, cell_w as int, w as int, left as int) <= i32::MAX
        }),
{
    let x: i64 = if is_fallback {
        let d = cell_w as i64 - w as i64;
        if d < i32::MIN as i64 || d > i32::MAX as i64 {
            return false;
        }
        pen_x as i64 + if d > 0 {
            d / 2
        } else {
            0
        }
    } else {
        pen_x as i64 + left as i64
    };
    i32::MIN as i64 <= x && x <= i32::MAX as i64
}

/// Whether `char_step` may be called with these arguments: its `i32`
/// arithmetic does not overflow.
pub fn char_step_in_range(primary_glyph: u16, pen_x: i32, cell_w: i32) -> (r: bool)
    ensures
        r == ({
            &&& primary_glyph == 0 ==> i32::MIN <= cell_w * 2 <= i32::MAX
            &&& i32::MIN <= spec_next_pen(pen_x as int, primary_glyph == 0, cell_w as int) <= i32::MAX
        }),
{
    let advance: i64 = if primary_glyph == 0 {
        cell_w as i64 * 2
    } else {
        cell_w as i64
    };
    if advance < i32::MIN as i64 || advance > i32::MAX as i64 {
        return false;
    }
    let next = pen_x as i64 + advance;
    i32::MIN as i64 <= next && next <= i32::MAX as i64
}

/// Whether `clip_glyph_to_line` may be called with these arguments: the
/// `i32` arithmetic on the offset and the row's room does not overflow,
/// and, when the glyph is kept, its width is not negative and the mask
/// holds every kept row.
pub fn clip_in_range(y_offset: i32, w: i32, h: i32, mask: &Vec<u8>, line_height: i32) -> (r: bool)
    ensures
        r == ({
            &&& y_offset > i32::MIN
            &&& line_height - clip_dest_y(y_offset as int) >= i32::MIN
            &&& clip_keeps(y_offset as int, h as int, line_height as int) ==> {
                &&& w >= 0
                &&& (clip_skip_top(y_offset as int) + clip_visible_rows(y_offset as int, h as int, line_height as int))
                    * w <= mask@.len()
            }
        }),
{
    if y_offset == i32::MIN {
        return false;
    }
    let yo = y_offset as i64;
    let skip: i64 = if -yo > 0 { -yo } else { 0 };
    let dest: i64 = if yo > 0 { yo } else { 0 };
    let room: i64 = line_height as i64 - dest;
    if room < i32::MIN as i64 {
        return false;
    }
    let hh = h as i64;
    let rest: i64 = if hh >= skip { hh - skip } else { 0 };
    let rows: i64 = if room < 0 { rest } else if rest < room { rest } else { room };
    let keeps = hh >= 0 && rows != 0 && skip < hh;
    assert(skip == clip_skip_top(y_offset as int));
    assert(rows == clip_visible_rows(y_offset as int, h as int, line_height as int));
    if !keeps {
        return true;
    }
    if w < 0 {
        return false;
    }
    assert(0 <= (skip + rows) * (w as int) <= 0x8000_0000 * 0x8000_0000) by (nonlinear_arith)
        requires 0 <= skip + rows <= 0x8000_0000, 0 <= w <= 0x8000_0000;
    let need: i64 = (skip + rows) * (w as i64);
    need as u64 <= mask.len() as u64
}

/// How a FreeType bitmap stores coverage.
#[derive(Clone, Copy, Debug, PartialEq, Eq, Structural)]
pub enum BitmapMode {
    /// One byte of coverage per pixel.
    Gray,
    /// One bit per pixel, most significant bit first.
    Mono,
    /// Any other pixel mode (not converted).
    Other,
}

/// Coverage at `(row, col)` of a gray bitmap with the given row pitch.
pub open spec fn gray_alpha(buf: Seq<u8>, pitch: int, row: int, col: int) -> u8 {
    buf[row * pitch + col]
}

/// Coverage at `(row, col)` of a one-bit bitmap: 255 when the pixel's bit
/// (most significant first) is set, 0 when clear or when its byte lies
/// outside the buffer.
pub open spec fn mono_alpha(buf: Seq<u8>, pitch: int, row: int, col: int) -> u8 {
    let idx = row * pitch + col / 8;
    if 0 <= idx < buf.len() {
        (((buf[idx] >> ((7 - col % 8) as u32)) & 1u8) * 255) as u8
    } else {
        0
    }
}

/// No `i32` overflow, and no read outside the buffer, at `(row, col)`.
pub open spec fn bitmap_cell_ok(buf: Seq<u8>, pitch: int, mode: BitmapMode, row: int, col: int) -> bool {
    &&& i32::MIN <= row * pitch <= i32::MAX
    &&& match mode {
        BitmapMode::Gray => 0 <= row * pitch + col < buf.len() && row * pitch + col <= i32::MAX,
        BitmapMode::Mono => row * pitch + col / 8 <= i32::MAX,
        BitmapMode::Other => true,
    }
}

/// Whether `bitmap_to_rgba` may be called on this bitmap: `4 * bw * bh`
/// fits `i32`, and every pixel is read without overflow or a read outside
/// the buffer (`bitmap_cell_ok`).
pub fn bitmap_in_range(buf: &Vec<u8>, bw: i32, bh: i32, pitch: i32, mode: BitmapMode) -> (r: bool)
    ensures
        r == (0 <= bw * bh * 4 <= i32::MAX && forall|row: int, col: int|
            0 <= row < bh && 0 <= col < bw ==> #[trigger] bitmap_cell_ok(buf@, pitch as int, mode, row, col)),
{
    assert(-0x8000_0000 * 0x8000_0000 <= (bw as int) * (bh as int) <= 0x8000_0000 * 0x8000_0000) by (nonlinear_arith)
        requires -0x8000_0000 <= bw < 0x8000_0000, -0x8000_0000 <= bh < 0x8000_0000;
    let area = bw as i64 * bh as i64;
    if !(0 <= area && area <= (i32::MAX / 4) as i64) {
        return false;
    }
    let mut row: i64 = 0;
    while row < bh as i64
        invariant
            0 <= bw * bh * 4 <= i32::MAX,
            0 <= row,
            bh >= 0 ==> row <= bh,
            forall|r0: int, c0: int|
                0 <= r0 < row && 0 <= c0 < bw ==> #[trigger] bitmap_cell_ok(buf@, pitch as int, mode, r0, c0),
        decreases bh - row,
    {
        let mut col: i64 = 0;
        while col < bw as i64
            invariant
                0 <= row < bh,
                0 <= col,
                bw >= 0 ==> col <= bw,
                forall|r0: int, c0: int|
                    0 <= r0 < row && 0 <= c0 < bw ==> #[trigger] bitmap_cell_ok(buf@, pitch as int, mode, r0, c0),
                forall|c0: int| 0 <= c0 < col ==> #[trigger] bitmap_cell_ok(buf@, pitch as int, mode, row as int, c0),
            decreases bw - col,
        {
            assert(-0x8000_0000 * 0x8000_0000 <= row * (pitch as int) <= 0x8000_0000 * 0x8000_0000) by (nonlinear_arith)
                requires 0 <= row < 0x8000_0000, -0x8000_0000 <= pitch < 0x8000_0000;
            let base: i64 = row * pitch as i64;
            let ok = if base < i32::MIN as i64 || base > i32::MAX as i64 {
                false
            } else {
                match mode {
                    BitmapMode::Gray => 0 <= base + col && ((base + col) as u64) < (buf.len() as u64) && base + col
                        <= i32::MAX as i64,
                    BitmapMode::Mono => base + col / 8 <= i32::MAX as i64,
                    BitmapMode::Other => true,
                }
            };
            assert(ok == bitmap_cell_ok(buf@, pitch as int, mode, row as int, col as int));
            if !ok {
                return false;
            }
            col = col + 1;
        }
        row = row + 1;
    }
    true
}

/// Convert a FreeType glyph bitmap of `bw` by `bh` pixels into RGBA bytes
/// with the coverage in all four channels, row-major. A gray bitmap gives
/// its bytes; a one-bit bitmap gives 0 or 255 per bit; other modes give no
/// bytes.
pub fn bitmap_to_rgba(buf: &Vec<u8>, bw: i32, bh: i32, pitch: i32, mode: BitmapMode) -> (r: Vec<u8>)
    requires
        0 <= bw * bh * 4 <= i32::MAX,
        forall|row: int, col: int|
            0 <= row < bh && 0 <= col < bw ==> #[trigger] bitmap_cell_ok(buf@, pitch as int, mode, row, col),
    ensures
        mode == BitmapMode::Other ==> r@.len() == 0,
        mode != BitmapMode::Other ==> {
            &&& r@.len() == if bh > 0 && bw > 0 { 4 * bw * bh } else { 0 }
            &&& forall|row: int, col: int|
                0 <= row < bh && 0 <= col < bw ==> #[trigger] r@.subrange(4 * (row * bw + col), 4 * (row * bw + col) + 4)
                    == ({
                    let a = if mode == BitmapMode::Gray {
                        gray_alpha(buf@, pitch as int, row, col)
                    } else {
                        mono_alpha(buf@, pitch as int, row, col)
                    };
                    seq![a, a, a, a]
                })
        },
{
    let mut rgba_data: Vec<u8> = Vec::new();
    if mode == BitmapMode::Other {
        return rgba_data;
    }
    let mut row: i32 = 0;
    assert(4 * 0 * (bw as int) == 0) by (nonlinear_arith);
    while row < bh
        invariant
            0 <= row,
            row <= bh || row == 0,
            mode != BitmapMode::Other,
            0 <= bw * bh * 4 <= i32::MAX,
            forall|row: int, col: int|
                0 <= row < bh && 0 <= col < bw ==> #[trigger] bitmap_cell_ok(buf@, pitch as int, mode, row, col),
            rgba_data@.len() == if bw > 0 { 4 * row * bw } else { 0 },
            forall|r0: int, c0: int|
                0 <= r0 < row && 0 <= c0 < bw ==> #[trigger] rgba_data@.subrange(4 * (r0 * bw + c0), 4 * (r0 * bw + c0) + 4)
                    == ({
                    let a = if mode == BitmapMode::Gray {
                        gray_alpha(buf@, pitch as int, r0, c0)
                    } else {
                        mono_alpha(buf@, pitch as int, r0, c0)
                    };
                    seq![a, a, a, a]
                }),
        decreases bh - row,
    {
        let ghost start = rgba_data@.len();
        let mut col: i32 = 0;
        while col < bw
            invariant
                0 <= row < bh,
                0 <= col,
                col <= bw || col == 0,
                mode != BitmapMode::Other,
                0 <= bw * bh * 4 <= i32::MAX,
                forall|row: int, col: int|
                    0 <= row < bh && 0 <= col < bw ==> #[trigger] bitmap_cell_ok(buf@, pitch as int, mode, row, col),
                bw > 0 ==> start == 4 * row * bw,
                rgba_data@.len() == start + 4 * col,
                forall|r0: int, c0: int|
                    ((0 <= r0 < row && 0 <= c0 < bw) || (r0 == row && 0 <= c0 < col)) ==> #[trigger] rgba_data@.subrange(
                        4 * (r0 * bw + c0),
                        4 * (r0 * bw + c0) + 4,
                    ) == ({
                        let a = if mode == BitmapMode::Gray {
                            gray_alpha(buf@, pitch as int, r0, c0)
                        } else {
                            mono_alpha(buf@, pitch as int, r0, c0)
                        };
                        seq![a, a, a, a]
                    }),
            decreases bw - col,
        {
            assert(bitmap_cell_ok(buf@, pitch as int, mode, row as int, col as int));
            let alpha: u8 = if mode == BitmapMode::Gray {
                buf[(row * pitch + col) as usize]
            } else {
                let byte_idx = row * pitch + col / 8;
                let bit_idx = (7 - (col % 8)) as u32;
                if byte_idx >= 0 && (byte_idx as usize) < buf.len() {
                    let byte = buf[byte_idx as usize];
                    assert((byte >> bit_idx) & 1 <= 1) by (bit_vector);
                    ((byte >> bit_idx) & 1) * 255
                } else {
                    0
                }
            };
            proof {
                assert(4 * (row * bw + col) == start + 4 * col) by (nonlinear_arith)
                    requires start == 4 * row * bw;
            }
            let ghost before = rgba_data@;
            rgba_data.push(alpha);
            rgba_data.push(alpha);
            rgba_data.push(alpha);
            rgba_data.push(alpha);
            assert(rgba_data@.subrange(4 * (row * bw + col), 4 * (row * bw + col) + 4) =~= seq![alpha, alpha, alpha, alpha]);
            assert forall|r0: int, c0: int|
                (0 <= r0 < row && 0 <= c0 < bw) || (r0 == row && 0 <= c0 < col) implies #[trigger] rgba_data@.subrange(
                    4 * (r0 * bw + c0),
                    4 * (r0 * bw + c0) + 4,
                ) == before.subrange(4 * (r0 * bw + c0), 4 * (r0 * bw + c0) + 4) by {
                if r0 < row {
                    assert(0 <= r0 * bw + c0 && r0 * bw + c0 + 1 <= row * bw + col) by (nonlinear_arith)
                        requires 0 <= r0 < row, 0 <= c0 < bw, 0 <= col < bw;
                } else {
                    assert(0 <= r0 * bw + c0 && r0 * bw + c0 + 1 <= row * bw + col) by (nonlinear_arith)
                        requires r0 == row, 0 <= row, 0 <= c0 < col, 0 <= col < bw;
                }
                assert(rgba_data@.subrange(4 * (r0 * bw + c0), 4 * (r0 * bw + c0) + 4) =~= before.subrange(
                    4 * (r0 * bw + c0),
                    4 * (r0 * bw + c0) + 4,
                ));
            }
            col = col + 1;
        }
        assert(bw > 0 ==> start + 4 * bw == 4 * (row + 1) * bw) by (nonlinear_arith)
            requires bw > 0 ==> start == 4 * row * bw;
        row = row + 1;
    }
    assert(bh > 0 && bw > 0 ==> 4 * bh * bw == 4 * bw * bh) by (nonlinear_arith);
    rgba_data
}

} // verus!
