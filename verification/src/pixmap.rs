//! The background layer: a `tiny_skia::Pixmap`, filled by `tiny_skia`.

use vstd::prelude::*;
use crate::raster::pixel_at;

verus! {

#[verifier::external_type_specification]
#[verifier::external_body]
pub struct ExPixmap(tiny_skia::Pixmap);

/// The bytes of a pixmap: premultiplied RGBA, row-major, four per pixel.
pub uninterp spec fn pixmap_pixels(p: tiny_skia::Pixmap) -> Seq<u8>;

/// The `(width, height)` of a pixmap.
pub uninterp spec fn pixmap_size(p: tiny_skia::Pixmap) -> (u32, u32);

/// The premultiplied RGBA bytes that `tiny_skia` stores for the straight
/// RGBA colour `color` (`Color::from_rgba8(..).premultiply().to_color_u8()`).
pub uninterp spec fn premultiplied_rgba8(color: Seq<u8>) -> Seq<u8>;

/// The pixmap bytes after `Pixmap::fill_rect` paints the integer rectangle
/// `(x, y, width, height)` in the straight RGBA colour `color` (solid
/// paint, default settings, identity transform, no mask) onto a pixmap of
/// the given size and bytes.
pub uninterp spec fn filled_rect_pixels(
    pixels: Seq<u8>,
    size: (u32, u32),
    rect: (i32, i32, u32, u32),
    color: Seq<u8>,
) -> Seq<u8>;

/// When `Pixmap::new` gives a pixmap: both sides positive, a row of
/// `4 * width` bytes within `i32`, and `4 * width * height` bytes within
/// `usize`.
pub open spec fn pixmap_fits(width: u32, height: u32) -> bool {
    &&& width > 0
    &&& height > 0
    &&& 4 * width <= i32::MAX
    &&& 4 * width * height <= usize::MAX
}

/// `Pixmap::new`: a transparent (all-zero) pixmap, or `None` when the size
/// does not fit (see `pixmap_fits`).
#[verifier::external_body]
pub(crate) fn pixmap_new(width: u32, height: u32) -> (r: Option<tiny_skia::Pixmap>)
    ensures
        r is Some <==> pixmap_fits(width, height),
        r matches Some(p) ==> pixmap_size(p) == (width, height) && pixmap_pixels(p) == Seq::new(
            (4 * width * height) as nat,
            |i: int| 0u8,
        ),
{
    tiny_skia::Pixmap::new(width, height)
}

/// `Pixmap::width`.
#[verifier::external_body]
pub(crate) fn pixmap_width(p: &tiny_skia::Pixmap) -> (r: u32)
    ensures
        r == pixmap_size(*p).0,
{
    p.width()
}

/// `Pixmap::height`.
#[verifier::external_body]
pub(crate) fn pixmap_height(p: &tiny_skia::Pixmap) -> (r: u32)
    ensures
        r == pixmap_size(*p).1,
{
    p.height()
}

/// `Pixmap::fill` with `Color::from_rgba8`: every pixel becomes the
/// premultiplied colour. For an opaque colour premultiplication keeps the
/// channels (tiny-skia returns the colour unchanged when alpha is 255).
/// It does not panic.
#[verifier::external_body]
pub(crate) fn pixmap_fill(p: &mut tiny_skia::Pixmap, color: [u8; 4])
    ensures
        pixmap_size(*final(p)) == pixmap_size(*old(p)),
        pixmap_pixels(*final(p)) == Seq::new(
            pixmap_pixels(*old(p)).len(),
            |i: int| premultiplied_rgba8(color@)[i % 4],
        ),
        color[3] == 255 ==> pixmap_pixels(*final(p)) == Seq::new(
            pixmap_pixels(*old(p)).len(),
            |i: int| color@[i % 4],
        ),
    no_unwind
{
    p.fill(tiny_skia::Color::from_rgba8(color[0], color[1], color[2], color[3]))
}

/// `Pixmap::fill_rect` of the rectangle `(x, y, width, height)`, which lies
/// on the pixmap, with a solid paint of `color`: the bytes become
/// `filled_rect_pixels` of the old ones; the size and the byte count stay.
/// On a pixmap less than 2^24 pixels wide and high, where `f32` holds every
/// integer edge exactly, `fill_rect` blits only inside the rectangle, so
/// every pixel outside it keeps its bytes; and with an opaque colour every
/// pixel inside it takes the colour exactly. Up to 8191 pixels each way it
/// takes the direct anti-aliased rectangle fill: integer edges cover whole
/// pixels of the rectangle alone; rows two or more pixels wide are memset
/// with the premultiplied colour (for an opaque colour, the colour), and
/// one-pixel-wide columns go through the raster pipeline with full
/// coverage, whose lerp with coverage 255 yields the source. Beyond that
/// it fills the rectangle as a path, tile by tile (tiles of at most 8191
/// pixels, the path translated by whole pixels, which is exact below
/// 2^24): the edge clipper cuts the rectangle's vertical edges to the
/// tile at integer coordinates, the 4x supersampled scan gives each pixel
/// row inside the rectangle four full sub-rows (64 + 64 + 64 + 63 = 255),
/// so inside pixels reach alpha 255 and are memset like the direct fill,
/// and pixels outside get no coverage and are skipped. From 2^24 pixels
/// on, the `f32` rectangle no longer holds every integer edge, and an edge
/// can move by a pixel; nothing is stated there.
/// It does not panic on a rectangle that lies on the pixmap.
#[verifier::external_body]
pub(crate) fn pixmap_fill_rect(p: &mut tiny_skia::Pixmap, x: i32, y: i32, width: u32, height: u32, color: [u8; 4])
    requires
        0 <= x,
        0 <= y,
        0 < width,
        0 < height,
        x + width <= pixmap_size(*old(p)).0,
        y + height <= pixmap_size(*old(p)).1,
    ensures
        pixmap_size(*final(p)) == pixmap_size(*old(p)),
        pixmap_pixels(*final(p)) == filled_rect_pixels(
            pixmap_pixels(*old(p)),
            pixmap_size(*old(p)),
            (x, y, width, height),
            color@,
        ),
        pixmap_pixels(*final(p)).len() == pixmap_pixels(*old(p)).len(),
        pixmap_size(*old(p)).0 < 0x100_0000 && pixmap_size(*old(p)).1 < 0x100_0000 ==> forall|px: int, py: int|
            0 <= px < pixmap_size(*old(p)).0 && 0 <= py < pixmap_size(*old(p)).1 && !(x <= px < x + width && y <= py
                < y + height) ==> #[trigger] pixel_at(pixmap_pixels(*final(p)), pixmap_size(*old(p)).0 as int, px, py)
                == pixel_at(pixmap_pixels(*old(p)), pixmap_size(*old(p)).0 as int, px, py),
        pixmap_size(*old(p)).0 < 0x100_0000 && pixmap_size(*old(p)).1 < 0x100_0000 && color[3] == 255 ==> forall|px: int, py: int|
            x <= px < x + width && y <= py < y + height ==> #[trigger] pixel_at(
                pixmap_pixels(*final(p)),
                pixmap_size(*old(p)).0 as int,
                px,
                py,
            ) == color@,
    no_unwind
{
    if let Some(rect) = tiny_skia::IntRect::from_xywh(x, y, width, height) {
        let mut paint = tiny_skia::Paint::default();
        paint.set_color_rgba8(color[0], color[1], color[2], color[3]);
        p.fill_rect(rect.to_rect(), &paint, tiny_skia::Transform::identity(), None);
    }
}

/// `Pixmap::data`, copied: the pixmap's bytes.
#[verifier::external_body]
pub(crate) fn pixmap_bytes(p: &tiny_skia::Pixmap) -> (r: Vec<u8>)
    ensures
        r@ == pixmap_pixels(*p),
{
    p.data().to_vec()
}

/// `Pixmap::data_mut().copy_from_slice(src)`: overwrites all bytes. It
/// panics when the lengths differ.
/// With equal lengths it does not panic.
#[verifier::external_body]
pub(crate) fn pixmap_copy_from(p: &mut tiny_skia::Pixmap, src: &Vec<u8>)
    requires
        src@.len() == pixmap_pixels(*old(p)).len(),
    ensures
        pixmap_size(*final(p)) == pixmap_size(*old(p)),
        pixmap_pixels(*final(p)) == src@,
    no_unwind
{
    p.data_mut().copy_from_slice(src)
}

/// `Pixmap::data().len()`: the number of bytes.
#[verifier::external_body]
pub(crate) fn pixmap_byte_len(p: &tiny_skia::Pixmap) -> (r: usize)
    ensures
        r == pixmap_pixels(*p).len(),
{
    p.data().len()
}

} // verus!
