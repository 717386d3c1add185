//! RGBA pixel storage from the `image` crate.
//!
//! `image::ImageBuffer` cannot be declared to Verus (its pixel type carries a
//! bound on a trait that `image` does not export), so the buffer is held in
//! a struct of this library whose body Verus does not see, and described by
//! two names: its bytes and its dimensions.

use vstd::prelude::*;
use crate::raster::{pixel_at, pixel_start};

verus! {

/// An `image::RgbaImage`: 8-bit RGBA pixels, row-major.
#[verifier::external_body]
pub struct RgbaBuffer {
    pub image: image::RgbaImage,
}

/// The bytes of an RGBA buffer, row-major, four per pixel.
pub uninterp spec fn rgba_pixels(b: RgbaBuffer) -> Seq<u8>;

/// The `(width, height)` of an RGBA buffer.
pub uninterp spec fn rgba_size(b: RgbaBuffer) -> (u32, u32);

/// Number of bytes of a `w` by `h` RGBA image.
pub open spec fn rgba_len(w: u32, h: u32) -> int {
    4 * w * h
}

/// `ImageBuffer::new`: a `width` by `height` image of zero bytes. It panics
/// when `4 * width * height` overflows `usize`.
#[verifier::external_body]
pub(crate) fn rgba_new(width: u32, height: u32) -> (r: RgbaBuffer)
    requires
        rgba_len(width, height) <= usize::MAX,
    ensures
        rgba_size(r) == (width, height),
        rgba_pixels(r) == Seq::new(rgba_len(width, height) as nat, |i: int| 0u8),
{
    RgbaBuffer { image: image::RgbaImage::new(width, height) }
}

/// `ImageBuffer::from_raw`: wraps `data` as a `width` by `height` image when
/// it holds at least `4 * width * height` bytes (and that product fits
/// `usize`); `None` otherwise.
#[verifier::external_body]
pub(crate) fn rgba_from_raw(width: u32, height: u32, data: Vec<u8>) -> (r: Option<RgbaBuffer>)
    ensures
        r is Some <==> (rgba_len(width, height) <= usize::MAX && rgba_len(width, height) <= data@.len()),
        r matches Some(b) ==> rgba_size(b) == (width, height) && rgba_pixels(b) == data@,
{
    image::RgbaImage::from_raw(width, height, data).map(|image| RgbaBuffer { image })
}

/// `ImageBuffer::get_pixel`: the four bytes of pixel `(x, y)`. It panics
/// outside the image.
#[verifier::external_body]
pub(crate) fn rgba_get_pixel(b: &RgbaBuffer, x: u32, y: u32) -> (r: [u8; 4])
    requires
        x < rgba_size(*b).0,
        y < rgba_size(*b).1,
    ensures
        r@ == rgba_pixels(*b).subrange(
            pixel_start(rgba_size(*b).0 as int, x as int, y as int),
            pixel_start(rgba_size(*b).0 as int, x as int, y as int) + 4,
        ),
{
    b.image.get_pixel(x, y).0
}

/// `ImageBuffer::put_pixel`: overwrites the four bytes of pixel `(x, y)`.
/// It panics outside the image.
/// Inside the image it does not panic.
#[verifier::external_body]
pub(crate) fn rgba_put_pixel(b: &mut RgbaBuffer, x: u32, y: u32, p: [u8; 4])
    requires
        x < rgba_size(*old(b)).0,
        y < rgba_size(*old(b)).1,
        rgba_pixels(*old(b)).len() == rgba_len(rgba_size(*old(b)).0, rgba_size(*old(b)).1),
    ensures
        rgba_size(*final(b)) == rgba_size(*old(b)),
        rgba_pixels(*final(b)) == ({
            let s = pixel_start(rgba_size(*old(b)).0 as int, x as int, y as int);
            rgba_pixels(*old(b)).update(s, p[0]).update(s + 1, p[1]).update(s + 2, p[2]).update(s + 3, p[3])
        }),
    no_unwind
{
    b.image.put_pixel(x, y, image::Rgba(p))
}

/// `ImageBuffer::as_raw`, copied: the image's bytes.
#[verifier::external_body]
pub(crate) fn rgba_raw_bytes(b: &RgbaBuffer) -> (r: Vec<u8>)
    ensures
        r@ == rgba_pixels(*b),
{
    b.image.as_raw().clone()
}

/// `ImageBuffer::dimensions`: `(width, height)`. An `ImageBuffer` is only
/// ever made over at least `4 * width * height` bytes, a count that fits
/// `usize` (its constructors check it).
#[verifier::external_body]
pub(crate) fn rgba_dimensions(b: &RgbaBuffer) -> (r: (u32, u32))
    ensures
        r == rgba_size(*b),
        rgba_len(r.0, r.1) <= rgba_pixels(*b).len(),
        rgba_len(r.0, r.1) <= usize::MAX,
{
    b.image.dimensions()
}

/// The region `imageops::crop_imm` keeps of an `iw` by `ih` image for the
/// request `(x, y, w, h)`: the corner clamped into the image, the size
/// clamped to what remains right of and below it.
pub open spec fn crop_region(iw: u32, ih: u32, x: u32, y: u32, w: u32, h: u32) -> (u32, u32, u32, u32) {
    let cx = if x < iw { x } else { iw };
    let cy = if y < ih { y } else { ih };
    let cw = if w < iw - cx { w } else { (iw - cx) as u32 };
    let ch = if h < ih - cy { h } else { (ih - cy) as u32 };
    (cx, cy, cw, ch)
}

/// The `(width, height)` of the region `crop_imm` keeps of `b`.
pub open spec fn crop_size(b: RgbaBuffer, x: u32, y: u32, w: u32, h: u32) -> (u32, u32) {
    let r = crop_region(rgba_size(b).0, rgba_size(b).1, x, y, w, h);
    (r.2, r.3)
}

impl RgbaBuffer {
    /// The image's `(width, height)`.
    pub fn size(&self) -> (r: (u32, u32))
        ensures
            r == rgba_size(*self),
    {
        rgba_dimensions(self)
    }
}

/// The bytes `imageops::resize` with the triangle filter makes of an image
/// of `size` holding `pixels`, resampled to `new_size`.
pub uninterp spec fn triangle_resized(pixels: Seq<u8>, size: (u32, u32), new_size: (u32, u32)) -> Seq<u8>;

/// `imageops::resize(.., FilterType::Triangle)`: a new `nw` by `nh` image
/// resampled from `b`. Its bytes are named by `triangle_resized`, a
/// function of `b`'s bytes and size and of the new size. It resamples
/// through an `f32` image `b`'s width wide and `nh` high, so the sizes are
/// kept where neither allocation overflows.
#[verifier::external_body]
pub(crate) fn rgba_resize(b: &RgbaBuffer, nw: u32, nh: u32) -> (r: RgbaBuffer)
    requires
        0 < rgba_size(*b).0,
        0 < rgba_size(*b).1,
        0 < nw,
        0 < nh,
        16 * rgba_size(*b).0 * nh <= isize::MAX,
        4 * nw * nh <= isize::MAX,
    ensures
        rgba_size(r) == (nw, nh),
        rgba_pixels(r) == triangle_resized(rgba_pixels(*b), rgba_size(*b), (nw, nh)),
        rgba_pixels(r).len() == rgba_len(nw, nh),
{
    RgbaBuffer { image: image::imageops::resize(&b.image, nw, nh, image::imageops::FilterType::Triangle) }
}

/// `imageops::crop_imm(..).to_image().into_raw()`: the bytes of the
/// cropped region (`crop_region`), row-major.
#[verifier::external_body]
pub(crate) fn rgba_crop_bytes(b: &RgbaBuffer, x: u32, y: u32, w: u32, h: u32) -> (r: Vec<u8>)
    requires
        rgba_len(rgba_size(*b).0, rgba_size(*b).1) <= rgba_pixels(*b).len(),
        rgba_len(rgba_size(*b).0, rgba_size(*b).1) <= usize::MAX,
    ensures
        r@.len() == rgba_len(crop_size(*b, x, y, w, h).0, crop_size(*b, x, y, w, h).1),
        forall|px: int, py: int|
            0 <= px < crop_size(*b, x, y, w, h).0 && 0 <= py < crop_size(*b, x, y, w, h).1 ==> #[trigger] pixel_at(
                r@,
                crop_size(*b, x, y, w, h).0 as int,
                px,
                py,
            ) == pixel_at(
                rgba_pixels(*b),
                rgba_size(*b).0 as int,
                crop_region(rgba_size(*b).0, rgba_size(*b).1, x, y, w, h).0 + px,
                crop_region(rgba_size(*b).0, rgba_size(*b).1, x, y, w, h).1 + py,
            ),
{
    image::imageops::crop_imm(&b.image, x, y, w, h).to_image().into_raw()
}

/// `ImageBuffer::as_raw().len()`: the number of bytes.
#[verifier::external_body]
pub(crate) fn rgba_byte_len(b: &RgbaBuffer) -> (r: usize)
    ensures
        r == rgba_pixels(*b).len(),
{
    b.image.as_raw().len()
}

} // verus!
