//! Pixel arithmetic: straight-alpha source-over blending of a coverage value
//! in a colour, and the compositing of the text layer over the background.

use vstd::prelude::*;

verus! {

/// Offset of the first byte of pixel `(x, y)` in a row-major RGBA buffer.
pub open spec fn pixel_start(width: int, x: int, y: int) -> int {
    (y * width + x) * 4
}

/// The four bytes of pixel `(x, y)` in a row-major RGBA buffer.
pub open spec fn pixel_at(data: Seq<u8>, width: int, x: int, y: int) -> Seq<u8> {
    data.subrange(pixel_start(width, x, y), pixel_start(width, x, y) + 4)
}

/// `(c * src_w + d * dst_w + total / 2) / total`: a rounded weighted mean.
pub open spec fn weighted_channel(c: int, src_w: int, d: int, dst_w: int) -> int {
    (c * src_w + d * dst_w + (src_w + dst_w) / 2) / (src_w + dst_w)
}

/// Alpha after painting coverage `alpha` over a pixel of alpha `dst_a`:
/// `alpha + ((255 - alpha) * dst_a + 127) / 255`.
pub open spec fn blended_alpha(alpha: int, dst_a: int) -> int {
    alpha + ((255 - alpha) * dst_a + 127) / 255
}

/// Straight-alpha source-over of `color` at coverage `alpha` onto `dst`.
/// Full coverage writes the colour, opaque; otherwise colour and
/// destination are mixed with weights `alpha * 255` and
/// `dst_alpha * (255 - alpha)`.
pub open spec fn spec_blend(color: Seq<u8>, alpha: int, dst: Seq<u8>) -> Seq<u8> {
    if alpha == 255 {
        seq![color[0], color[1], color[2], 255u8]
    } else {
        let dst_a = dst[3] as int;
        let out_a = blended_alpha(alpha, dst_a);
        if out_a > 0 {
            let src_w = alpha * 255;
            let dst_w = dst_a * (255 - alpha);
            seq![
                weighted_channel(color[0] as int, src_w, dst[0] as int, dst_w) as u8,
                weighted_channel(color[1] as int, src_w, dst[1] as int, dst_w) as u8,
                weighted_channel(color[2] as int, src_w, dst[2] as int, dst_w) as u8,
                out_a as u8,
            ]
        } else {
            dst
        }
    }
}

/// One channel of text over background: `(t * ta + b * (255 - ta) + 128) / 256`.
pub open spec fn over_channel(t: int, ta: int, b: int) -> int {
    (t * ta + b * (255 - ta) + 128) / 256
}

/// A text-layer pixel over a background pixel: a text pixel with alpha 0
/// leaves the background; any other gives an opaque mix.
pub open spec fn spec_composite(text: Seq<u8>, bg: Seq<u8>) -> Seq<u8> {
    let ta = text[3] as int;
    if ta > 0 {
        seq![
            over_channel(text[0] as int, ta, bg[0] as int) as u8,
            over_channel(text[1] as int, ta, bg[1] as int) as u8,
            over_channel(text[2] as int, ta, bg[2] as int) as u8,
            255u8,
        ]
    } else {
        bg
    }
}

pub(crate) proof fn lemma_weighted_channel_bounds(c: int, src_w: int, d: int, dst_w: int)
    requires
        0 <= c <= 255,
        0 <= d <= 255,
        0 < src_w,
        0 <= dst_w,
    ensures
        0 <= weighted_channel(c, src_w, d, dst_w) <= 255,
        c <= d ==> c <= weighted_channel(c, src_w, d, dst_w) <= d,
        d <= c ==> d <= weighted_channel(c, src_w, d, dst_w) <= c,
{
    let t = src_w + dst_w;
    let n = c * src_w + d * dst_w + t / 2;
    assert(0 <= c * src_w <= 255 * src_w) by (nonlinear_arith)
        requires 0 <= c <= 255, 0 < src_w;
    assert(0 <= d * dst_w <= 255 * dst_w) by (nonlinear_arith)
        requires 0 <= d <= 255, 0 <= dst_w;
    assert(0 <= n / t <= 255) by (nonlinear_arith)
        requires 0 <= n, n <= 255 * t + t / 2, t > 0;
    assert(c * t == c * src_w + c * dst_w) by (nonlinear_arith)
        requires t == src_w + dst_w;
    assert(d * t == d * src_w + d * dst_w) by (nonlinear_arith)
        requires t == src_w + dst_w;
    if c <= d {
        assert(c * dst_w <= d * dst_w) by (nonlinear_arith)
            requires c <= d, 0 <= dst_w;
        assert(c * src_w <= d * src_w) by (nonlinear_arith)
            requires c <= d, 0 < src_w;
        assert(c <= n / t <= d) by (nonlinear_arith)
            requires c * t <= n, n <= d * t + t / 2, t > 0, t / 2 < t;
    } else {
        assert(d * dst_w <= c * dst_w) by (nonlinear_arith)
            requires d <= c, 0 <= dst_w;
        assert(d * src_w <= c * src_w) by (nonlinear_arith)
            requires d <= c, 0 < src_w;
        assert(d <= n / t <= c) by (nonlinear_arith)
            requires d * t <= n, n <= c * t + t / 2, t > 0, t / 2 < t;
    }
}

pub(crate) proof fn lemma_blended_alpha_bounds(alpha: int, dst_a: int)
    requires
        0 < alpha <= 255,
        0 <= dst_a <= 255,
    ensures
        alpha <= blended_alpha(alpha, dst_a) <= 255,
        dst_a <= blended_alpha(alpha, dst_a),
{
    let p = (255 - alpha) * dst_a;
    assert(0 <= p <= (255 - alpha) * 255) by (nonlinear_arith)
        requires 0 <= 255 - alpha, 0 <= dst_a <= 255, p == (255 - alpha) * dst_a;
    assert((p + 127) / 255 <= 255 - alpha) by (nonlinear_arith)
        requires 0 <= p <= (255 - alpha) * 255, 0 <= 255 - alpha;
    assert(dst_a <= alpha + (p + 127) / 255) by (nonlinear_arith)
        requires p == (255 - alpha) * dst_a, 0 < alpha <= 255, 0 <= dst_a <= 255;
}

proof fn lemma_channel_product(c: u32, w: u32)
    requires
        c <= 255,
        w <= 255 * 255,
    ensures
        c * w <= 255 * 255 * 255,
{
    assert(c * w <= 255 * 255 * 255) by (nonlinear_arith)
        requires c <= 255, w <= 255 * 255;
}

/// Blend `color` at coverage `alpha` onto the pixel `dst`.
pub fn blend_pixel(color: [u8; 4], alpha: u32, dst: [u8; 4]) -> (r: [u8; 4])
    requires
        0 < alpha <= 255,
    ensures
        r@ == spec_blend(color@, alpha as int, dst@),
{
    if alpha == 255 {
        [color[0], color[1], color[2], 255]
    } else {
        // Source-over compositing with straight alpha
        let dst_a = dst[3] as u32;
        proof {
            lemma_blended_alpha_bounds(alpha as int, dst_a as int);
            assert((255 - alpha) * dst_a <= 255 * 255) by (nonlinear_arith)
                requires alpha <= 255, dst_a <= 255;
        }
        let out_a = alpha + ((255 - alpha) * dst_a + 127) / 255;
        if out_a > 0 {
            assert(alpha * 255 <= 255 * 255) by (nonlinear_arith)
                requires alpha <= 255;
            let src_w = alpha * 255;
            let dst_w = dst_a * (255 - alpha);
            let total = src_w + dst_w;
            proof {
                assert(dst_w <= 255 * 255) by (nonlinear_arith)
                    requires dst_w == dst_a * (255 - alpha), dst_a <= 255, alpha <= 255;
                let c0 = color[0] as u32;
                let c1 = color[1] as u32;
                let c2 = color[2] as u32;
                let d0 = dst[0] as u32;
                let d1 = dst[1] as u32;
                let d2 = dst[2] as u32;
                lemma_channel_product(c0, src_w);
                lemma_channel_product(c1, src_w);
                lemma_channel_product(c2, src_w);
                lemma_channel_product(d0, dst_w);
                lemma_channel_product(d1, dst_w);
                lemma_channel_product(d2, dst_w);
                lemma_weighted_channel_bounds(c0 as int, src_w as int, d0 as int, dst_w as int);
                lemma_weighted_channel_bounds(c1 as int, src_w as int, d1 as int, dst_w as int);
                lemma_weighted_channel_bounds(c2 as int, src_w as int, d2 as int, dst_w as int);
            }
            let r0 = ((color[0] as u32 * src_w + dst[0] as u32 * dst_w + total / 2) / total) as u8;
            let r1 = ((color[1] as u32 * src_w + dst[1] as u32 * dst_w + total / 2) / total) as u8;
            let r2 = ((color[2] as u32 * src_w + dst[2] as u32 * dst_w + total / 2) / total) as u8;
            [r0, r1, r2, out_a as u8]
        } else {
            dst
        }
    }
}

/// Composite one text-layer pixel over one background pixel.
pub fn composite_pixel(text: [u8; 4], bg: [u8; 4]) -> (r: [u8; 4])
    ensures
        r@ == spec_composite(text@, bg@),
{
    let ta = text[3] as u32;
    if ta > 0 {
        let inv_ta = 255 - ta;
        proof {
            assert forall|v: u32| #[trigger] (v >> 8) == v / 256 by {
                assert(v >> 8 == v / 256) by (bit_vector);
            }
            assert forall|t: u32, b: u32| t <= 255 && b <= 255 implies
                #[trigger] (t * ta + b * inv_ta) + 128 <= 255 * 255 + 128 by {
                assert(t * ta + b * inv_ta <= 255 * 255) by (nonlinear_arith)
                    requires t <= 255, b <= 255, ta <= 255, inv_ta == 255 - ta;
            }
            let t0 = text[0] as u32;
            let t1 = text[1] as u32;
            let t2 = text[2] as u32;
            let b0 = bg[0] as u32;
            let b1 = bg[1] as u32;
            let b2 = bg[2] as u32;
            assert((t0 * ta + b0 * inv_ta) + 128 <= 255 * 255 + 128);
            assert((t1 * ta + b1 * inv_ta) + 128 <= 255 * 255 + 128);
            assert((t2 * ta + b2 * inv_ta) + 128 <= 255 * 255 + 128);
        }
        let r0 = ((text[0] as u32 * ta + bg[0] as u32 * inv_ta + 128) >> 8) as u8;
        let r1 = ((text[1] as u32 * ta + bg[1] as u32 * inv_ta + 128) >> 8) as u8;
        let r2 = ((text[2] as u32 * ta + bg[2] as u32 * inv_ta + 128) >> 8) as u8;
        [r0, r1, r2, 255]
    } else {
        bg
    }
}

} // verus!

verus! {

/// Pixel `(x, y)` of a `width` by `height` image lies within its
/// `4 * width * height` bytes.
pub proof fn lemma_pixel_in_bounds(width: int, height: int, x: int, y: int)
    requires
        0 <= x < width,
        0 <= y < height,
    ensures
        0 <= pixel_start(width, x, y),
        pixel_start(width, x, y) + 4 <= 4 * width * height,
{
    assert(0 <= y * width) by (nonlinear_arith)
        requires 0 <= y, 0 <= width;
    assert(y * width + width <= height * width) by (nonlinear_arith)
        requires y + 1 <= height, 0 <= width;
    assert(4 * width * height == 4 * (height * width)) by (nonlinear_arith);
}

/// Distinct pixels of one row-major image occupy disjoint bytes.
pub proof fn lemma_pixels_disjoint(width: int, x1: int, y1: int, x2: int, y2: int)
    requires
        0 <= x1 < width,
        0 <= x2 < width,
        (x1, y1) != (x2, y2),
    ensures
        pixel_start(width, x1, y1) + 4 <= pixel_start(width, x2, y2)
            || pixel_start(width, x2, y2) + 4 <= pixel_start(width, x1, y1),
{
    if y1 == y2 {
    } else if y1 < y2 {
        assert(y1 * width + width <= y2 * width) by (nonlinear_arith)
            requires y1 + 1 <= y2, 0 <= width;
    } else {
        assert(y2 * width + width <= y1 * width) by (nonlinear_arith)
            requires y2 + 1 <= y1, 0 <= width;
    }
}

} // verus!

verus! {

/// Overwriting the four bytes of pixel `(px, py)` changes that pixel to the
/// new bytes and leaves every other pixel as it was.
pub proof fn lemma_put_pixel(data: Seq<u8>, width: int, height: int, px: int, py: int, p: Seq<u8>)
    requires
        data.len() == 4 * width * height,
        0 <= px < width,
        0 <= py < height,
        p.len() == 4,
    ensures
        ({
            let s = pixel_start(width, px, py);
            let new = data.update(s, p[0]).update(s + 1, p[1]).update(s + 2, p[2]).update(s + 3, p[3]);
            &&& new.len() == data.len()
            &&& pixel_at(new, width, px, py) == p
            &&& forall|x: int, y: int|
                0 <= x < width && 0 <= y < height && (x, y) != (px, py) ==> #[trigger] pixel_at(new, width, x, y)
                    == pixel_at(data, width, x, y)
        }),
{
    let s = pixel_start(width, px, py);
    let new = data.update(s, p[0]).update(s + 1, p[1]).update(s + 2, p[2]).update(s + 3, p[3]);
    lemma_pixel_in_bounds(width, height, px, py);
    assert(pixel_at(new, width, px, py) =~= p);
    assert forall|x: int, y: int|
        0 <= x < width && 0 <= y < height && (x, y) != (px, py) implies #[trigger] pixel_at(new, width, x, y)
            == pixel_at(data, width, x, y) by {
        lemma_pixel_in_bounds(width, height, x, y);
        lemma_pixels_disjoint(width, x, y, px, py);
        assert(pixel_at(new, width, x, y) =~= pixel_at(data, width, x, y));
    }
}

} // verus!
