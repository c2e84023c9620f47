//! Sizing and finishing of glyph bitmaps: the bitmap extent for a subpixel
//! phase, the blank bitmap of a glyph without an image, and the conversion of
//! color glyphs from premultiplied RGBA to straight-alpha BGRA.
use crate::geometry::{Bounds, Point, Size};
use vstd::prelude::*;

verus! {

/// A glyph outline's extent in device pixels, rounded outward: minima
/// rounded down, maxima rounded up; y grows upward.
#[derive(Clone, Copy, Debug, PartialEq, Eq, Structural)]
pub struct OutlineExtents {
    pub x_min: i32,
    pub y_min: i32,
    pub x_max: i32,
    pub y_max: i32,
}

/// Whether the raster bounds of an extent fit in the coordinate range.
pub open spec fn extents_fit(e: OutlineExtents) -> bool {
    &&& -(e.y_max as int) <= i32::MAX
    &&& e.x_max - e.x_min <= i32::MAX
    &&& e.y_max - e.y_min <= i32::MAX
}

/// The raster bounds of a glyph, y growing downward: the rounded outline
/// extent, or the empty rectangle at the origin for a glyph without an
/// outline (a space, say).
pub open spec fn raster_bounds_spec(extents: Option<OutlineExtents>) -> Bounds {
    match extents {
        Some(e) => Bounds {
            origin: Point { x: e.x_min, y: (-(e.y_max as int)) as i32 },
            size: Size { width: (e.x_max - e.x_min) as i32, height: (e.y_max - e.y_min) as i32 },
        },
        None => Bounds { origin: Point { x: 0, y: 0 }, size: Size { width: 0, height: 0 } },
    }
}

/// The raster bounds of a glyph from its rounded outline extent.
pub fn raster_bounds(extents: Option<OutlineExtents>) -> (r: Bounds)
    requires
        extents matches Some(e) ==> extents_fit(e),
    ensures
        r == raster_bounds_spec(extents),
{
    match extents {
        Some(e) => Bounds {
            origin: Point { x: e.x_min, y: (-(e.y_max as i64)) as i32 },
            size: Size {
                width: (e.x_max as i64 - e.x_min as i64) as i32,
                height: (e.y_max as i64 - e.y_min as i64) as i32,
            },
        },
        None => Bounds { origin: Point { x: 0, y: 0 }, size: Size { width: 0, height: 0 } },
    }
}

/// Why a glyph could not be rasterized.
#[derive(Clone, Copy, Debug, PartialEq, Eq, Structural)]
pub enum RasterError {
    /// The raster bounds have a negative width or height.
    NegativeBounds,
}

/// The bitmap extent for raster bounds and a subpixel phase: one extra pixel
/// along each axis whose phase is not zero, to leave room for the shifted
/// antialiasing.
pub open spec fn bitmap_size_spec(raster_bounds: Bounds, subpixel_x: u8, subpixel_y: u8) -> Size {
    Size {
        width: (raster_bounds.size.width + if subpixel_x > 0 {
            1int
        } else {
            0int
        }) as i32,
        height: (raster_bounds.size.height + if subpixel_y > 0 {
            1int
        } else {
            0int
        }) as i32,
    }
}

/// Whether raster bounds have a negative extent, which no glyph produces.
pub open spec fn negative_extent(raster_bounds: Bounds) -> bool {
    raster_bounds.size.width < 0 || raster_bounds.size.height < 0
}

/// The size of the bitmap a glyph is rendered into. Zero-area bounds (a
/// glyph without an outline, such as a space) are legitimately empty content
/// and get their bitmap like any other; only a negative extent is an error.
pub fn raster_bitmap_size(raster_bounds: Bounds, subpixel_x: u8, subpixel_y: u8) -> (r: Result<
    Size,
    RasterError,
>)
    requires
        raster_bounds.size.width < i32::MAX,
        raster_bounds.size.height < i32::MAX,
    ensures
        negative_extent(raster_bounds) ==> r == Err::<Size, RasterError>(RasterError::NegativeBounds),
        !negative_extent(raster_bounds) ==> r == Ok::<Size, RasterError>(
            bitmap_size_spec(raster_bounds, subpixel_x, subpixel_y),
        ),
{
    if raster_bounds.size.width < 0 || raster_bounds.size.height < 0 {
        return Err(RasterError::NegativeBounds);
    }
    let mut size = raster_bounds.size;
    if subpixel_x > 0 {
        size.width = size.width + 1;
    }
    if subpixel_y > 0 {
        size.height = size.height + 1;
    }
    Ok(size)
}

/// Bytes per pixel: four for color glyphs, one (alpha coverage) otherwise.
pub open spec fn bytes_per_pixel(is_emoji: bool) -> nat {
    if is_emoji {
        4
    } else {
        1
    }
}

/// An all-zero bitmap of `size` pixels.
pub fn blank_bitmap(size: Size, is_emoji: bool) -> (r: Vec<u8>)
    requires
        size.width >= 0,
        size.height >= 0,
    ensures
        r@.len() == size.width as nat * size.height as nat * bytes_per_pixel(is_emoji),
        forall|i: int| 0 <= i < r@.len() ==> #[trigger] r@[i] == 0,
{
    let w = size.width as u64;
    let h = size.height as u64;
    let per: u64 = if is_emoji {
        4
    } else {
        1
    };
    assert(w * h <= 0x7fff_ffffu64 * 0x7fff_ffffu64) by (nonlinear_arith)
        requires
            w <= 0x7fff_ffffu64,
            h <= 0x7fff_ffffu64,
    ;
    assert(w * h * per <= 0xffff_ffff_ffff_ffffu64) by (nonlinear_arith)
        requires
            w * h <= 0x7fff_ffffu64 * 0x7fff_ffffu64,
            per <= 4,
    ;
    let count = w * h * per;
    let mut bytes: Vec<u8> = Vec::new();
    let mut i: u64 = 0;
    while i < count
        invariant
            i <= count,
            bytes@.len() == i,
            forall|j: int| 0 <= j < bytes@.len() ==> #[trigger] bytes@[j] == 0,
        decreases count - i,
    {
        bytes.push(0);
        i += 1;
    }
    bytes
}

/// A color channel of a premultiplied pixel divided by its alpha, rounded
/// down and capped at 255; unchanged when alpha is zero.
pub open spec fn straight_channel(c: u8, a: u8) -> u8 {
    if a == 0 {
        c
    } else if (c as int) * 255 / (a as int) > 255 {
        255
    } else {
        ((c as int) * 255 / (a as int)) as u8
    }
}

fn unpremultiply(c: u8, a: u8) -> (r: u8)
    ensures
        r == straight_channel(c, a),
{
    if a == 0 {
        c
    } else {
        let v = (c as u32) * 255 / (a as u32);
        if v > 255 {
            255
        } else {
            v as u8
        }
    }
}

/// Byte `i` of a color bitmap after conversion: within each whole pixel, blue
/// and red trade places and the color channels are divided by alpha; bytes of
/// a trailing partial pixel are kept.
pub open spec fn bgra_straight_byte(src: Seq<u8>, i: int) -> u8 {
    let p = i - i % 4;
    if p + 4 > src.len() {
        src[i]
    } else if i % 4 == 0 {
        straight_channel(src[p + 2], src[p + 3])
    } else if i % 4 == 1 {
        straight_channel(src[p + 1], src[p + 3])
    } else if i % 4 == 2 {
        straight_channel(src[p], src[p + 3])
    } else {
        src[p + 3]
    }
}

/// Converts a color bitmap from premultiplied-alpha RGBA to straight-alpha
/// BGRA, pixel by pixel.
pub fn rgba_premultiplied_to_bgra(src: &Vec<u8>) -> (r: Vec<u8>)
    ensures
        r@.len() == src@.len(),
        forall|i: int| 0 <= i < r@.len() ==> #[trigger] r@[i] == bgra_straight_byte(src@, i),
{
    let n = src.len();
    let mut out: Vec<u8> = Vec::new();
    let mut p: usize = 0;
    while n - p >= 4
        invariant
            n == src@.len(),
            p % 4 == 0,
            p <= n,
            out@.len() == p,
            forall|i: int| 0 <= i < out@.len() ==> #[trigger] out@[i] == bgra_straight_byte(src@, i),
        decreases n - p,
    {
        let a = src[p + 3];
        out.push(unpremultiply(src[p + 2], a));
        out.push(unpremultiply(src[p + 1], a));
        out.push(unpremultiply(src[p], a));
        out.push(a);
        proof {
            assert forall|i: int| 0 <= i < out@.len() implies #[trigger] out@[i] == bgra_straight_byte(
                src@,
                i,
            ) by {
                if i >= p {
                    assert(i - i % 4 == p);
                }
            }
        }
        p += 4;
    }
    while p < n
        invariant
            n == src@.len(),
            p <= n,
            n < p - p % 4 + 4,
            out@.len() == p,
            forall|i: int| 0 <= i < out@.len() ==> #[trigger] out@[i] == bgra_straight_byte(src@, i),
        decreases n - p,
    {
        out.push(src[p]);
        p += 1;
    }
    out
}

/// All bytes of a color bitmap after conversion.
pub open spec fn bgra_straight(src: Seq<u8>) -> Seq<u8> {
    Seq::new(src.len(), |i: int| bgra_straight_byte(src, i))
}

/// Byte `i` of a bitmap of `size` pixels holding an image of `src_size`
/// pixels placed at its top-left corner: the image's byte for pixels that
/// the image covers, zero elsewhere (rows and columns beyond the image are
/// padding, those beyond the bitmap are cropped).
pub open spec fn fitted_byte(src: Seq<u8>, src_size: Size, size: Size, bpp: nat, i: int) -> u8 {
    let p = i / bpp as int;
    let c = i % bpp as int;
    let x = p % size.width as int;
    let y = p / size.width as int;
    let j = (y * src_size.width + x) * bpp + c;
    if x < src_size.width && y < src_size.height && j < src.len() {
        src[j]
    } else {
        0
    }
}

/// The bitmap of `size` pixels of `bpp` bytes each that holds the image
/// `src` of `src_size` pixels at its top-left corner.
pub fn fit_bitmap(src: &Vec<u8>, src_size: Size, size: Size, bpp: u64) -> (r: Vec<u8>)
    requires
        size.width >= 0,
        size.height >= 0,
        1 <= bpp <= 4,
    ensures
        r@.len() == size.width as nat * size.height as nat * bpp,
        forall|i: int| 0 <= i < r@.len() ==> #[trigger] r@[i] == fitted_byte(src@, src_size, size, bpp as nat, i),
{
    let w = size.width as u64;
    let h = size.height as u64;
    assert(w * h <= 0x7fff_ffffu64 * 0x7fff_ffffu64) by (nonlinear_arith)
        requires
            w <= 0x7fff_ffffu64,
            h <= 0x7fff_ffffu64,
    ;
    assert(w * h * bpp <= 0xffff_ffff_ffff_ffffu64) by (nonlinear_arith)
        requires
            w * h <= 0x7fff_ffffu64 * 0x7fff_ffffu64,
            bpp <= 4,
    ;
    let n = w * h * bpp;
    let iw: u64 = if src_size.width > 0 {
        src_size.width as u64
    } else {
        0
    };
    let ih: u64 = if src_size.height > 0 {
        src_size.height as u64
    } else {
        0
    };
    let mut out: Vec<u8> = Vec::new();
    let mut i: u64 = 0;
    while i < n
        invariant
            n == w * h * bpp,
            w == size.width,
            h == size.height,
            1 <= bpp <= 4,
            iw == if src_size.width > 0 { src_size.width as int } else { 0 },
            ih == if src_size.height > 0 { src_size.height as int } else { 0 },
            i <= n,
            out@.len() == i,
            forall|k: int| 0 <= k < out@.len() ==> #[trigger] out@[k] == fitted_byte(src@, src_size, size, bpp as nat, k),
        decreases n - i,
    {
        assert(w > 0) by (nonlinear_arith)
            requires
                i < n,
                n == w * h * bpp,
        ;
        let p = i / bpp;
        let c = i % bpp;
        let x = p % w;
        let y = p / w;
        let mut byte: u8 = 0;
        if x < iw && y < ih {
            assert(y * iw + x < 0x7fff_ffffu64 * 0x7fff_ffffu64) by (nonlinear_arith)
                requires
                    y < ih,
                    x < iw,
                    ih <= 0x7fff_ffffu64,
                    iw <= 0x7fff_ffffu64,
            ;
            assert((y * iw + x) * bpp + c < 0xffff_ffff_ffff_ffffu64) by (nonlinear_arith)
                requires
                    y * iw + x < 0x7fff_ffffu64 * 0x7fff_ffffu64,
                    bpp <= 4,
                    c < bpp,
            ;
            let j = (y * iw + x) * bpp + c;
            if j < src.len() as u64 {
                byte = src[j as usize];
            }
        }
        out.push(byte);
        i += 1;
    }
    out
}

/// Fitting an image that already has the bitmap's size and byte count
/// leaves it as it is.
pub proof fn lemma_fit_same_size(src: Seq<u8>, size: Size, bpp: nat, i: int)
    requires
        size.width >= 0,
        size.height >= 0,
        1 <= bpp,
        src.len() == size.width as nat * size.height as nat * bpp,
        0 <= i < src.len(),
    ensures
        fitted_byte(src, size, size, bpp, i) == src[i],
{
    let w = size.width as int;
    let h = size.height as int;
    let b = bpp as int;
    let p = i / b;
    let c = i % b;
    vstd::arithmetic::div_mod::lemma_fundamental_div_mod(i, b);
    assert(0 <= c < b);
    assert(p >= 0) by (nonlinear_arith)
        requires
            i >= 0,
            b >= 1,
            p == i / b,
    ;
    assert(p < w * h) by (nonlinear_arith)
        requires
            i == b * p + c,
            c >= 0,
            i < w * h * b,
            b >= 1,
    ;
    assert(w > 0) by (nonlinear_arith)
        requires
            p >= 0,
            p < w * h,
            w >= 0,
            h >= 0,
    ;
    let x = p % w;
    let y = p / w;
    vstd::arithmetic::div_mod::lemma_fundamental_div_mod(p, w);
    assert(0 <= x < w);
    assert(0 <= y < h) by (nonlinear_arith)
        requires
            p == w * y + x,
            0 <= x < w,
            0 <= p < w * h,
    ;
    assert((y * w + x) * b + c == i) by (nonlinear_arith)
        requires
            p == w * y + x,
            i == b * p + c,
    ;
}

/// Pixel `(x, y)` of a fitted bitmap holds pixel `(x, y)` of the image, byte
/// for byte, where the image covers it, and zeros where it does not: the
/// image's bytes are moved, never altered.
pub proof fn lemma_fitted_pixel(src: Seq<u8>, src_size: Size, size: Size, bpp: nat, x: int, y: int, c: int)
    requires
        0 <= x < size.width,
        0 <= y < size.height,
        0 <= c < bpp,
    ensures
        ({
            let j = (y * src_size.width + x) * bpp + c;
            fitted_byte(src, src_size, size, bpp, (y * size.width + x) * bpp + c) == if x < src_size.width
                && y < src_size.height && j < src.len() {
                src[j]
            } else {
                0
            }
        }),
{
    let w = size.width as int;
    let q = y * w + x;
    vstd::arithmetic::div_mod::lemma_fundamental_div_mod_converse(q * bpp + c, bpp as int, q, c);
    vstd::arithmetic::div_mod::lemma_fundamental_div_mod_converse(q, w, y, x);
}

/// A glyph without an outline gets zero-area raster bounds, and from them a
/// bitmap size that is never an error: empty, or one pixel wide or high
/// along each axis with a non-zero subpixel phase. With no image to render,
/// its bitmap is that size and all zeros (`finish_glyph_bitmap`).
pub proof fn lemma_outline_free_glyph_size(subpixel_x: u8, subpixel_y: u8)
    ensures
        !negative_extent(raster_bounds_spec(None)),
        bitmap_size_spec(raster_bounds_spec(None), subpixel_x, subpixel_y) == (Size {
            width: if subpixel_x > 0 {
                1
            } else {
                0
            },
            height: if subpixel_y > 0 {
                1
            } else {
                0
            },
        }),
{
}

/// The final bitmap of a glyph, of `bitmap_size` pixels: the rendered
/// image, converted to straight-alpha BGRA when the glyph is a color glyph
/// and untouched otherwise, placed at the top-left corner and padded with
/// zeros or cropped to the bitmap; all zeros when the glyph has nothing to
/// render.
pub fn finish_glyph_bitmap(is_emoji: bool, bitmap_size: Size, image: Option<(Size, Vec<u8>)>) -> (r: (
    Size,
    Vec<u8>,
))
    requires
        bitmap_size.width >= 0,
        bitmap_size.height >= 0,
    ensures
        r.0 == bitmap_size,
        r.1@.len() == bitmap_size.width as nat * bitmap_size.height as nat * bytes_per_pixel(is_emoji),
        match image {
            Some((size, bytes)) => {
                let shown = if is_emoji {
                    bgra_straight(bytes@)
                } else {
                    bytes@
                };
                &&& forall|i: int|
                    0 <= i < r.1@.len() ==> #[trigger] r.1@[i] == fitted_byte(
                        shown,
                        size,
                        bitmap_size,
                        bytes_per_pixel(is_emoji),
                        i,
                    )
                &&& (size == bitmap_size && bytes@.len() == r.1@.len()) ==> r.1@ == shown
            },
            None => forall|i: int| 0 <= i < r.1@.len() ==> #[trigger] r.1@[i] == 0,
        },
{
    let bpp: u64 = if is_emoji {
        4
    } else {
        1
    };
    match image {
        Some((size, bytes)) => {
            let shown = if is_emoji {
                rgba_premultiplied_to_bgra(&bytes)
            } else {
                bytes
            };
            let ghost expected = if is_emoji {
                bgra_straight(bytes@)
            } else {
                bytes@
            };
            proof {
                if is_emoji {
                    assert(shown@ =~= bgra_straight(bytes@));
                }
            }
            let out = fit_bitmap(&shown, size, bitmap_size, bpp);
            proof {
                if size == bitmap_size && bytes@.len() == out@.len() {
                    assert forall|i: int| 0 <= i < out@.len() implies out@[i] == expected[i] by {
                        lemma_fit_same_size(expected, bitmap_size, bpp as nat, i);
                    }
                    assert(out@ =~= expected);
                }
            }
            (bitmap_size, out)
        },
        None => (bitmap_size, blank_bitmap(bitmap_size, is_emoji)),
    }
}

} // verus!
