use gpui_web::geometry::{point, size, Bounds};
use gpui_web::glyph_raster::{
    blank_bitmap, finish_glyph_bitmap, raster_bitmap_size, raster_bounds, rgba_premultiplied_to_bgra,
    OutlineExtents, RasterError,
};

#[test]
fn zero_area_bounds_get_a_bitmap() {
    let b = Bounds { origin: point(0, 0), size: size(0, 5) };
    assert_eq!(raster_bitmap_size(b, 0, 0), Ok(size(0, 5)));
    let b = Bounds { origin: point(3, 3), size: size(4, 0) };
    assert_eq!(raster_bitmap_size(b, 1, 1), Ok(size(5, 1)));
}

#[test]
fn negative_bounds_are_rejected() {
    let b = Bounds { origin: point(0, 0), size: size(-1, 5) };
    assert_eq!(raster_bitmap_size(b, 0, 0), Err(RasterError::NegativeBounds));
    let b = Bounds { origin: point(0, 0), size: size(2, -3) };
    assert_eq!(raster_bitmap_size(b, 2, 2), Err(RasterError::NegativeBounds));
}

#[test]
fn subpixel_phase_widens_bitmap() {
    let b = Bounds { origin: point(-1, -9), size: size(7, 10) };
    assert_eq!(raster_bitmap_size(b, 0, 0), Ok(size(7, 10)));
    assert_eq!(raster_bitmap_size(b, 2, 0), Ok(size(8, 10)));
    assert_eq!(raster_bitmap_size(b, 0, 1), Ok(size(7, 11)));
    assert_eq!(raster_bitmap_size(b, 3, 3), Ok(size(8, 11)));
}

#[test]
fn glyph_without_image_is_blank() {
    let (s, bytes) = finish_glyph_bitmap(false, size(3, 2), None);
    assert_eq!(s, size(3, 2));
    assert_eq!(bytes, vec![0u8; 6]);
    let (s, bytes) = finish_glyph_bitmap(true, size(3, 2), None);
    assert_eq!(s, size(3, 2));
    assert_eq!(bytes, vec![0u8; 24]);
    assert_eq!(blank_bitmap(size(0, 4), true), Vec::<u8>::new());
}

#[test]
fn emoji_pixels_swapped_and_unpremultiplied() {
    let src = vec![10u8, 20, 30, 40, 0, 0, 0, 0, 255, 128, 0, 255, 9];
    let out = rgba_premultiplied_to_bgra(&src);
    assert_eq!(out, vec![191u8, 127, 63, 40, 0, 0, 0, 0, 0, 128, 255, 255, 9]);
    let (s, bytes) = finish_glyph_bitmap(true, size(3, 1), Some((size(3, 1), src[..12].to_vec())));
    assert_eq!(s, size(3, 1));
    assert_eq!(bytes, out[..12].to_vec());
}

#[test]
fn straight_alpha_is_capped() {
    let out = rgba_premultiplied_to_bgra(&vec![200u8, 10, 50, 100]);
    assert_eq!(out, vec![127u8, 25, 255, 100]);
}

#[test]
fn monochrome_output_untouched() {
    let src = vec![10u8, 20, 30, 40, 50];
    let (s, bytes) = finish_glyph_bitmap(false, size(5, 1), Some((size(5, 1), src.clone())));
    assert_eq!(s, size(5, 1));
    assert_eq!(bytes, src);
}

#[test]
fn rendered_image_fitted_to_bitmap_size() {
    let (s, bytes) = finish_glyph_bitmap(false, size(3, 2), Some((size(2, 3), vec![1u8, 2, 3, 4, 5, 6])));
    assert_eq!(s, size(3, 2));
    assert_eq!(bytes, vec![1u8, 2, 0, 3, 4, 0]);
    let (s, bytes) = finish_glyph_bitmap(false, size(1, 1), Some((size(3, 5), vec![7u8; 15])));
    assert_eq!(s, size(1, 1));
    assert_eq!(bytes, vec![7u8]);
    let (s, bytes) = finish_glyph_bitmap(true, size(2, 1), Some((size(1, 1), vec![10u8, 20, 30, 40])));
    assert_eq!(s, size(2, 1));
    assert_eq!(bytes, vec![191u8, 127, 63, 40, 0, 0, 0, 0]);
}

#[test]
fn outline_extents_to_raster_bounds() {
    let e = OutlineExtents { x_min: -1, y_min: -3, x_max: 9, y_max: 12 };
    assert_eq!(raster_bounds(Some(e)), Bounds { origin: point(-1, -12), size: size(10, 15) });
}

#[test]
fn glyph_without_outline_has_empty_bounds() {
    let b = raster_bounds(None);
    assert_eq!(b, Bounds { origin: point(0, 0), size: size(0, 0) });
    assert_eq!(raster_bitmap_size(b, 0, 0), Ok(size(0, 0)));
    let bitmap = raster_bitmap_size(b, 2, 0).unwrap();
    assert_eq!(bitmap, size(1, 0));
    let (s, bytes) = finish_glyph_bitmap(false, bitmap, None);
    assert_eq!(s, size(1, 0));
    assert!(bytes.is_empty());
    let bitmap = raster_bitmap_size(b, 1, 3).unwrap();
    let (s, bytes) = finish_glyph_bitmap(true, bitmap, None);
    assert_eq!(s, size(1, 1));
    assert_eq!(bytes, vec![0u8; 4]);
}
