use gpui_web::atlas::{
    texture_kind, AtlasError, AtlasKey, AtlasTextureId, AtlasTextureKind, AtlasTile, GlyphKey, TileId, WebAtlas,
};
use gpui_web::geometry::{point, size, Bounds, Size};
use std::cell::Cell;

fn glyph(id: u32) -> AtlasKey {
    AtlasKey::Glyph(GlyphKey {
        font_id: 0,
        glyph_id: id,
        font_size_bits: 16.0f32.to_bits(),
        scale_factor_bits: 2.0f32.to_bits(),
        subpixel_x: 1,
        subpixel_y: 0,
        is_emoji: false,
    })
}

#[test]
fn second_fetch_uses_cache() {
    let mut atlas = WebAtlas::new();
    let calls = Cell::new(0);
    let build = || -> Result<Option<(Size, Vec<u8>)>, String> {
        calls.set(calls.get() + 1);
        Ok(Some((size(4, 5), vec![0u8; 20])))
    };
    let first = atlas.get_or_insert_with(&glyph(7), build).unwrap().unwrap();
    assert_eq!(
        first,
        AtlasTile {
            texture_id: AtlasTextureId { index: 1, kind: AtlasTextureKind::Monochrome },
            tile_id: TileId(2),
            padding: 0,
            bounds: Bounds { origin: point(0, 0), size: size(4, 5) },
        }
    );
    let second = atlas.get_or_insert_with(&glyph(7), build).unwrap().unwrap();
    assert_eq!(first, second);
    assert_eq!(calls.get(), 1);
    assert_eq!(atlas.lookup(&glyph(7)), Some(first));
}

#[test]
fn empty_build_caches_nothing() {
    let mut atlas = WebAtlas::new();
    let r = atlas.get_or_insert_with(&glyph(1), || -> Result<Option<(Size, Vec<u8>)>, String> { Ok(None) });
    assert_eq!(r, Ok(None));
    assert_eq!(atlas.lookup(&glyph(1)), None);
    let r = atlas.get_or_insert_with(&glyph(1), || -> Result<Option<(Size, Vec<u8>)>, String> {
        Err("bad font".to_string())
    });
    assert_eq!(r, Err(AtlasError::Build("bad font".to_string())));
}

#[test]
fn removed_key_builds_again() {
    let mut atlas = WebAtlas::new();
    let calls = Cell::new(0);
    let build = || -> Result<Option<(Size, Vec<u8>)>, String> {
        calls.set(calls.get() + 1);
        Ok(Some((size(2, 2), vec![1u8; 4])))
    };
    let a = atlas.get_or_insert_with(&glyph(1), build).unwrap().unwrap();
    let b = atlas.get_or_insert_with(&glyph(2), build).unwrap().unwrap();
    assert_eq!(b.tile_id, TileId(4));
    atlas.remove(&glyph(1));
    assert_eq!(atlas.lookup(&glyph(1)), None);
    assert_eq!(atlas.lookup(&glyph(2)), Some(b));
    let c = atlas.get_or_insert_with(&glyph(1), build).unwrap().unwrap();
    assert_eq!(calls.get(), 3);
    assert_ne!(a.tile_id, c.tile_id);
    assert_eq!(c.texture_id.index, 5);
}

#[test]
fn insert_replaces_tile() {
    let mut atlas = WebAtlas::new();
    let t1 = atlas.insert_built::<()>(&glyph(3), size(1, 1)).unwrap();
    let t2 = atlas.insert_built::<()>(&glyph(3), size(2, 2)).unwrap();
    assert_ne!(t1, t2);
    assert_eq!(atlas.lookup(&glyph(3)), Some(t2));
}

#[test]
fn tile_id_round_trips_through_packer_id() {
    let id = TileId(0x0003_0007);
    let alloc = id.to_alloc_id();
    assert_eq!(alloc.serialize(), 0x0003_0007);
    assert_eq!(TileId::from(alloc), id);
}

fn emoji(id: u32) -> AtlasKey {
    match glyph(id) {
        AtlasKey::Glyph(g) => AtlasKey::Glyph(GlyphKey { is_emoji: true, ..g }),
        other => other,
    }
}

#[test]
fn color_bitmaps_get_polychrome_textures() {
    assert_eq!(texture_kind(&glyph(1)), AtlasTextureKind::Monochrome);
    assert_eq!(texture_kind(&emoji(1)), AtlasTextureKind::Polychrome);
    assert_eq!(texture_kind(&AtlasKey::Image { image_id: 4, frame_index: 0 }), AtlasTextureKind::Polychrome);
    let mut atlas = WebAtlas::new();
    let t = atlas.insert_built::<()>(&emoji(1), size(8, 8)).unwrap();
    assert_eq!(t.texture_id.kind, AtlasTextureKind::Polychrome);
    let t = atlas.insert_built::<()>(&AtlasKey::Image { image_id: 4, frame_index: 2 }, size(8, 8)).unwrap();
    assert_eq!(t.texture_id, AtlasTextureId { index: 3, kind: AtlasTextureKind::Polychrome });
}

#[test]
fn finish_fetch_stores_built_outcome() {
    let mut atlas = WebAtlas::new();
    let r = atlas.finish_fetch::<String>(&glyph(9), Ok(Some((size(3, 3), vec![0u8; 9]))));
    let tile = r.unwrap().unwrap();
    assert_eq!(tile.tile_id, TileId(2));
    assert_eq!(atlas.lookup(&glyph(9)), Some(tile));
    assert_eq!(atlas.finish_fetch::<String>(&glyph(8), Ok(None)), Ok(None));
    assert_eq!(atlas.lookup(&glyph(8)), None);
    assert_eq!(atlas.finish_fetch(&glyph(8), Err("no face".to_string())), Err(AtlasError::Build("no face".to_string())));
    let again = atlas.finish_fetch::<String>(&glyph(9), Ok(Some((size(3, 3), vec![0u8; 9])))).unwrap().unwrap();
    assert_ne!(again.tile_id, tile.tile_id);
    assert_eq!(atlas.lookup(&glyph(9)), Some(again));
}
