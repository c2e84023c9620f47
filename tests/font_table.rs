use gpui_web::font_table::{
    detect_emoji_font, effective_family, icon_family, Font, FontError, FontId, FontStyle, FontTable, GlyphId,
};

fn be16(out: &mut Vec<u8>, v: u16) {
    out.extend_from_slice(&v.to_be_bytes());
}

fn be32(out: &mut Vec<u8>, v: u32) {
    out.extend_from_slice(&v.to_be_bytes());
}

/// A character map (format 4, Windows Unicode BMP) that maps `c` to glyph 1.
fn cmap_table(c: u16) -> Vec<u8> {
    let mut t = Vec::new();
    be16(&mut t, 0);
    be16(&mut t, 1);
    be16(&mut t, 3);
    be16(&mut t, 1);
    be32(&mut t, 12);
    be16(&mut t, 4);
    be16(&mut t, 32);
    be16(&mut t, 0);
    be16(&mut t, 4);
    be16(&mut t, 4);
    be16(&mut t, 1);
    be16(&mut t, 0);
    be16(&mut t, c);
    be16(&mut t, 0xffff);
    be16(&mut t, 0);
    be16(&mut t, c);
    be16(&mut t, 0xffff);
    be16(&mut t, 1u16.wrapping_sub(c));
    be16(&mut t, 1);
    be16(&mut t, 0);
    be16(&mut t, 0);
    t
}

/// A font file holding the given tables, in the given (sorted) order.
fn font_file(tables: &[(&[u8; 4], Vec<u8>)]) -> Vec<u8> {
    let mut out = Vec::new();
    be32(&mut out, 0x0001_0000);
    be16(&mut out, tables.len() as u16);
    be16(&mut out, 16);
    be16(&mut out, 0);
    be16(&mut out, 0);
    let mut offset = 12 + 16 * tables.len() as u32;
    for (tag, data) in tables {
        out.extend_from_slice(&tag[..]);
        be32(&mut out, 0);
        be32(&mut out, offset);
        be32(&mut out, data.len() as u32);
        offset += data.len() as u32;
    }
    for (_, data) in tables {
        out.extend_from_slice(data);
    }
    out
}

fn font(family: &str) -> Font {
    Font { family: family.to_string(), weight: 400, style: FontStyle::Normal }
}

#[test]
fn unknown_family_falls_back_to_default() {
    let available = vec!["Inter Variable".to_string(), "Noto Emoji".to_string()];
    let default = "Inter Variable".to_string();
    assert_eq!(effective_family(&"Nonexistent Family".to_string(), &available, &default), "Inter Variable");
    assert_eq!(effective_family(&"Noto Emoji".to_string(), &available, &default), "Noto Emoji");
}

#[test]
fn nonexistent_family_resolves_to_embedded_font() {
    let available = vec!["Inter Variable".to_string()];
    let default = "Inter Variable".to_string();
    let request = font("Nonexistent Family");
    let family = effective_family(&request.family, &available, &default);
    let mut table = FontTable::new();
    let data = font_file(&[(b"cmap", cmap_table('m' as u16))]);
    let id = table.resolve(&request, &family, Some((data, 0))).unwrap();
    assert_eq!(id, FontId(0));
    assert_eq!(table.font(id).family_name, "Inter Variable");
    assert!(!table.font(id).is_emoji);
    assert_eq!(table.glyph_for_char(id, 'm'), Some(GlyphId(1)));
    assert_eq!(table.glyph_for_char(id, 'x'), None);
}

#[test]
fn resolving_twice_gives_same_id() {
    let mut table = FontTable::new();
    let data = font_file(&[(b"cmap", cmap_table('m' as u16))]);
    let first = table.resolve(&font("A"), "A", Some((data.clone(), 0))).unwrap();
    let second = table.resolve(&font("A"), "A", None).unwrap();
    assert_eq!(first, second);
    assert_eq!(table.font_id(&font("A")), Some(first));
    assert_eq!(table.font_count(), 1);
    let other = table.resolve(&font("B"), "B", Some((data, 0))).unwrap();
    assert_eq!(other, FontId(1));
}

#[test]
fn missing_face_is_an_error() {
    let mut table = FontTable::new();
    assert_eq!(table.resolve(&font("A"), "A", None), Err(FontError::NoMatchingFace));
    assert_eq!(table.font_count(), 0);
    assert_eq!(table.font_id(&font("A")), None);
}

#[test]
fn face_without_m_is_rejected_unless_icon_font() {
    let mut table = FontTable::new();
    let data = font_file(&[(b"cmap", cmap_table('x' as u16))]);
    assert_eq!(
        table.resolve(&font("Plain"), "Plain", Some((data.clone(), 0))),
        Err(FontError::MissingBaselineGlyph)
    );
    assert_eq!(table.resolve(&font("Junk"), "Junk", Some((vec![1, 2, 3], 0))), Err(FontError::MissingBaselineGlyph));
    assert_eq!(table.font_count(), 0);
    let id = table.resolve(&font("Segoe Fluent Icons"), "Segoe Fluent Icons", Some((data, 0))).unwrap();
    assert_eq!(id, FontId(0));
    assert!(icon_family("Material Symbols"));
    assert!(!icon_family("Symbo Icon"));
}

#[test]
fn color_tables_mark_emoji_fonts() {
    let plain = font_file(&[(b"cmap", cmap_table('m' as u16))]);
    assert!(!detect_emoji_font(&plain, 0));
    let colr = font_file(&[(b"COLR", vec![0u8; 14]), (b"cmap", cmap_table('m' as u16))]);
    assert!(detect_emoji_font(&colr, 0));
    let sbix = font_file(&[(b"cmap", cmap_table('m' as u16)), (b"sbix", vec![0u8; 8])]);
    assert!(detect_emoji_font(&sbix, 0));
    assert!(!detect_emoji_font(&vec![0u8; 4], 0));
    let mut table = FontTable::new();
    let id = table.resolve(&font("Emoji"), "Emoji", Some((colr, 0))).unwrap();
    assert!(table.font(id).is_emoji);
}
