//! Resolution of font requests to loaded fonts, memoized per request.
use crate::util::chars_of;
use skrifa::MetadataProvider;
use std::sync::Arc;
use vstd::prelude::*;

verus! {

/// Handle of a loaded font: its position in the table of loaded fonts.
#[derive(Clone, Copy, Debug, PartialEq, Eq, Structural, Hash)]
pub struct FontId(pub usize);

/// A face-relative glyph index.
#[derive(Clone, Copy, Debug, PartialEq, Eq, Structural, Hash)]
pub struct GlyphId(pub u32);

/// The slant of a requested typeface.
#[derive(Clone, Copy, Debug, PartialEq, Eq, Structural, Hash)]
pub enum FontStyle {
    Normal,
    Italic,
    Oblique,
}

/// A requested typeface: family name, numeric weight (100 to 900 for the
/// usual weights) and style.
#[derive(Clone, Debug, Hash)]
pub struct Font {
    pub family: String,
    pub weight: u16,
    pub style: FontStyle,
}

/// What identifies a font request: two requests with the same key are the
/// same request.
pub type FontKey = (Seq<char>, u16, FontStyle);

impl Font {
    pub open spec fn key(&self) -> FontKey {
        (self.family@, self.weight, self.style)
    }

    /// A copy of this request.
    pub fn duplicate(&self) -> (r: Font)
        ensures
            r.key() == self.key(),
    {
        Font { family: self.family.clone(), weight: self.weight, style: self.style }
    }
}

impl PartialEq for Font {
    fn eq(&self, other: &Font) -> (r: bool)
        ensures
            r == (self.key() == other.key()),
    {
        self.family == other.family && self.weight == other.weight && self.style == other.style
    }
}

impl vstd::std_specs::cmp::PartialEqSpecImpl for Font {
    open spec fn obeys_eq_spec() -> bool {
        true
    }

    open spec fn eq_spec(&self, other: &Font) -> bool {
        self.key() == other.key()
    }
}

impl Eq for Font {}

/// The glyph that a font's character map gives a character, if the data reads
/// as a font with a face at `index` and the map has an entry.
pub uninterp spec fn charmap_glyph(data: Seq<u8>, index: u32, c: char) -> Option<u32>;

/// Whether the data reads as a font with a face at `index` whose table
/// directory lists `tag` with a byte range that lies within the data.
pub uninterp spec fn has_font_table(data: Seq<u8>, index: u32, tag: u32) -> bool;

/// Relies on skrifa's `FontRef::from_index` and `Charmap::map`: the nominal
/// glyph of a character in the face's character map, nothing when the data is
/// not a font or the map has no entry.
#[verifier::external_body]
fn nominal_glyph(data: &Vec<u8>, index: u32, c: char) -> (r: Option<u32>)
    ensures
        r == charmap_glyph(data@, index, c),
{
    match skrifa::FontRef::from_index(data.as_slice(), index) {
        Ok(font) => match font.charmap().map(c) {
            Some(glyph) => Some(glyph.to_u32()),
            None => None,
        },
        Err(_) => None,
    }
}

/// Relies on skrifa's `FontRef::from_index` and `FontRef::table_data`: whether
/// the face's table directory lists the table with the given tag, with a byte
/// range within the data.
#[verifier::external_body]
fn font_table_present(data: &Vec<u8>, index: u32, tag: u32) -> (r: bool)
    ensures
        r == has_font_table(data@, index, tag),
{
    match skrifa::FontRef::from_index(data.as_slice(), index) {
        Ok(font) => font.table_data(skrifa::Tag::from_u32(tag)).is_some(),
        Err(_) => false,
    }
}

/// Tag of the color outline table.
pub const TAG_COLR: u32 = 0x434f4c52;

/// Tag of the color bitmap data table.
pub const TAG_CBDT: u32 = 0x43424454;

/// Tag of the standard bitmap graphics table.
pub const TAG_SBIX: u32 = 0x73626978;

/// A face is a color (emoji) font when it has a color outline, color bitmap
/// or bitmap graphics table.
pub open spec fn is_color_font(data: Seq<u8>, index: u32) -> bool {
    has_font_table(data, index, TAG_COLR) || has_font_table(data, index, TAG_CBDT)
        || has_font_table(data, index, TAG_SBIX)
}

/// Whether a face is a color (emoji) font.
pub fn detect_emoji_font(data: &Vec<u8>, index: u32) -> (r: bool)
    ensures
        r == is_color_font(data@, index),
{
    font_table_present(data, index, TAG_COLR) || font_table_present(data, index, TAG_CBDT)
        || font_table_present(data, index, TAG_SBIX)
}

/// The glyph a face maps a character to, where the mapping is not the
/// missing-glyph index 0.
pub open spec fn mapped_glyph(data: Seq<u8>, index: u32, c: char) -> Option<GlyphId> {
    match charmap_glyph(data, index, c) {
        Some(g) => if g != 0 {
            Some(GlyphId(g))
        } else {
            None
        },
        None => None,
    }
}

/// The glyph of a character in a face, or nothing when the face does not map
/// it to a real glyph.
pub fn glyph_in_face(data: &Vec<u8>, index: u32, c: char) -> (r: Option<GlyphId>)
    ensures
        r == mapped_glyph(data@, index, c),
{
    match nominal_glyph(data, index, c) {
        Some(g) => if g != 0 {
            Some(GlyphId(g))
        } else {
            None
        },
        None => None,
    }
}

/// `hay` holds `needle` as a contiguous part.
pub open spec fn has_part(hay: Seq<char>, needle: Seq<char>) -> bool {
    exists|i: int| 0 <= i && i + needle.len() <= hay.len() && #[trigger] hay.subrange(i, i + needle.len()) == needle
}

/// Whether `needle` occurs in `hay` as a contiguous part.
pub fn contains_chars(hay: &Vec<char>, needle: &Vec<char>) -> (r: bool)
    ensures
        r == has_part(hay@, needle@),
{
    let n = hay.len();
    let m = needle.len();
    if m > n {
        proof {
            assert forall|i: int| 0 <= i && i + m <= n implies #[trigger] hay@.subrange(i, i + m) != needle@ by {}
        }
        return false;
    }
    let mut i: usize = 0;
    while i <= n - m
        invariant
            n == hay@.len(),
            m == needle@.len(),
            m <= n,
            i <= n - m + 1,
            forall|k: int| 0 <= k < i ==> #[trigger] hay@.subrange(k, k + m) != needle@,
        decreases n - m + 1 - i,
    {
        let mut j: usize = 0;
        let mut same = true;
        while j < m
            invariant
                n == hay@.len(),
                m == needle@.len(),
                i + m <= n,
                j <= m,
                same == (forall|t: int| 0 <= t < j ==> hay@[i + t] == needle@[t]),
            decreases m - j,
        {
            if hay[i + j] != needle[j] {
                same = false;
            }
            j += 1;
        }
        if same {
            proof {
                assert(hay@.subrange(i as int, i + m) =~= needle@);
            }
            return true;
        }
        proof {
            let t = choose|t: int| 0 <= t < m && hay@[i + t] != needle@[t];
            assert(hay@.subrange(i as int, i + m)[t] != needle@[t]);
        }
        i += 1;
    }
    false
}

/// Icon and symbol fonts legitimately lack alphabetic glyphs; they are told
/// apart by the words "Icons" or "Symbol" in their family name.
pub open spec fn is_icon_family(family: Seq<char>) -> bool {
    has_part(family, seq!['I', 'c', 'o', 'n', 's']) || has_part(family, seq!['S', 'y', 'm', 'b', 'o', 'l'])
}

/// Whether a family name marks an icon or symbol font.
pub fn icon_family(family: &str) -> (r: bool)
    ensures
        r == is_icon_family(family@),
{
    let icons: Vec<char> = vec!['I', 'c', 'o', 'n', 's'];
    let symbol: Vec<char> = vec!['S', 'y', 'm', 'b', 'o', 'l'];
    proof {
        assert(icons@ =~= seq!['I', 'c', 'o', 'n', 's']);
        assert(symbol@ =~= seq!['S', 'y', 'm', 'b', 'o', 'l']);
    }
    let chars = chars_of(family);
    contains_chars(&chars, &icons) || contains_chars(&chars, &symbol)
}

/// Whether the font collection lists a family.
pub open spec fn family_listed(available: Seq<String>, family: Seq<char>) -> bool {
    exists|i: int| 0 <= i < available.len() && (#[trigger] available[i])@ == family
}

/// The family a request is resolved under: the requested family when the
/// collection lists it, else the fallback family.
pub fn effective_family(requested: &String, available: &Vec<String>, fallback: &String) -> (r: String)
    ensures
        r@ == if family_listed(available@, requested@) {
            requested@
        } else {
            fallback@
        },
{
    let mut i: usize = 0;
    while i < available.len()
        invariant
            i <= available@.len(),
            forall|j: int| 0 <= j < i ==> (#[trigger] available@[j])@ != requested@,
        decreases available.len() - i,
    {
        if available[i] == *requested {
            return requested.clone();
        }
        i += 1;
    }
    fallback.clone()
}

/// A font face loaded for use: its file data (shared with the readers that
/// query it), the face index within a collection, whether it is a color
/// (emoji) font, and the family name used when shaping with it.
#[derive(Debug)]
pub struct LoadedFont {
    pub font_data: Arc<Vec<u8>>,
    pub font_index: u32,
    pub is_emoji: bool,
    pub family_name: String,
}

/// Why a font request could not be resolved.
#[derive(Clone, Copy, Debug, PartialEq, Eq, Structural)]
pub enum FontError {
    /// No face matches the family, weight and style.
    NoMatchingFace,
    /// The matching face has no glyph for 'm' and is not an icon font.
    MissingBaselineGlyph,
}

/// The id recorded for `key` by the first selection of it, if any.
pub open spec fn lookup_font(selections: Seq<(Font, FontId)>, key: FontKey) -> Option<FontId>
    decreases selections.len(),
{
    if selections.len() == 0 {
        None
    } else if selections[0].0.key() == key {
        Some(selections[0].1)
    } else {
        lookup_font(selections.drop_first(), key)
    }
}

/// The face a font query found, as data and face index.
pub open spec fn matched_view(matched: Option<(Vec<u8>, u32)>) -> Option<(Seq<u8>, u32)> {
    match matched {
        Some((data, index)) => Some((data@, index)),
        None => None,
    }
}

/// The outcome of resolving a request: its recorded id when it was resolved
/// before; otherwise the next id when the query found a face that maps 'm' to
/// a glyph or belongs to an icon family, and an error when it did not.
pub open spec fn resolution(
    selected: Option<FontId>,
    font_count: nat,
    family: Seq<char>,
    matched: Option<(Seq<u8>, u32)>,
) -> Result<FontId, FontError> {
    match selected {
        Some(id) => Ok(id),
        None => match matched {
            None => Err(FontError::NoMatchingFace),
            Some((data, index)) => if mapped_glyph(data, index, 'm') is None && !is_icon_family(
                family,
            ) {
                Err(FontError::MissingBaselineGlyph)
            } else {
                Ok(FontId(font_count as usize))
            },
        },
    }
}

/// The table of loaded fonts and the record of which request resolved to
/// which of them. Fonts are only ever added.
/// Requests are found by scanning the record, so that which id each request
/// maps to is stated and proved.
pub struct FontTable {
    fonts: Vec<LoadedFont>,
    selections: Vec<(Font, FontId)>,
}

impl FontTable {
    pub closed spec fn fonts_view(&self) -> Seq<LoadedFont> {
        self.fonts@
    }

    pub closed spec fn selections_view(&self) -> Seq<(Font, FontId)> {
        self.selections@
    }

    /// Each loaded font was loaded for exactly one request: the request
    /// recorded at position `i` resolved to font `i`.
    pub open spec fn well_formed(&self) -> bool {
        &&& self.selections_view().len() == self.fonts_view().len()
        &&& forall|i: int|
            0 <= i < self.selections_view().len() ==> (#[trigger] self.selections_view()[i]).1.0 == i
    }

    /// The id recorded for a request, if it was resolved before.
    pub open spec fn selected(&self, key: FontKey) -> Option<FontId> {
        lookup_font(self.selections_view(), key)
    }

    /// What one resolution does: it returns `resolution(..)`; a request
    /// resolved before, or one that fails, leaves the table as it was; a new
    /// one appends the found face and records the request.
    pub open spec fn resolve_post(
        old: FontTable,
        new: FontTable,
        key: FontKey,
        family: Seq<char>,
        matched: Option<(Seq<u8>, u32)>,
        r: Result<FontId, FontError>,
    ) -> bool {
        &&& r == resolution(old.selected(key), old.fonts_view().len(), family, matched)
        &&& new.well_formed()
        &&& if old.selected(key) is Some || r is Err {
            &&& new.fonts_view() == old.fonts_view()
            &&& new.selections_view() == old.selections_view()
        } else {
            let (data, index) = matched.unwrap();
            let loaded = new.fonts_view().last();
            &&& new.fonts_view().len() == old.fonts_view().len() + 1
            &&& new.fonts_view().drop_last() == old.fonts_view()
            &&& loaded.font_data@ == data
            &&& loaded.font_index == index
            &&& loaded.is_emoji == is_color_font(data, index)
            &&& loaded.family_name@ == family
            &&& new.selections_view().drop_last() == old.selections_view()
            &&& new.selections_view().last().0.key() == key
            &&& new.selections_view().last().1 == r.unwrap()
        }
        &&& r is Ok ==> new.selected(key) == Some(r.unwrap())
    }

    /// An empty table.
    pub fn new() -> (r: FontTable)
        ensures
            r.well_formed(),
            r.fonts_view().len() == 0,
            r.selections_view().len() == 0,
    {
        FontTable { fonts: Vec::new(), selections: Vec::new() }
    }

    /// The number of loaded fonts.
    pub fn font_count(&self) -> (r: usize)
        ensures
            r == self.fonts_view().len(),
    {
        self.fonts.len()
    }

    /// The loaded font with the given id.
    pub fn font(&self, id: FontId) -> (r: &LoadedFont)
        requires
            id.0 < self.fonts_view().len(),
        ensures
            *r == self.fonts_view()[id.0 as int],
    {
        &self.fonts[id.0]
    }

    /// The id a request resolved to before, if it was: the lookup that
    /// precedes every resolution.
    pub fn font_id(&self, font: &Font) -> (r: Option<FontId>)
        ensures
            r == self.selected(font.key()),
    {
        let mut i: usize = 0;
        proof {
            assert(self.selections@.subrange(0, self.selections@.len() as int) =~= self.selections@);
        }
        while i < self.selections.len()
            invariant
                i <= self.selections@.len(),
                lookup_font(self.selections@, font.key()) == lookup_font(
                    self.selections@.subrange(i as int, self.selections@.len() as int),
                    font.key(),
                ),
            decreases self.selections.len() - i,
        {
            proof {
                let tail = self.selections@.subrange(i as int, self.selections@.len() as int);
                assert(tail.drop_first() =~= self.selections@.subrange(
                    i + 1,
                    self.selections@.len() as int,
                ));
            }
            if self.selections[i].0 == *font {
                return Some(self.selections[i].1);
            }
            i += 1;
        }
        None
    }

    /// The glyph of a character in a loaded font, or nothing when the font does
    /// not map it to a real glyph.
    pub fn glyph_for_char(&self, id: FontId, c: char) -> (r: Option<GlyphId>)
        requires
            id.0 < self.fonts_view().len(),
        ensures
            r == mapped_glyph(
                self.fonts_view()[id.0 as int].font_data@,
                self.fonts_view()[id.0 as int].font_index,
                c,
            ),
    {
        let loaded = &self.fonts[id.0];
        glyph_in_face(&loaded.font_data, loaded.font_index, c)
    }

    /// Resolves a request to a font id. A request resolved before gets its
    /// recorded id. Otherwise `matched` is the face that the font query found
    /// for the request under the effective family name `family`: none is an
    /// error; a face without a glyph for 'm' is an error unless the family is
    /// an icon family; else the face is loaded under the next id, classified as
    /// color font or not, and the request is recorded.
    pub fn resolve(&mut self, font: &Font, family: &str, matched: Option<(Vec<u8>, u32)>) -> (r:
        Result<FontId, FontError>)
        requires
            old(self).well_formed(),
        ensures
            Self::resolve_post(*old(self), *final(self), font.key(), family@, matched_view(matched), r),
    {
        if let Some(id) = self.font_id(font) {
            return Ok(id);
        }
        match matched {
            None => Err(FontError::NoMatchingFace),
            Some((data, index)) => {
                let has_m = glyph_in_face(&data, index, 'm').is_some();
                if !has_m && !icon_family(family) {
                    return Err(FontError::MissingBaselineGlyph);
                }
                let is_emoji = detect_emoji_font(&data, index);
                let id = FontId(self.fonts.len());
                let ghost old_fonts = self.fonts@;
                let ghost old_selections = self.selections@;
                self.fonts.push(
                    LoadedFont {
                        font_data: Arc::new(data),
                        font_index: index,
                        is_emoji,
                        family_name: family.to_owned(),
                    },
                );
                self.selections.push((font.duplicate(), id));
                proof {
                    assert(self.fonts@.drop_last() =~= old_fonts);
                    assert(self.selections@.drop_last() =~= old_selections);
                    lemma_lookup_push(old_selections, self.selections@.last().0, id, font.key());
                    assert forall|i: int| 0 <= i < self.selections@.len() implies (
                    #[trigger] self.selections@[i]).1.0 == i by {
                        if i < old_selections.len() {
                            assert(self.selections@[i] == old_selections[i]);
                        }
                    }
                }
                Ok(id)
            },
        }
    }
}

proof fn lemma_lookup_found(selections: Seq<(Font, FontId)>, key: FontKey)
    requires
        lookup_font(selections, key) is Some,
    ensures
        exists|i: int|
            0 <= i < selections.len() && (#[trigger] selections[i]).0.key() == key && selections[i].1
                == lookup_font(selections, key).unwrap(),
    decreases selections.len(),
{
    if selections[0].0.key() != key {
        lemma_lookup_found(selections.drop_first(), key);
        let i = choose|i: int|
            0 <= i < selections.drop_first().len() && (#[trigger] selections.drop_first()[i]).0.key()
                == key && selections.drop_first()[i].1 == lookup_font(selections.drop_first(), key).unwrap();
        assert(selections[i + 1] == selections.drop_first()[i]);
    } else {
        assert(selections[0].0.key() == key);
    }
}

/// In a well-formed table, the id a request is recorded with is the position
/// of its record, so two different requests never share an id.
pub proof fn lemma_distinct_requests_distinct_ids(table: FontTable, key1: FontKey, key2: FontKey)
    requires
        table.well_formed(),
        key1 != key2,
        table.selected(key1) is Some,
        table.selected(key2) is Some,
    ensures
        table.selected(key1) != table.selected(key2),
{
    let sel = table.selections_view();
    lemma_lookup_found(sel, key1);
    lemma_lookup_found(sel, key2);
    let i1 = choose|i: int|
        0 <= i < sel.len() && (#[trigger] sel[i]).0.key() == key1 && sel[i].1 == lookup_font(sel, key1).unwrap();
    let i2 = choose|i: int|
        0 <= i < sel.len() && (#[trigger] sel[i]).0.key() == key2 && sel[i].1 == lookup_font(sel, key2).unwrap();
    assert(sel[i1].1.0 == i1);
    assert(sel[i2].1.0 == i2);
    assert(i1 != i2);
}

/// A request resolved for the first time gets an id that no request before
/// it holds.
pub proof fn lemma_new_request_new_id(
    t0: FontTable,
    t1: FontTable,
    key: FontKey,
    family: Seq<char>,
    matched: Option<(Seq<u8>, u32)>,
    r: Result<FontId, FontError>,
    other: FontKey,
)
    requires
        t0.well_formed(),
        FontTable::resolve_post(t0, t1, key, family, matched, r),
        t0.selected(key) is None,
        r is Ok,
        t0.selected(other) is Some,
    ensures
        t0.selected(other) != Some(r.unwrap()),
{
    let sel = t0.selections_view();
    lemma_lookup_found(sel, other);
    let i = choose|i: int|
        0 <= i < sel.len() && (#[trigger] sel[i]).0.key() == other && sel[i].1 == lookup_font(sel, other).unwrap();
    assert(sel[i].1.0 == i);
}

proof fn lemma_lookup_push(selections: Seq<(Font, FontId)>, font: Font, id: FontId, key: FontKey)
    requires
        lookup_font(selections, key) is None,
        font.key() == key,
    ensures
        lookup_font(selections.push((font, id)), key) == Some(id),
    decreases selections.len(),
{
    if selections.len() > 0 {
        assert(selections.push((font, id)).drop_first() =~= selections.drop_first().push((font, id)));
        lemma_lookup_push(selections.drop_first(), font, id, key);
    }
}

/// A request that resolved to an id resolves to the same id when asked
/// again, whatever the second font query finds, and the second resolution
/// leaves the table as it was.
pub proof fn lemma_font_id_memoized(
    t0: FontTable,
    t1: FontTable,
    t2: FontTable,
    key: FontKey,
    family1: Seq<char>,
    matched1: Option<(Seq<u8>, u32)>,
    r1: Result<FontId, FontError>,
    family2: Seq<char>,
    matched2: Option<(Seq<u8>, u32)>,
    r2: Result<FontId, FontError>,
)
    requires
        FontTable::resolve_post(t0, t1, key, family1, matched1, r1),
        r1 is Ok,
        FontTable::resolve_post(t1, t2, key, family2, matched2, r2),
    ensures
        r2 == r1,
        t2.fonts_view() == t1.fonts_view(),
        t2.selections_view() == t1.selections_view(),
{
}

} // verus!
