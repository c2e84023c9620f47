//! Tiles of rasterized bitmaps in atlas textures, and the atlas that caches
//! one tile per key.
use crate::geometry::{Bounds, Point, Size};
use vstd::prelude::*;

verus! {

/// Whether a texture holds alpha coverage or full color.
#[derive(Clone, Copy, Debug, PartialEq, Eq, Structural, Hash)]
pub enum AtlasTextureKind {
    Monochrome,
    Polychrome,
}

/// Identifies one atlas texture.
#[derive(Clone, Copy, Debug, PartialEq, Eq, Structural, Hash)]
pub struct AtlasTextureId {
    /// Index of the texture among those of its kind.
    pub index: u32,
    pub kind: AtlasTextureKind,
}

/// Identifies one allocation within an atlas texture.
#[derive(Clone, Copy, Debug, PartialEq, Eq, Structural, PartialOrd, Ord, Hash)]
pub struct TileId(pub u32);

/// The placement of a bitmap inside an atlas texture.
#[derive(Clone, Copy, Debug, PartialEq, Eq, Structural)]
pub struct AtlasTile {
    pub texture_id: AtlasTextureId,
    pub tile_id: TileId,
    pub padding: u32,
    pub bounds: Bounds,
}

#[verifier::external_type_specification]
#[verifier::external_body]
pub struct ExAllocId(etagere::AllocId);

/// The 32-bit encoding of an allocation id of the rectangle packer.
pub uninterp spec fn alloc_id_bits(id: etagere::AllocId) -> u32;

/// Relies on etagere's `AllocId::serialize`: the id's 32-bit encoding.
#[verifier::external_body]
fn serialize_alloc_id(id: &etagere::AllocId) -> (r: u32)
    ensures
        r == alloc_id_bits(*id),
{
    id.serialize()
}

/// Relies on etagere's `AllocId::deserialize`: the id whose 32-bit encoding
/// is `bits`.
#[verifier::external_body]
fn deserialize_alloc_id(bits: u32) -> (r: etagere::AllocId)
    ensures
        alloc_id_bits(r) == bits,
{
    etagere::AllocId::deserialize(bits)
}

impl From<etagere::AllocId> for TileId {
    fn from(id: etagere::AllocId) -> (r: TileId)
        ensures
            r.0 == alloc_id_bits(id),
    {
        TileId(serialize_alloc_id(&id))
    }
}

impl vstd::std_specs::convert::FromSpecImpl<etagere::AllocId> for TileId {
    open spec fn obeys_from_spec() -> bool {
        true
    }

    open spec fn from_spec(id: etagere::AllocId) -> TileId {
        TileId(alloc_id_bits(id))
    }
}

impl TileId {
    /// The packer's allocation id that this tile id encodes.
    pub fn to_alloc_id(self) -> (r: etagere::AllocId)
        ensures
            alloc_id_bits(r) == self.0,
    {
        deserialize_alloc_id(self.0)
    }
}

/// What a glyph bitmap depends on: font, glyph, size and scale (as the bits
/// of their floating-point values), subpixel phase, and color rendering.
#[derive(Clone, Copy, Debug, PartialEq, Eq, Structural, Hash)]
pub struct GlyphKey {
    pub font_id: usize,
    pub glyph_id: u32,
    pub font_size_bits: u32,
    pub scale_factor_bits: u32,
    pub subpixel_x: u8,
    pub subpixel_y: u8,
    pub is_emoji: bool,
}

/// The key of a cached bitmap.
#[derive(Clone, Copy, Debug, PartialEq, Eq, Structural, Hash)]
pub enum AtlasKey {
    Glyph(GlyphKey),
    Image { image_id: u64, frame_index: usize },
}

/// Why the atlas could not produce a tile.
#[derive(Clone, Copy, Debug, PartialEq, Eq)]
pub enum AtlasError<E> {
    /// Building the bitmap failed.
    Build(E),
    /// No texture and tile ids are left to hand out.
    OutOfIds,
}

/// The tile recorded last for `key` among `entries`.
pub open spec fn tile_lookup(entries: Seq<(AtlasKey, AtlasTile)>, key: AtlasKey) -> Option<AtlasTile>
    decreases entries.len(),
{
    if entries.len() == 0 {
        None
    } else if entries.last().0 == key {
        Some(entries.last().1)
    } else {
        tile_lookup(entries.drop_last(), key)
    }
}

/// The kind of texture a key's bitmap goes to: color for emoji glyphs and
/// images, alpha coverage for other glyphs.
pub open spec fn texture_kind_spec(key: AtlasKey) -> AtlasTextureKind {
    match key {
        AtlasKey::Glyph(g) => if g.is_emoji {
            AtlasTextureKind::Polychrome
        } else {
            AtlasTextureKind::Monochrome
        },
        AtlasKey::Image { .. } => AtlasTextureKind::Polychrome,
    }
}

/// The kind of texture a key's bitmap goes to.
pub fn texture_kind(key: &AtlasKey) -> (r: AtlasTextureKind)
    ensures
        r == texture_kind_spec(*key),
{
    match key {
        AtlasKey::Glyph(g) => if g.is_emoji {
            AtlasTextureKind::Polychrome
        } else {
            AtlasTextureKind::Monochrome
        },
        AtlasKey::Image { .. } => AtlasTextureKind::Polychrome,
    }
}

/// The tile placed for a bitmap of `size` under the given texture and tile
/// ids: at the texture's origin, without padding.
pub open spec fn placed_tile(kind: AtlasTextureKind, texture_index: u32, tile_index: u32, size: Size) -> AtlasTile {
    AtlasTile {
        texture_id: AtlasTextureId { index: texture_index, kind },
        tile_id: TileId(tile_index),
        padding: 0,
        bounds: Bounds { origin: Point { x: 0, y: 0 }, size },
    }
}

/// No tile among `entries` uses a texture or tile id above `bound`.
pub open spec fn ids_at_most(entries: Seq<(AtlasKey, AtlasTile)>, bound: u32) -> bool {
    forall|i: int|
        0 <= i < entries.len() ==> (#[trigger] entries[i]).1.tile_id.0 <= bound
            && entries[i].1.texture_id.index <= bound
}

proof fn lemma_lookup_member(entries: Seq<(AtlasKey, AtlasTile)>, key: AtlasKey)
    requires
        tile_lookup(entries, key) is Some,
    ensures
        exists|i: int| 0 <= i < entries.len() && (#[trigger] entries[i]).1 == tile_lookup(entries, key).unwrap(),
    decreases entries.len(),
{
    if entries.last().0 == key {
        assert(entries[entries.len() - 1].1 == tile_lookup(entries, key).unwrap());
    } else {
        lemma_lookup_member(entries.drop_last(), key);
        let i = choose|i: int|
            0 <= i < entries.drop_last().len() && (#[trigger] entries.drop_last()[i]).1 == tile_lookup(
                entries.drop_last(),
                key,
            ).unwrap();
        assert(entries[i] == entries.drop_last()[i]);
    }
}

/// A cache of one tile per key. Each new tile takes the next two ids of a
/// counter, the first for its texture and the second for the tile. Keys are
/// looked up by scanning the entries, so that what each key maps to is
/// stated and proved.
pub struct WebAtlas {
    next_id: u32,
    entries: Vec<(AtlasKey, AtlasTile)>,
}

impl WebAtlas {
    pub closed spec fn entries_view(&self) -> Seq<(AtlasKey, AtlasTile)> {
        self.entries@
    }

    /// The last id handed out.
    pub closed spec fn last_id(&self) -> u32 {
        self.next_id
    }

    /// Every cached tile uses ids that were handed out already.
    pub open spec fn well_formed(&self) -> bool {
        ids_at_most(self.entries_view(), self.last_id())
    }

    /// The tile cached for `key`, if any.
    pub open spec fn cached(&self, key: AtlasKey) -> Option<AtlasTile> {
        tile_lookup(self.entries_view(), key)
    }

    /// Whether two ids are left to hand out.
    pub open spec fn ids_left(&self) -> bool {
        self.last_id() <= u32::MAX - 2
    }

    /// What storing a built bitmap of `size` under `key` does: with ids left,
    /// the key maps to a new tile with the next two ids, in a texture of the
    /// key's kind, whose ids no other cached tile uses, and every other key
    /// keeps its tile; without, nothing changes and the result is an error.
    pub open spec fn insert_post<E>(
        old: WebAtlas,
        new: WebAtlas,
        key: AtlasKey,
        size: Size,
        r: Result<AtlasTile, AtlasError<E>>,
    ) -> bool {
        if old.ids_left() {
            let t = placed_tile(
                texture_kind_spec(key),
                (old.last_id() + 1) as u32,
                (old.last_id() + 2) as u32,
                size,
            );
            &&& r == Ok::<AtlasTile, AtlasError<E>>(t)
            &&& new.last_id() == old.last_id() + 2
            &&& new.cached(key) == Some(t)
            &&& forall|k: AtlasKey| k != key ==> #[trigger] new.cached(k) == old.cached(k)
            &&& forall|k: AtlasKey|
                k != key && #[trigger] old.cached(k) is Some ==> old.cached(k).unwrap().tile_id != t.tile_id
                    && old.cached(k).unwrap().texture_id.index != t.texture_id.index
        } else {
            &&& r == Err::<AtlasTile, AtlasError<E>>(AtlasError::OutOfIds)
            &&& new == old
        }
    }

    /// What finishing a fetch with build outcome `b` does: a failure is
    /// returned, no bitmap caches nothing and gives no tile, and a bitmap is
    /// stored as `insert_post` says.
    pub open spec fn fetch_outcome<E>(
        old: WebAtlas,
        new: WebAtlas,
        key: AtlasKey,
        b: Result<Option<(Size, Vec<u8>)>, E>,
        r: Result<Option<AtlasTile>, AtlasError<E>>,
    ) -> bool {
        match b {
            Err(e) => r == Err::<Option<AtlasTile>, AtlasError<E>>(AtlasError::Build(e)) && new == old,
            Ok(None) => r == Ok::<Option<AtlasTile>, AtlasError<E>>(None) && new == old,
            Ok(Some((size, _))) => exists|ri: Result<AtlasTile, AtlasError<E>>|
                #[trigger] Self::insert_post(old, new, key, size, ri) && r == match ri {
                    Ok(t) => Ok(Some(t)),
                    Err(e) => Err(e),
                },
        }
    }

    /// What a fetch does, given which build outcomes are possible: a cached
    /// key gives its tile and leaves the atlas as it was, without building;
    /// otherwise one possible outcome of building decides, as
    /// `fetch_outcome` says.
    pub open spec fn fetch_post<E>(
        old: WebAtlas,
        new: WebAtlas,
        key: AtlasKey,
        r: Result<Option<AtlasTile>, AtlasError<E>>,
        may_build: spec_fn(Result<Option<(Size, Vec<u8>)>, E>) -> bool,
    ) -> bool {
        match old.cached(key) {
            Some(t) => r == Ok::<Option<AtlasTile>, AtlasError<E>>(Some(t)) && new == old,
            None => exists|b: Result<Option<(Size, Vec<u8>)>, E>|
                #[trigger] may_build(b) && Self::fetch_outcome(old, new, key, b, r),
        }
    }

    /// An empty atlas.
    pub fn new() -> (r: WebAtlas)
        ensures
            r.well_formed(),
            r.last_id() == 0,
            forall|k: AtlasKey| #[trigger] r.cached(k) is None,
    {
        WebAtlas { next_id: 0, entries: Vec::new() }
    }

    /// The tile cached for `key`, if any.
    pub fn lookup(&self, key: &AtlasKey) -> (r: Option<AtlasTile>)
        ensures
            r == self.cached(*key),
    {
        let mut i: usize = self.entries.len();
        proof {
            assert(self.entries@.subrange(0, self.entries@.len() as int) =~= self.entries@);
        }
        while i > 0
            invariant
                i <= self.entries@.len(),
                tile_lookup(self.entries@, *key) == tile_lookup(self.entries@.subrange(0, i as int), *key),
            decreases i,
        {
            proof {
                assert(self.entries@.subrange(0, i as int).drop_last() =~= self.entries@.subrange(
                    0,
                    i - 1,
                ));
            }
            if self.entries[i - 1].0 == *key {
                return Some(self.entries[i - 1].1);
            }
            i -= 1;
        }
        proof {
            assert(self.entries@.subrange(0, 0) =~= Seq::<(AtlasKey, AtlasTile)>::empty());
        }
        None
    }

    fn without_key(&self, key: &AtlasKey, Ghost(bound): Ghost<u32>) -> (r: Vec<(AtlasKey, AtlasTile)>)
        requires
            ids_at_most(self.entries@, bound),
        ensures
            ids_at_most(r@, bound),
            tile_lookup(r@, *key) is None,
            forall|k: AtlasKey| k != *key ==> #[trigger] tile_lookup(r@, k) == self.cached(k),
    {
        let mut kept: Vec<(AtlasKey, AtlasTile)> = Vec::new();
        let mut i: usize = 0;
        while i < self.entries.len()
            invariant
                i <= self.entries@.len(),
                ids_at_most(self.entries@, bound),
                ids_at_most(kept@, bound),
                tile_lookup(kept@, *key) is None,
                forall|k: AtlasKey|
                    k != *key ==> #[trigger] tile_lookup(kept@, k) == tile_lookup(
                        self.entries@.subrange(0, i as int),
                        k,
                    ),
            decreases self.entries.len() - i,
        {
            let entry = self.entries[i];
            let ghost before = kept@;
            if entry.0 != *key {
                kept.push(entry);
            }
            proof {
                let prefix = self.entries@.subrange(0, i + 1);
                assert(prefix.drop_last() =~= self.entries@.subrange(0, i as int));
                assert(prefix.last() == entry);
                assert(self.entries@[i as int] == entry);
                if entry.0 != *key {
                    assert(kept@.drop_last() =~= before);
                    assert(kept@.last() == entry);
                    assert forall|j: int| 0 <= j < kept@.len() implies (#[trigger] kept@[j]).1.tile_id.0
                        <= bound && kept@[j].1.texture_id.index <= bound by {
                        if j < before.len() {
                            assert(kept@[j] == before[j]);
                        }
                    }
                }
                assert forall|k: AtlasKey| k != *key implies #[trigger] tile_lookup(kept@, k)
                    == tile_lookup(prefix, k) by {
                    assert(tile_lookup(before, k) == tile_lookup(self.entries@.subrange(0, i as int), k));
                }
            }
            i += 1;
        }
        proof {
            assert(self.entries@.subrange(0, self.entries@.len() as int) =~= self.entries@);
        }
        kept
    }

    /// Stores a built bitmap of `size` under `key`, replacing any tile the
    /// key had, and returns the new tile.
    pub fn insert_built<E>(&mut self, key: &AtlasKey, size: Size) -> (r: Result<AtlasTile, AtlasError<E>>)
        requires
            old(self).well_formed(),
        ensures
            final(self).well_formed(),
            Self::insert_post(*old(self), *final(self), *key, size, r),
    {
        if self.next_id > u32::MAX - 2 {
            return Err(AtlasError::OutOfIds);
        }
        let ghost old_atlas = *self;
        let kind = texture_kind(key);
        self.next_id = self.next_id + 1;
        let texture_index = self.next_id;
        self.next_id = self.next_id + 1;
        let tile_index = self.next_id;
        let tile = AtlasTile {
            texture_id: AtlasTextureId { index: texture_index, kind },
            tile_id: TileId(tile_index),
            padding: 0,
            bounds: Bounds { origin: Point { x: 0, y: 0 }, size },
        };
        let mut kept = self.without_key(key, Ghost(old_atlas.next_id));
        let ghost rest = kept@;
        kept.push((*key, tile));
        proof {
            assert(kept@.drop_last() =~= rest);
            assert(kept@.last() == (*key, tile));
            assert forall|k: AtlasKey| k != *key implies #[trigger] tile_lookup(kept@, k)
                == tile_lookup(rest, k) by {}
            assert forall|j: int| 0 <= j < kept@.len() implies (#[trigger] kept@[j]).1.tile_id.0
                <= self.next_id && kept@[j].1.texture_id.index <= self.next_id by {
                if j < rest.len() {
                    assert(kept@[j] == rest[j]);
                }
            }
            assert forall|k: AtlasKey|
                k != *key && #[trigger] old_atlas.cached(k) is Some implies old_atlas.cached(k).unwrap().tile_id
                != tile.tile_id && old_atlas.cached(k).unwrap().texture_id.index != tile.texture_id.index by {
                lemma_lookup_member(old_atlas.entries@, k);
            }
        }
        self.entries = kept;
        Ok(tile)
    }

    /// Drops the tile of `key`; a later fetch of the key builds its bitmap
    /// again.
    pub fn remove(&mut self, key: &AtlasKey)
        requires
            old(self).well_formed(),
        ensures
            final(self).well_formed(),
            final(self).cached(*key) is None,
            final(self).last_id() == old(self).last_id(),
            forall|k: AtlasKey| k != *key ==> #[trigger] final(self).cached(k) == old(self).cached(k),
    {
        let bound = Ghost(self.next_id);
        self.entries = self.without_key(key, bound);
    }

    /// Finishes a fetch of `key` whose bitmap was built (or not) by the
    /// caller, as `fetch_outcome` says. A key stored meanwhile by another
    /// fetch is replaced: both built the same bitmap.
    pub fn finish_fetch<E>(&mut self, key: &AtlasKey, built: Result<Option<(Size, Vec<u8>)>, E>) -> (r:
        Result<Option<AtlasTile>, AtlasError<E>>)
        requires
            old(self).well_formed(),
        ensures
            final(self).well_formed(),
            Self::fetch_outcome(*old(self), *final(self), *key, built, r),
    {
        let ghost before = *self;
        match built {
            Err(e) => Err(AtlasError::Build(e)),
            Ok(None) => Ok(None),
            Ok(Some((size, _bytes))) => {
                let inserted = self.insert_built::<E>(key, size);
                proof {
                    assert(Self::insert_post(before, *self, *key, size, inserted));
                }
                match inserted {
                    Ok(t) => Ok(Some(t)),
                    Err(e) => Err(e),
                }
            },
        }
    }

    /// The tile of `key`: the cached one when there is one, without calling
    /// `build`; otherwise `build` is called for the bitmap and its size, and
    /// the fetch is finished with its outcome.
    pub fn get_or_insert_with<E, F>(&mut self, key: &AtlasKey, build: F) -> (r: Result<
        Option<AtlasTile>,
        AtlasError<E>,
    >) where F: FnOnce() -> Result<Option<(Size, Vec<u8>)>, E>
        requires
            old(self).well_formed(),
            build.requires(()),
        ensures
            final(self).well_formed(),
            Self::fetch_post(*old(self), *final(self), *key, r, |b| build.ensures((), b)),
    {
        if let Some(tile) = self.lookup(key) {
            return Ok(Some(tile));
        }
        let built = build();
        let ghost outcome = built;
        let r = self.finish_fetch(key, built);
        proof {
            let may_build = |b: Result<Option<(Size, Vec<u8>)>, E>| build.ensures((), b);
            assert(may_build(outcome));
        }
        r
    }
}

/// Fetching a key that an earlier fetch produced a tile for gives that same
/// tile again, from the cache, and leaves the atlas as it was: whatever the
/// second fetch's build would have produced plays no part.
pub proof fn lemma_tile_cached<E>(
    s0: WebAtlas,
    s1: WebAtlas,
    s2: WebAtlas,
    key: AtlasKey,
    r1: Result<Option<AtlasTile>, AtlasError<E>>,
    r2: Result<Option<AtlasTile>, AtlasError<E>>,
    build1: spec_fn(Result<Option<(Size, Vec<u8>)>, E>) -> bool,
    build2: spec_fn(Result<Option<(Size, Vec<u8>)>, E>) -> bool,
)
    requires
        WebAtlas::fetch_post(s0, s1, key, r1, build1),
        r1 matches Ok(Some(_)),
        WebAtlas::fetch_post(s1, s2, key, r2, build2),
    ensures
        r2 == r1,
        s2 == s1,
        r1 == Ok::<Option<AtlasTile>, AtlasError<E>>(s1.cached(key)),
{
    if s0.cached(key) is None {
        let b = choose|b: Result<Option<(Size, Vec<u8>)>, E>|
            #[trigger] build1(b) && WebAtlas::fetch_outcome(s0, s1, key, b, r1);
        if let Ok(Some((size, _))) = b {
            let ri = choose|ri: Result<AtlasTile, AtlasError<E>>|
                #[trigger] WebAtlas::insert_post(s0, s1, key, size, ri) && r1 == match ri {
                    Ok(t) => Ok(Some(t)),
                    Err(e) => Err(e),
                };
        }
    }
}

} // verus!
