//! The renderer: one font and the glyphs already coloured from it.

use crate::colourize::{colourize, colourized};
use crate::colours::TextColour;
use crate::font::{
    coverage_mask, glyph_count, glyph_extent, glyph_index, glyph_total, raster_extent, raster_index,
    raster_size_bits, rasterize, size_bits, size_not_positive, size_ordinary,
};
use crate::surface::{lemma_clone_keeps_pixels, paste_rows, signed_coord, DrawableSurface, RgbaSurface};
use fontdue::layout::GlyphRasterConfig;
use fontdue::Font;
use std::collections::HashMap;
use std::collections::HashSet;
use std::sync::Arc;
use vstd::pervasive::cloned;
use vstd::prelude::*;
use vstd::std_specs::hash::*;

verus! {

/// The ways in which making a renderer can fail.
#[derive(Debug, Clone, Copy, PartialEq, Eq, Structural)]
pub enum TextRendererError {
    FontNotFound,
}

/// One glyph of a laid-out string: what to rasterize and where to paste it.
#[derive(Clone, Copy)]
pub struct PlacedGlyph {
    /// What the font engine rasterizes for this glyph.
    pub key: GlyphRasterConfig,
    /// The character that the glyph stands for.
    pub parent: char,
    /// The left edge of the glyph on the target surface, in pixels.
    pub x: usize,
    /// The top edge of the glyph on the target surface, in pixels.
    pub y: usize,
    /// The width of the rasterized glyph, in pixels.
    pub width: usize,
    /// The height of the rasterized glyph, in pixels.
    pub height: usize,
}

/// A cached glyph: its coloured pixels and the artifact built from them.
#[derive(Clone)]
pub struct CacheEntry<T> {
    pub bytes: Vec<u8>,
    pub artifact: T,
}

/// A font and its cache of coloured glyphs. The font is shared between a
/// renderer and its clones; each of them has a cache of its own.
pub struct TextRenderer<T> {
    pub font: Arc<Font>,
    glyph_caches: HashMap<u128, CacheEntry<T>>,
}

/// The place in the cache of a glyph of one rendered height, colour and
/// character: the height in the high half of the word, then the packed
/// colour, then the character.
#[verifier::opaque]
pub open spec fn cache_key(height: usize, colour: TextColour, glyph: char) -> u128 {
    (height as u128 * 0x1_0000_0000_0000_0000 + colour.packed() as u128 * 0x1_0000_0000
        + glyph as u32 as u128) as u128
}

/// The place in the cache that a placed glyph of a colour goes to.
pub open spec fn glyph_slot(glyph: PlacedGlyph, colour: TextColour) -> u128 {
    cache_key(glyph.height, colour, glyph.parent)
}

/// Different triples of rendered height, colour and character have different
/// places in the cache.
pub proof fn lemma_cache_key_injective(
    b1: usize,
    c1: TextColour,
    g1: char,
    b2: usize,
    c2: TextColour,
    g2: char,
)
    requires
        cache_key(b1, c1, g1) == cache_key(b2, c2, g2),
    ensures
        b1 == b2,
        c1 == c2,
        g1 == g2,
{
    reveal(cache_key);
    let low1: int = c1.packed() as int * 0x1_0000_0000 + g1 as u32 as int;
    let low2: int = c2.packed() as int * 0x1_0000_0000 + g2 as u32 as int;
    assert(cache_key(b1, c1, g1) as int == b1 as int * 0x1_0000_0000_0000_0000 + low1);
    assert(cache_key(b2, c2, g2) as int == b2 as int * 0x1_0000_0000_0000_0000 + low2);
    assert(0 <= low1 < 0x1_0000_0000_0000_0000 && 0 <= low2 < 0x1_0000_0000_0000_0000);
    assert(b1 == b2);
    assert(c1.packed() == c2.packed());
    assert(g1 as u32 == g2 as u32);
    lemma_packed_injective(c1, c2);
}

/// Different colours pack into different words.
pub proof fn lemma_packed_injective(c1: TextColour, c2: TextColour)
    requires
        c1.packed() == c2.packed(),
    ensures
        c1 == c2,
{
    let low1: int = c1.g as int * 0x1_0000 + c1.b as int * 0x100 + c1.a as int;
    let low2: int = c2.g as int * 0x1_0000 + c2.b as int * 0x100 + c2.a as int;
    assert(c1.packed() as int == c1.r as int * 0x100_0000 + low1);
    assert(c2.packed() as int == c2.r as int * 0x100_0000 + low2);
    assert(c1.r == c2.r);
    assert(c1.g == c2.g);
    assert(c1.b == c2.b);
}

/// Computes [`cache_key`] for a placed glyph.
fn slot_of(glyph: &PlacedGlyph, colour: TextColour) -> (k: u128)
    ensures
        k == glyph_slot(*glyph, colour),
{
    proof {
        reveal(cache_key);
    }
    glyph.height as u128 * 0x1_0000_0000_0000_0000 + colour.to_packed() as u128 * 0x1_0000_0000
        + glyph.parent as u32 as u128
}

/// Whether an entry is what caching `glyph` in `colour` from `font` makes:
/// the coloured coverage mask, and an artifact built from it.
pub open spec fn made_from<T: DrawableSurface>(
    entry: CacheEntry<T>,
    font: Font,
    glyph: PlacedGlyph,
    colour: TextColour,
) -> bool {
    &&& entry.bytes@ == colourized(coverage_mask(font, glyph.key), colour)
    &&& entry.artifact.built_from(glyph.width, glyph.height, entry.bytes@, colour)
}

/// How fetching `glyph` in `colour` changes a cache. Where the glyph's place
/// is filled, nothing changes. Where it is not, that one place is filled with
/// an entry made from the glyph.
pub open spec fn cache_fetched<T: DrawableSurface>(
    before: Map<u128, CacheEntry<T>>,
    after: Map<u128, CacheEntry<T>>,
    font: Font,
    glyph: PlacedGlyph,
    colour: TextColour,
) -> bool {
    let slot = glyph_slot(glyph, colour);
    if before.contains_key(slot) {
        after == before
    } else {
        &&& after == before.insert(slot, after[slot])
        &&& made_from(after[slot], font, glyph, colour)
    }
}

/// Fetching a glyph a second time changes nothing: the entry that the first
/// fetch left, with its coloured bytes, is the one that every later fetch of
/// the same rendered height, colour and character finds. `second` may differ
/// from `first` in all but those three.
pub proof fn lemma_fetch_again<T: DrawableSurface>(
    start: Map<u128, CacheEntry<T>>,
    middle: Map<u128, CacheEntry<T>>,
    end: Map<u128, CacheEntry<T>>,
    font: Font,
    first: PlacedGlyph,
    second: PlacedGlyph,
    colour: TextColour,
)
    requires
        cache_fetched(start, middle, font, first, colour),
        cache_fetched(middle, end, font, second, colour),
        first.height == second.height,
        first.parent == second.parent,
    ensures
        end == middle,
        end[glyph_slot(second, colour)].bytes@ == middle[glyph_slot(first, colour)].bytes@,
{
}

/// Fetching a glyph keeps every entry that the cache held, whatever the
/// glyph and the colour.
pub proof fn lemma_fetch_keeps_entries<T: DrawableSurface>(
    before: Map<u128, CacheEntry<T>>,
    after: Map<u128, CacheEntry<T>>,
    font: Font,
    glyph: PlacedGlyph,
    colour: TextColour,
    k: u128,
)
    requires
        cache_fetched(before, after, font, glyph, colour),
        before.contains_key(k),
    ensures
        after.contains_key(k),
        after[k] == before[k],
{
}

/// Whether glyph `i` is the first of `glyphs` to need its place in a cache
/// that held `before`.
pub open spec fn first_use<T>(
    before: Map<u128, CacheEntry<T>>,
    glyphs: Seq<PlacedGlyph>,
    colour: TextColour,
    i: int,
) -> bool {
    &&& !before.contains_key(glyph_slot(glyphs[i], colour))
    &&& forall|j: int|
        0 <= j < i ==> glyph_slot(#[trigger] glyphs[j], colour) != glyph_slot(glyphs[i], colour)
}

/// How the cache stands after the first `n` of `glyphs` were drawn in
/// `colour`: what was cached before is kept as it was, each of the `n` glyphs
/// has its place filled, nothing else was added, and each new entry was made
/// from the first glyph that needed it.
pub open spec fn cache_grown<T: DrawableSurface>(
    before: Map<u128, CacheEntry<T>>,
    after: Map<u128, CacheEntry<T>>,
    font: Font,
    glyphs: Seq<PlacedGlyph>,
    colour: TextColour,
    n: int,
) -> bool {
    &&& forall|k: u128| #[trigger]
        before.contains_key(k) ==> after.contains_key(k) && after[k] == before[k]
    &&& forall|k: u128| #[trigger]
        after.contains_key(k) ==> before.contains_key(k) || exists|i: int|
            0 <= i < n && glyph_slot(#[trigger] glyphs[i], colour) == k
    &&& forall|i: int|
        0 <= i < n ==> after.contains_key(glyph_slot(#[trigger] glyphs[i], colour))
    &&& forall|i: int|
        0 <= i < n && first_use(before, glyphs, colour, i) ==> made_from(
            after[glyph_slot(#[trigger] glyphs[i], colour)],
            font,
            glyphs[i],
            colour,
        )
}

/// Where a glyph is pasted, and how large the pasted area is.
pub struct Placement {
    pub x: usize,
    pub y: usize,
    pub width: usize,
    pub height: usize,
}

/// The placement that a glyph carries: its own place and size.
pub open spec fn own_place(glyph: PlacedGlyph) -> Placement {
    Placement { x: glyph.x, y: glyph.y, width: glyph.width, height: glyph.height }
}

/// The placement of a glyph in a cell `cell` wide whose left edge is at
/// `offset`: the glyph keeps its vertical place and its height.
pub open spec fn cell_place(glyph: PlacedGlyph, offset: usize, cell: usize) -> Placement {
    Placement { x: offset, y: glyph.y, width: cell, height: glyph.height }
}

/// The placements of [`own_place`] for all of `glyphs`.
pub open spec fn own_places(glyphs: Seq<PlacedGlyph>) -> Seq<Placement> {
    Seq::new(glyphs.len(), |i: int| own_place(glyphs[i]))
}

/// The placements of [`cell_place`] for all of `glyphs`, glyph `i` at
/// `offsets[i]`.
pub open spec fn cell_places(glyphs: Seq<PlacedGlyph>, offsets: Seq<usize>, cell: usize) -> Seq<
    Placement,
> {
    Seq::new(glyphs.len(), |i: int| cell_place(glyphs[i], offsets[i], cell))
}

/// Whether `after` is what pasting the first `n` of `glyphs` in turn may
/// leave of `before`: glyph `i` is pasted at `places[i]`, and what is pasted
/// is a clone of the artifact that `entries` holds for it.
pub open spec fn pasted_in_turn<T: DrawableSurface + Clone>(
    before: T,
    after: T,
    entries: Map<u128, CacheEntry<T>>,
    glyphs: Seq<PlacedGlyph>,
    colour: TextColour,
    places: Seq<Placement>,
    n: int,
) -> bool
    decreases n,
{
    if n <= 0 {
        after == before
    } else {
        exists|mid: T, artifact: T|
            {
                &&& pasted_in_turn(before, mid, entries, glyphs, colour, places, n - 1)
                &&& cloned(entries[glyph_slot(glyphs[n - 1], colour)].artifact, artifact)
                &&& #[trigger] after.pasted_from(
                    &mid,
                    places[n - 1].x,
                    places[n - 1].y,
                    places[n - 1].width,
                    places[n - 1].height,
                    &artifact,
                )
            }
    }
}

/// One more paste: `after` is what pasting glyph `n` leaves of `mid`.
proof fn lemma_pasted_step<T: DrawableSurface + Clone>(
    before: T,
    mid: T,
    after: T,
    artifact: T,
    entries: Map<u128, CacheEntry<T>>,
    glyphs: Seq<PlacedGlyph>,
    colour: TextColour,
    places: Seq<Placement>,
    n: int,
)
    requires
        0 <= n,
        pasted_in_turn(before, mid, entries, glyphs, colour, places, n),
        cloned(entries[glyph_slot(glyphs[n], colour)].artifact, artifact),
        after.pasted_from(&mid, places[n].x, places[n].y, places[n].width, places[n].height, &artifact),
    ensures
        pasted_in_turn(before, after, entries, glyphs, colour, places, n + 1),
{
    let m = n + 1;
    assert(pasted_in_turn(before, mid, entries, glyphs, colour, places, m - 1));
    assert(cloned(entries[glyph_slot(glyphs[m - 1], colour)].artifact, artifact));
    assert(after.pasted_from(
        &mid,
        places[m - 1].x,
        places[m - 1].y,
        places[m - 1].width,
        places[m - 1].height,
        &artifact,
    ));
}

/// What was pasted from a cache was pasted from every cache that keeps the
/// entries of the glyphs pasted.
proof fn lemma_pasted_from_kept<T: DrawableSurface + Clone>(
    before: T,
    after: T,
    held: Map<u128, CacheEntry<T>>,
    next: Map<u128, CacheEntry<T>>,
    glyphs: Seq<PlacedGlyph>,
    colour: TextColour,
    places: Seq<Placement>,
    n: int,
)
    requires
        n <= glyphs.len(),
        pasted_in_turn(before, after, held, glyphs, colour, places, n),
        forall|i: int| 0 <= i < n ==> held.contains_key(glyph_slot(#[trigger] glyphs[i], colour)),
        forall|k: u128| #[trigger] held.contains_key(k) ==> next.contains_key(k) && next[k] == held[k],
    ensures
        pasted_in_turn(before, after, next, glyphs, colour, places, n),
    decreases n,
{
    if n > 0 {
        let (mid, artifact) = choose|mid: T, artifact: T|
            {
                &&& pasted_in_turn(before, mid, held, glyphs, colour, places, n - 1)
                &&& cloned(held[glyph_slot(glyphs[n - 1], colour)].artifact, artifact)
                &&& #[trigger] after.pasted_from(
                    &mid,
                    places[n - 1].x,
                    places[n - 1].y,
                    places[n - 1].width,
                    places[n - 1].height,
                    &artifact,
                )
            };
        lemma_pasted_from_kept(before, mid, held, next, glyphs, colour, places, n - 1);
        assert(held.contains_key(glyph_slot(glyphs[n - 1], colour)));
        assert(after.pasted_from(
            &mid,
            places[n - 1].x,
            places[n - 1].y,
            places[n - 1].width,
            places[n - 1].height,
            &artifact,
        ));
    }
}

/// The bytes of a surface of bytes, `dw` pixels wide, after the first `n` of
/// `glyphs` were pasted onto `start` in turn: glyph `i` at `places[i]`, from
/// the bytes of the artifact that `entries` holds for it.
pub open spec fn bytes_drawn(
    start: Seq<u8>,
    dw: int,
    entries: Map<u128, CacheEntry<RgbaSurface>>,
    glyphs: Seq<PlacedGlyph>,
    colour: TextColour,
    places: Seq<Placement>,
    n: int,
) -> Seq<u8>
    decreases n,
{
    if n <= 0 {
        start
    } else {
        let artifact = entries[glyph_slot(glyphs[n - 1], colour)].artifact;
        paste_rows(
            bytes_drawn(start, dw, entries, glyphs, colour, places, n - 1),
            dw,
            signed_coord(places[n - 1].x),
            signed_coord(places[n - 1].y),
            artifact.data@,
            artifact.width as int,
            places[n - 1].width as nat,
            places[n - 1].height as nat,
        )
    }
}

/// Drawing onto a surface of bytes is exact: the surface keeps its size, and
/// its bytes are those of [`bytes_drawn`], each glyph pasted from the bytes
/// of its cached artifact with the clipping and the alignment of
/// [`paste_rows`].
pub proof fn lemma_drawn_on_bytes(
    before: RgbaSurface,
    after: RgbaSurface,
    entries: Map<u128, CacheEntry<RgbaSurface>>,
    glyphs: Seq<PlacedGlyph>,
    colour: TextColour,
    places: Seq<Placement>,
    n: int,
)
    requires
        pasted_in_turn(before, after, entries, glyphs, colour, places, n),
    ensures
        after.width == before.width,
        after.height == before.height,
        after.data@ == bytes_drawn(
            before.data@,
            before.width as int,
            entries,
            glyphs,
            colour,
            places,
            n,
        ),
    decreases n,
{
    if n > 0 {
        let (mid, artifact) = choose|mid: RgbaSurface, artifact: RgbaSurface|
            {
                &&& pasted_in_turn(before, mid, entries, glyphs, colour, places, n - 1)
                &&& cloned(entries[glyph_slot(glyphs[n - 1], colour)].artifact, artifact)
                &&& #[trigger] after.pasted_from(
                    &mid,
                    places[n - 1].x,
                    places[n - 1].y,
                    places[n - 1].width,
                    places[n - 1].height,
                    &artifact,
                )
            };
        lemma_drawn_on_bytes(before, mid, entries, glyphs, colour, places, n - 1);
        lemma_clone_keeps_pixels(entries[glyph_slot(glyphs[n - 1], colour)].artifact, artifact);
    }
}

/// Whether `font` can rasterize `glyph`. A glyph of a size of zero or below
/// always can: its mask is empty. Any other has to be of an ordinary size,
/// one of the font's glyphs, and of a bitmap with no more pixels than the
/// font engine can number exactly.
pub open spec fn rasterizable(font: Font, glyph: PlacedGlyph) -> bool {
    size_not_positive(raster_size_bits(glyph.key)) || {
        &&& size_ordinary(raster_size_bits(glyph.key))
        &&& raster_index(glyph.key) < glyph_total(font)
        &&& raster_extent(font, glyph.key).0 * raster_extent(font, glyph.key).1 <= 0x100_0000
    }
}

/// Rasterizes a glyph, colours the mask, and builds the artifact from the
/// coloured pixels.
pub fn cache_glyph<T: DrawableSurface>(font: &Arc<Font>, glyph: &PlacedGlyph, colour: TextColour) -> (entry: CacheEntry<T>)
    requires
        rasterizable(**font, *glyph),
    ensures
        made_from(entry, **font, *glyph, colour),
{
    let mask: Vec<u8> = rasterize(font, glyph.key);
    let bytes: Vec<u8> = colourize(mask.as_slice(), colour);
    let artifact: T = T::from_raw_mask(glyph.width, glyph.height, bytes.as_slice(), colour);
    CacheEntry { bytes, artifact }
}

/// One more glyph drawn keeps [`cache_grown`]: `held` is the cache after `n`
/// glyphs, `next` the cache after glyph `n` was fetched.
proof fn lemma_cache_step<T: DrawableSurface>(
    before: Map<u128, CacheEntry<T>>,
    held: Map<u128, CacheEntry<T>>,
    next: Map<u128, CacheEntry<T>>,
    font: Font,
    glyphs: Seq<PlacedGlyph>,
    colour: TextColour,
    n: int,
)
    requires
        0 <= n < glyphs.len(),
        cache_grown(before, held, font, glyphs, colour, n),
        cache_fetched(held, next, font, glyphs[n], colour),
    ensures
        cache_grown(before, next, font, glyphs, colour, n + 1),
{
    let slot = glyph_slot(glyphs[n], colour);
    assert forall|k: u128| #[trigger] next.contains_key(k) implies before.contains_key(k)
        || exists|i: int| 0 <= i < n + 1 && glyph_slot(#[trigger] glyphs[i], colour) == k by {
        if k == slot {
            assert(glyph_slot(glyphs[n], colour) == k);
        } else {
            assert(held.contains_key(k));
        }
    }
    assert forall|i: int| 0 <= i < n + 1 && first_use(before, glyphs, colour, i) implies made_from(
        next[glyph_slot(#[trigger] glyphs[i], colour)],
        font,
        glyphs[i],
        colour,
    ) by {
        if i < n {
            assert(held.contains_key(glyph_slot(glyphs[i], colour)));
            if glyph_slot(glyphs[i], colour) == slot {
                assert(next == held);
            }
        } else {
            if held.contains_key(slot) {
                let w = choose|w: int| 0 <= w < n && glyph_slot(#[trigger] glyphs[w], colour) == slot;
                assert(false);
            }
        }
    }
}

impl<T: DrawableSurface + Clone> Clone for TextRenderer<T> {
    /// A clone shares the font and starts with a cache of its own that holds
    /// what this one holds.
    fn clone(&self) -> (copy: Self)
        ensures
            copy.font_value() == self.font_value(),
            copy.entries() == self.entries(),
    {
        TextRenderer { font: self.font.clone(), glyph_caches: self.glyph_caches.clone() }
    }
}

impl<T: DrawableSurface + Clone> TextRenderer<T> {
    /// The cache: each filled place with its entry.
    pub closed spec fn entries(&self) -> Map<u128, CacheEntry<T>> {
        self.glyph_caches@
    }

    /// The font that glyphs are rasterized from.
    pub closed spec fn font_value(&self) -> Font {
        *self.font
    }

    /// Whether the renderer's font can rasterize the glyph.
    pub open spec fn can_rasterize(&self, glyph: PlacedGlyph) -> bool {
        rasterizable(self.font_value(), glyph)
    }

    /// Makes a renderer with an empty cache from what parsing a font file
    /// gave: on the parsed font where there is one, and `FontNotFound`
    /// where the parser refused the file.
    pub fn load(parsed: Result<Font, &'static str>) -> (made: Result<Self, TextRendererError>)
        ensures
            made.is_ok() == parsed.is_ok(),
            made matches Ok(r) ==> parsed matches Ok(font) && r.font_value() == font && r.entries()
                == Map::<u128, CacheEntry<T>>::empty(),
            made matches Err(e) ==> e == TextRendererError::FontNotFound,
    {
        match parsed {
            Ok(font) => Ok(Self::with_font(Arc::new(font))),
            Err(_) => Err(TextRendererError::FontNotFound),
        }
    }

    /// Makes a renderer on a font that other renderers may share. Its cache
    /// is empty, whatever theirs hold.
    pub fn with_font(font: Arc<Font>) -> (made: Self)
        ensures
            made.font_value() == *font,
            made.entries() == Map::<u128, CacheEntry<T>>::empty(),
    {
        TextRenderer { font, glyph_caches: HashMap::new() }
    }

    /// The number of glyphs in the cache.
    pub fn cached_count(&self) -> (n: usize)
        ensures
            n == self.entries().len(),
    {
        broadcast use group_hash_axioms;
        self.glyph_caches.len()
    }

    /// The coloured bytes that the cache holds for a glyph in a colour, if any.
    pub fn cached_bytes(&self, glyph: &PlacedGlyph, colour: TextColour) -> (bytes: Option<Vec<u8>>)
        ensures
            bytes.is_some() == self.entries().contains_key(glyph_slot(*glyph, colour)),
            bytes matches Some(b) ==> b@ == self.entries()[glyph_slot(*glyph, colour)].bytes@,
    {
        broadcast use group_hash_axioms;
        let slot: u128 = slot_of(glyph, colour);
        match self.glyph_caches.get(&slot) {
            Some(entry) => Some(entry.bytes.clone()),
            None => None,
        }
    }

    /// Whether `glyphs` can be drawn in `colour`: each glyph that is the
    /// first to need a place that the cache has not filled can be rasterized.
    /// Of a glyph that finds its place filled nothing is asked.
    pub open spec fn drawable(&self, glyphs: Seq<PlacedGlyph>, colour: TextColour) -> bool {
        forall|i: int|
            0 <= i < glyphs.len() && first_use(self.entries(), glyphs, colour, i)
                ==> self.can_rasterize(#[trigger] glyphs[i])
    }

    /// Tests [`Self::drawable`].
    pub fn can_draw(&self, glyphs: &Vec<PlacedGlyph>, colour: TextColour) -> (ok: bool)
        ensures
            ok == self.drawable(glyphs@, colour),
    {
        broadcast use group_hash_axioms;
        let mut seen: HashSet<u128> = HashSet::new();
        let mut n: usize = 0;
        while n < glyphs.len()
            invariant
                n <= glyphs@.len(),
                forall|i: int|
                    0 <= i < n && first_use(self.entries(), glyphs@, colour, i)
                        ==> self.can_rasterize(#[trigger] glyphs@[i]),
                forall|j: int| 0 <= j < n ==> seen@.contains(glyph_slot(#[trigger] glyphs@[j], colour)),
                forall|k: u128| #[trigger]
                    seen@.contains(k) ==> exists|j: int|
                        0 <= j < n && glyph_slot(#[trigger] glyphs@[j], colour) == k,
            decreases glyphs@.len() - n,
        {
            let slot: u128 = slot_of(&glyphs[n], colour);
            if !self.glyph_caches.contains_key(&slot) && !seen.contains(&slot) && !self.accepts_glyph(
                &glyphs[n],
            ) {
                assert(first_use(self.entries(), glyphs@, colour, n as int));
                return false;
            }
            seen.insert(slot);
            n += 1;
        }
        true
    }

    /// Tests [`Self::can_rasterize`].
    pub fn accepts_glyph(&self, glyph: &PlacedGlyph) -> (ok: bool)
        ensures
            ok == self.can_rasterize(*glyph),
    {
        let bits: u32 = size_bits(&glyph.key);
        if bits == 0 || (0x8000_0000 <= bits && bits <= 0xff80_0000) {
            return true;
        }
        if bits < 0x3800_0000 || bits > 0x4780_0000 {
            return false;
        }
        if glyph_index(&glyph.key) >= glyph_count(&self.font) {
            return false;
        }
        let (width, height) = glyph_extent(&self.font, &glyph.key);
        match width.checked_mul(height) {
            Some(area) => area <= 0x100_0000,
            None => false,
        }
    }

    /// The artifact of a glyph in a colour, from the cache where it is there
    /// and made, and put into the cache, where it is not.
    pub fn get_glyph_surface(&mut self, glyph: &PlacedGlyph, colour: TextColour) -> (artifact: T)
        requires
            !old(self).entries().contains_key(glyph_slot(*glyph, colour)) ==> old(self).can_rasterize(*glyph),
        ensures
            final(self).font_value() == old(self).font_value(),
            cache_fetched(
                old(self).entries(),
                final(self).entries(),
                old(self).font_value(),
                *glyph,
                colour,
            ),
            final(self).entries().contains_key(glyph_slot(*glyph, colour)),
            cloned(final(self).entries()[glyph_slot(*glyph, colour)].artifact, artifact),
    {
        broadcast use group_hash_axioms;
        let slot: u128 = slot_of(glyph, colour);
        if !self.glyph_caches.contains_key(&slot) {
            let entry: CacheEntry<T> = cache_glyph(&self.font, glyph, colour);
            self.glyph_caches.insert(slot, entry);
        }
        match self.glyph_caches.get(&slot) {
            Some(entry) => entry.artifact.clone(),
            None => vstd::pervasive::unreached(),
        }
    }

    /// Fetches as [`Self::get_glyph_surface`] does where the glyph is cached
    /// or the font can rasterize it; gives `None` and leaves the cache as it
    /// was where neither holds.
    pub fn try_get_glyph_surface(&mut self, glyph: &PlacedGlyph, colour: TextColour) -> (artifact: Option<T>)
        ensures
            final(self).font_value() == old(self).font_value(),
            artifact.is_some() == (old(self).entries().contains_key(glyph_slot(*glyph, colour))
                || old(self).can_rasterize(*glyph)),
            artifact matches Some(a) ==> {
                &&& cache_fetched(
                    old(self).entries(),
                    final(self).entries(),
                    old(self).font_value(),
                    *glyph,
                    colour,
                )
                &&& final(self).entries().contains_key(glyph_slot(*glyph, colour))
                &&& cloned(final(self).entries()[glyph_slot(*glyph, colour)].artifact, a)
            },
            artifact.is_none() ==> final(self).entries() == old(self).entries(),
    {
        broadcast use group_hash_axioms;
        let slot: u128 = slot_of(glyph, colour);
        if self.glyph_caches.contains_key(&slot) || self.accepts_glyph(glyph) {
            Some(self.get_glyph_surface(glyph, colour))
        } else {
            None
        }
    }

    /// Fetches and pastes each glyph in turn, glyph `i` at `places[i]`.
    fn draw_placed(
        &mut self,
        glyphs: &Vec<PlacedGlyph>,
        places: &Vec<Placement>,
        colour: TextColour,
        surface: &mut T,
    )
        requires
            places@.len() == glyphs@.len(),
            old(self).drawable(glyphs@, colour),
        ensures
            final(self).font_value() == old(self).font_value(),
            cache_grown(
                old(self).entries(),
                final(self).entries(),
                old(self).font_value(),
                glyphs@,
                colour,
                glyphs@.len() as int,
            ),
            pasted_in_turn(
                *old(surface),
                *final(surface),
                final(self).entries(),
                glyphs@,
                colour,
                places@,
                glyphs@.len() as int,
            ),
    {
        let ghost before = self.entries();
        let ghost font = self.font_value();
        let ghost blank = *surface;
        let mut n: usize = 0;
        while n < glyphs.len()
            invariant
                n <= glyphs@.len(),
                places@.len() == glyphs@.len(),
                self.font_value() == font,
                forall|i: int|
                    0 <= i < glyphs@.len() && first_use(before, glyphs@, colour, i) ==> rasterizable(
                        font,
                        #[trigger] glyphs@[i],
                    ),
                cache_grown(before, self.entries(), font, glyphs@, colour, n as int),
                pasted_in_turn(blank, *surface, self.entries(), glyphs@, colour, places@, n as int),
            decreases glyphs@.len() - n,
        {
            let glyph: &PlacedGlyph = &glyphs[n];
            let place: &Placement = &places[n];
            let ghost held = self.entries();
            let ghost mid = *surface;
            proof {
                if !held.contains_key(glyph_slot(*glyph, colour)) {
                    assert(first_use(before, glyphs@, colour, n as int));
                }
            }
            let artifact: T = self.get_glyph_surface(glyph, colour);
            proof {
                lemma_pasted_from_kept(blank, mid, held, self.entries(), glyphs@, colour, places@, n as int);
            }
            surface.paste(place.x, place.y, place.width, place.height, &artifact);
            proof {
                lemma_cache_step(before, held, self.entries(), font, glyphs@, colour, n as int);
                lemma_pasted_step(blank, mid, *surface, artifact, self.entries(), glyphs@, colour, places@, n as int);
            }
            n += 1;
        }
    }

    /// Draws laid-out glyphs: each, in order, is fetched from the cache or
    /// made and cached, and pasted at its own place with its own size.
    pub fn draw_string(&mut self, glyphs: &Vec<PlacedGlyph>, colour: TextColour, surface: &mut T)
        requires
            old(self).drawable(glyphs@, colour),
        ensures
            final(self).font_value() == old(self).font_value(),
            cache_grown(
                old(self).entries(),
                final(self).entries(),
                old(self).font_value(),
                glyphs@,
                colour,
                glyphs@.len() as int,
            ),
            pasted_in_turn(
                *old(surface),
                *final(surface),
                final(self).entries(),
                glyphs@,
                colour,
                own_places(glyphs@),
                glyphs@.len() as int,
            ),
    {
        let mut places: Vec<Placement> = Vec::new();
        let mut n: usize = 0;
        while n < glyphs.len()
            invariant
                n <= glyphs@.len(),
                places@.len() == n,
                forall|i: int| 0 <= i < n ==> #[trigger] places@[i] == own_place(glyphs@[i]),
            decreases glyphs@.len() - n,
        {
            let glyph: &PlacedGlyph = &glyphs[n];
            places.push(Placement { x: glyph.x, y: glyph.y, width: glyph.width, height: glyph.height });
            n += 1;
        }
        assert(places@ =~= own_places(glyphs@));
        self.draw_placed(glyphs, &places, colour, surface);
    }

    /// Draws as [`Self::draw_string`] does where the glyphs are drawable, and
    /// says so; draws nothing and leaves the cache as it was where they are
    /// not.
    pub fn try_draw_string(&mut self, glyphs: &Vec<PlacedGlyph>, colour: TextColour, surface: &mut T) -> (drawn: bool)
        ensures
            final(self).font_value() == old(self).font_value(),
            drawn == old(self).drawable(glyphs@, colour),
            drawn ==> cache_grown(
                old(self).entries(),
                final(self).entries(),
                old(self).font_value(),
                glyphs@,
                colour,
                glyphs@.len() as int,
            ),
            drawn ==> pasted_in_turn(
                *old(surface),
                *final(surface),
                final(self).entries(),
                glyphs@,
                colour,
                own_places(glyphs@),
                glyphs@.len() as int,
            ),
            !drawn ==> final(self).entries() == old(self).entries() && *final(surface) == *old(surface),
    {
        if self.can_draw(glyphs, colour) {
            self.draw_string(glyphs, colour, surface);
            true
        } else {
            false
        }
    }

    /// Draws laid-out glyphs in cells of one width: glyph `i` is pasted with
    /// its left edge at `offsets[i]`, `cell` pixels wide, at its own height
    /// and vertical place, whatever its own width and horizontal place are.
    pub fn draw_string_monospaced(
        &mut self,
        glyphs: &Vec<PlacedGlyph>,
        offsets: &Vec<usize>,
        cell: usize,
        colour: TextColour,
        surface: &mut T,
    )
        requires
            offsets@.len() == glyphs@.len(),
            old(self).drawable(glyphs@, colour),
        ensures
            final(self).font_value() == old(self).font_value(),
            cache_grown(
                old(self).entries(),
                final(self).entries(),
                old(self).font_value(),
                glyphs@,
                colour,
                glyphs@.len() as int,
            ),
            pasted_in_turn(
                *old(surface),
                *final(surface),
                final(self).entries(),
                glyphs@,
                colour,
                cell_places(glyphs@, offsets@, cell),
                glyphs@.len() as int,
            ),
    {
        let mut places: Vec<Placement> = Vec::new();
        let mut n: usize = 0;
        while n < glyphs.len()
            invariant
                n <= glyphs@.len(),
                offsets@.len() == glyphs@.len(),
                places@.len() == n,
                forall|i: int|
                    0 <= i < n ==> #[trigger] places@[i] == cell_place(glyphs@[i], offsets@[i], cell),
            decreases glyphs@.len() - n,
        {
            let glyph: &PlacedGlyph = &glyphs[n];
            places.push(Placement { x: offsets[n], y: glyph.y, width: cell, height: glyph.height });
            n += 1;
        }
        assert(places@ =~= cell_places(glyphs@, offsets@, cell));
        self.draw_placed(glyphs, &places, colour, surface);
    }

    /// Draws as [`Self::draw_string_monospaced`] does where there is one
    /// offset for each glyph and the glyphs are drawable, and says so; draws
    /// nothing and leaves the cache as it was where not.
    pub fn try_draw_string_monospaced(
        &mut self,
        glyphs: &Vec<PlacedGlyph>,
        offsets: &Vec<usize>,
        cell: usize,
        colour: TextColour,
        surface: &mut T,
    ) -> (drawn: bool)
        ensures
            final(self).font_value() == old(self).font_value(),
            drawn == (offsets@.len() == glyphs@.len() && old(self).drawable(glyphs@, colour)),
            drawn ==> cache_grown(
                old(self).entries(),
                final(self).entries(),
                old(self).font_value(),
                glyphs@,
                colour,
                glyphs@.len() as int,
            ),
            drawn ==> pasted_in_turn(
                *old(surface),
                *final(surface),
                final(self).entries(),
                glyphs@,
                colour,
                cell_places(glyphs@, offsets@, cell),
                glyphs@.len() as int,
            ),
            !drawn ==> final(self).entries() == old(self).entries() && *final(surface) == *old(surface),
    {
        if offsets.len() == glyphs.len() && self.can_draw(glyphs, colour) {
            self.draw_string_monospaced(glyphs, offsets, cell, colour, surface);
            true
        } else {
            false
        }
    }
}

} // verus!
