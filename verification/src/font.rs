//! The font engine, as far as the renderer relies on it.
//!
//! Nothing in this file is proved: each contract here records what the font
//! engine is taken to do.

use fontdue::layout::GlyphRasterConfig;
use fontdue::Font;
use std::sync::Arc;
use vstd::prelude::*;

verus! {

/// A parsed font of the font engine, carried through unread.
#[verifier::external_type_specification]
#[verifier::external_body]
pub struct ExFont(Font);

/// The engine's description of one glyph at one size, carried through unread.
#[verifier::external_type_specification]
#[verifier::external_body]
pub struct ExGlyphRasterConfig(GlyphRasterConfig);

/// The number of glyphs that `font` holds.
pub uninterp spec fn glyph_total(font: Font) -> u16;

/// The index, within its font, of the glyph that `key` describes.
pub uninterp spec fn raster_index(key: GlyphRasterConfig) -> u16;

/// The size that `key` asks for, in pixels per em, as the bits of a
/// single-precision number.
pub uninterp spec fn raster_size_bits(key: GlyphRasterConfig) -> u32;

/// Whether a size of these bits is zero or below: zero of either sign, or
/// any negative number down to negative infinity.
pub open spec fn size_not_positive(bits: u32) -> bool {
    bits == 0 || 0x8000_0000 <= bits <= 0xff80_0000
}

/// Whether a size of these bits lies from 2^-15 to 2^16: a size at which
/// the outline, scaled, neither vanishes nor leaves the range of the
/// engine's 32-bit conversions.
pub open spec fn size_ordinary(bits: u32) -> bool {
    0x3800_0000 <= bits <= 0x4780_0000
}

/// The width and height, in pixels, of the bitmap that `font` makes for `key`.
pub uninterp spec fn raster_extent(font: Font, key: GlyphRasterConfig) -> (usize, usize);

/// The coverage mask that `font` gives for `key`: one byte per pixel, row by
/// row from the top left corner.
pub uninterp spec fn coverage_mask(font: Font, key: GlyphRasterConfig) -> Seq<u8>;

/// `Font::glyph_count`: the length of the font's glyph table.
#[verifier::external_body]
pub(crate) fn glyph_count(font: &Arc<Font>) -> (n: u16)
    ensures
        n == glyph_total(**font),
{
    font.glyph_count()
}

/// Reads the public field `glyph_index` of a `GlyphRasterConfig`.
#[verifier::external_body]
pub(crate) fn glyph_index(key: &GlyphRasterConfig) -> (i: u16)
    ensures
        i == raster_index(*key),
{
    key.glyph_index
}

/// Reads the public field `px` of a `GlyphRasterConfig` and gives its bits,
/// as `to_bits` does.
#[verifier::external_body]
pub(crate) fn size_bits(key: &GlyphRasterConfig) -> (bits: u32)
    ensures
        bits == raster_size_bits(*key),
{
    key.px.to_bits()
}

/// `Font::metrics_indexed` at the key's glyph index and size, keeping the
/// width and the height of the bitmap. The engine indexes its glyph table
/// with the glyph index, so that index has to lie within the table.
#[verifier::external_body]
pub(crate) fn glyph_extent(font: &Arc<Font>, key: &GlyphRasterConfig) -> (extent: (usize, usize))
    requires
        raster_index(*key) < glyph_total(**font),
    ensures
        extent == raster_extent(**font, *key),
{
    let metrics = font.metrics_indexed(key.glyph_index, key.px);
    (metrics.width, metrics.height)
}

/// `Font::rasterize_config`, keeping the coverage mask and dropping the
/// metrics. For a size of zero or below the engine returns an empty mask at
/// once. For any other size it indexes its glyph table with the key's glyph
/// index, so that index has to lie within the table; it numbers the pixels
/// of the bitmap in single-precision arithmetic and writes at those numbers
/// without a test, so the bitmap may have no more pixels than such a number
/// counts exactly, and the size has to be one at which the scaled outline
/// neither vanishes nor overflows. The mask is taken to depend on the font
/// and the key alone.
#[verifier::external_body]
pub(crate) fn rasterize(font: &Arc<Font>, key: GlyphRasterConfig) -> (mask: Vec<u8>)
    requires
        size_not_positive(raster_size_bits(key)) || {
            &&& size_ordinary(raster_size_bits(key))
            &&& raster_index(key) < glyph_total(**font)
            &&& raster_extent(**font, key).0 * raster_extent(**font, key).1 <= 0x100_0000
        },
    ensures
        mask@ == coverage_mask(**font, key),
{
    font.rasterize_config(key).1
}

} // verus!
