//! Text drawing with a cache of coloured glyph bitmaps.
//!
//! A [`renderer::TextRenderer`] owns one font and a table of glyph bitmaps
//! that it has already rasterized and coloured, keyed by the rendered height,
//! the colour and the character. Drawing looks each positioned glyph up in
//! that table, fills the table where the glyph is new, and pastes the cached
//! artifact onto a [`surface::DrawableSurface`].

pub mod colourize;
pub mod colours;
pub mod font;
pub mod renderer;
pub mod surface;
