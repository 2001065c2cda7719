//! Text: how a rasterized glyph lands in a pixel buffer.

pub mod fonts;
