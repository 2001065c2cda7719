//! Colour values and the packed 32-bit pixel formats they convert to and from.

pub mod color;
pub mod modify;
pub mod presets;
