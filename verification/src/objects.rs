//! Shapes: what of them can be decided without floating point.

pub mod circle;
pub mod collision;
