//! A small software-rendering toolkit: colour packing, a pixel buffer,
//! frame bookkeeping and the decision kernels of a 2D collision pipeline.

pub mod colors;
pub mod constants;
pub mod buffer;
pub mod renderer;
pub mod error;
pub mod context;
pub mod events;
pub mod internal;
pub mod objects;
pub mod fonts;
pub mod linal;
