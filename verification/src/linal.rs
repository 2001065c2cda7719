//! Numbers: what of them can be had as integers.

pub mod rank;
