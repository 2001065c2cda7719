//! The vocabulary of input.

pub mod keyboard;
