//! What the window binding keeps for itself.

pub mod keys;
pub mod rate;
