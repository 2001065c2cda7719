//! What a running loop knows about itself.

pub mod time;
