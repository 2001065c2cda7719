//! Drawing state: the target buffer and the colours in use.

pub mod two_d;
