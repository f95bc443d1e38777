//! Declarations for hand-written benchmarks.

pub mod poly1305;
