//! Poly1305 test cases: the generator of the current campaign, the
//! earlier single-message harness, and the readers of their outputs.

pub mod generator;
pub mod poly1305_generator;
pub mod reader;
pub mod poly1305_reader;
