//! The Poly1305 block-loop benchmark and the reader of its output.

pub mod generator;
pub mod reader;
