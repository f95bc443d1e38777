//! The earlier Karatsuba-and-squeeze benchmark, and the reader of the
//! scalar multiplication output.

pub mod generator;
pub mod reader;
