//! The Karatsuba multiplication benchmark of the radix-2^26 Poly1305 code.

pub mod generator;
pub mod reader;
