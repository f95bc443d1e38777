//! The constant-time multiplication benchmark and the readers of its output.

pub mod securemul_generator;
pub mod reader;
pub mod securemul_reader;
