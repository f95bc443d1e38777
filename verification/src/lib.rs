//! Test-vector generation and result checking for a RISC-V implementation
//! of NaCl: TweetNaCl field arithmetic over GF(2^255 - 19), the X25519
//! ladder and crypto_box, the C benchmark harnesses that run test cases on
//! the board, the readers of the board's serial output, the decisions of a
//! test run, and the tool that turns raw output into CSV rows.

// Arithmetic and cryptography.
pub mod limbs;
pub mod field;
pub mod curve25519;
pub mod primitives;

// Text: rendering, scanning and parsing.
pub mod format;
pub mod utils;
pub mod text;
pub mod numparse;
pub mod scan;

// The test campaign: generators, harnesses, readers and the run itself.
pub mod benchmark;
pub mod traits;
pub mod functions_and_testcases;
pub mod generators;
pub mod poly1305;
pub mod reader;
pub mod make;
pub mod run;

// Earlier single-purpose benchmarks.
pub mod karatsuba;
pub mod mulmod;
pub mod onetime_authloop;
pub mod scalarmult;
pub mod securemul;
pub mod testcase_generators;

// Turning raw output into CSV rows.
pub mod parsing;

pub use functions_and_testcases::{
    ScalarmultGenerator, CryptoboxGenerator, StreamGenerator, SecretBoxGenerator, Function, TestcaseEnum,
};
pub use poly1305::generator::Poly1305Generator;
