//! Checking the output of the build and upload commands.

use vstd::prelude::*;
use crate::text::{contains_str, contains_pat, str_eq};
use crate::primitives::{utf8_decode, spec_utf8_decode};

verus! {

/// Why a command's output was not accepted.
#[derive(Debug, PartialEq, Eq, Structural)]
pub enum KeywordError {
    /// The output is not UTF-8.
    NotUtf8,
    /// The output does not contain the keyword.
    KeywordMissing,
}

/// Decodes a command's output as UTF-8.
pub fn vecu8_to_string(val: Vec<u8>) -> (r: Result<String, KeywordError>)
    ensures
        spec_utf8_decode(val@) is None ==> r == Err::<String, KeywordError>(KeywordError::NotUtf8),
        spec_utf8_decode(val@) is Some ==> r is Ok && r->Ok_0@ == spec_utf8_decode(val@)->Some_0,
{
    match utf8_decode(val) {
        Some(s) => Ok(s),
        None => Err(KeywordError::NotUtf8),
    }
}

/// Accepts a command's output when it is UTF-8 and contains `keyword`.
pub fn check_for_keyword(val: Vec<u8>, keyword: &str) -> (r: Result<(), KeywordError>)
    ensures
        match spec_utf8_decode(val@) {
            None => r == Err::<(), KeywordError>(KeywordError::NotUtf8),
            Some(s) => if contains_pat(s, keyword@) {
                r is Ok
            } else {
                r == Err::<(), KeywordError>(KeywordError::KeywordMissing)
            },
        },
{
    let strings = match vecu8_to_string(val) {
        Ok(s) => s,
        Err(e) => {
            return Err(e);
        },
    };
    if !contains_str(strings.as_str(), keyword) {
        return Err(KeywordError::KeywordMissing);
    }
    Ok(())
}

/// Whether a line of the upload's output confirms the upload: it reads
/// exactly `O.K.`.
pub fn upload_confirmed(line: &str) -> (r: bool)
    ensures
        r == (line@ == "O.K."@),
{
    str_eq(line, "O.K.")
}

} // verus!
