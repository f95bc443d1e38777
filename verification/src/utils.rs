//! Rendering byte strings as C initialisers and comma-separated lists.

use vstd::prelude::*;
use crate::format::{byte_list, byte_list_short, decimal, push_byte_list, push_byte_list_short};
use crate::format::push_decimal;

verus! {

/// `        static unsigned char <varname>[<len>] = {0x.., ..., 0x..};`
pub open spec fn c_variable(input: Seq<u8>, varname: Seq<char>) -> Seq<char> {
    "        static unsigned char "@ + varname + "["@ + decimal(input.len()) + "] = {"@ + byte_list(
        input,
    ) + "};"@
}

/// Renders `input` as a static C byte array named `varname`.
pub fn u8_to_string_variable(input: &[u8], varname: &str) -> (r: String)
    requires
        input@.len() > 0,
    ensures
        r@ == c_variable(input@, varname@),
{
    let mut var = String::new();
    var.append("        static unsigned char ");
    var.append(varname);
    var.append("[");
    push_decimal(&mut var, input.len() as u64);
    var.append("] = {");
    push_byte_list(&mut var, input);
    var.append("};");
    var
}

/// Renders `input` as `0x..` byte literals separated by `, `.
pub fn u8_to_string(input: &[u8]) -> (r: String)
    requires
        input@.len() > 0,
    ensures
        r@ == byte_list(input@),
{
    let mut var = String::new();
    push_byte_list(&mut var, input);
    var
}

/// `opening` followed by the short byte literals of `input` and `};`.
pub open spec fn short_initializer_text(opening: Seq<char>, input: Seq<u8>) -> Seq<char> {
    opening + byte_list_short(input) + "};"@
}

/// Completes a C array initialiser: `opening` (the declaration up to the
/// brace), the bytes as `0x{:x}` literals separated by `, `, and `};`.
pub fn short_initializer(opening: &str, input: &[u8]) -> (r: String)
    ensures
        r@ == short_initializer_text(opening@, input@),
{
    let mut var = String::new();
    var.append(opening);
    push_byte_list_short(&mut var, input);
    var.append("};");
    var
}

} // verus!
