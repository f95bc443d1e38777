//! Text rendering of byte strings and numbers, as the C test harness
//! expects it.

use vstd::prelude::*;

verus! {

/// The views of a list of strings.
pub open spec fn string_views(v: Seq<String>) -> Seq<Seq<char>> {
    v.map_values(|s: String| s@)
}

/// The lowercase hexadecimal digit for `n < 16`.
pub open spec fn hex_char(n: int) -> char {
    if n < 10 {
        (48 + n) as char
    } else {
        (87 + n) as char
    }
}

/// Two lowercase hex digits, as `{:02x}` prints a byte.
pub open spec fn hex2(b: u8) -> Seq<char> {
    seq![hex_char((b / 16) as int), hex_char((b % 16) as int)]
}

/// A byte as `0x` and two hex digits, as `0x{:02x}` prints it.
pub open spec fn byte_literal(b: u8) -> Seq<char> {
    seq!['0', 'x'] + hex2(b)
}

/// Lowercase hex without leading zeros, as `{:x}` prints a byte.
pub open spec fn hex_short(b: u8) -> Seq<char> {
    if b < 16 {
        seq![hex_char(b as int)]
    } else {
        hex2(b)
    }
}

/// A byte as `0x` and its shortest hex digits, as `0x{:x}` prints it.
pub open spec fn byte_literal_short(b: u8) -> Seq<char> {
    seq!['0', 'x'] + hex_short(b)
}

/// Byte literals `0x..` separated by `, `.
pub open spec fn byte_list(s: Seq<u8>) -> Seq<char>
    decreases s.len(),
{
    if s.len() == 0 {
        Seq::empty()
    } else if s.len() == 1 {
        byte_literal(s[0])
    } else {
        byte_list(s.drop_last()) + seq![',', ' '] + byte_literal(s.last())
    }
}

/// Short byte literals `0x.` or `0x..` separated by `, `.
pub open spec fn byte_list_short(s: Seq<u8>) -> Seq<char>
    decreases s.len(),
{
    if s.len() == 0 {
        Seq::empty()
    } else if s.len() == 1 {
        byte_literal_short(s[0])
    } else {
        byte_list_short(s.drop_last()) + seq![',', ' '] + byte_literal_short(s.last())
    }
}

/// Shortest hex digits of each byte separated by `, `, inside square
/// brackets, as `{:x?}` prints a byte array.
pub open spec fn hex_debug_list(s: Seq<u8>) -> Seq<char> {
    seq!['['] + hex_items(s) + seq![']']
}

/// Shortest hex digits of each byte, separated by `, `.
pub open spec fn hex_items(s: Seq<u8>) -> Seq<char>
    decreases s.len(),
{
    if s.len() == 0 {
        Seq::empty()
    } else if s.len() == 1 {
        hex_short(s[0])
    } else {
        hex_items(s.drop_last()) + seq![',', ' '] + hex_short(s.last())
    }
}

/// The decimal digits of `n`, as `{}` prints an unsigned integer.
pub open spec fn decimal(n: nat) -> Seq<char>
    decreases n,
{
    if n < 10 {
        seq![hex_char(n as int)]
    } else {
        decimal(n / 10) + seq![hex_char((n % 10) as int)]
    }
}

/// The one-character string of hex digit `n`.
pub fn hex_digit_str(n: u8) -> (r: &'static str)
    requires
        n < 16,
    ensures
        r@ == seq![hex_char(n as int)],
{
    match n {
        0 => {
            proof {
                reveal_strlit("0");
            }
            "0"
        },
        1 => {
            proof {
                reveal_strlit("1");
            }
            "1"
        },
        2 => {
            proof {
                reveal_strlit("2");
            }
            "2"
        },
        3 => {
            proof {
                reveal_strlit("3");
            }
            "3"
        },
        4 => {
            proof {
                reveal_strlit("4");
            }
            "4"
        },
        5 => {
            proof {
                reveal_strlit("5");
            }
            "5"
        },
        6 => {
            proof {
                reveal_strlit("6");
            }
            "6"
        },
        7 => {
            proof {
                reveal_strlit("7");
            }
            "7"
        },
        8 => {
            proof {
                reveal_strlit("8");
            }
            "8"
        },
        9 => {
            proof {
                reveal_strlit("9");
            }
            "9"
        },
        10 => {
            proof {
                reveal_strlit("a");
            }
            "a"
        },
        11 => {
            proof {
                reveal_strlit("b");
            }
            "b"
        },
        12 => {
            proof {
                reveal_strlit("c");
            }
            "c"
        },
        13 => {
            proof {
                reveal_strlit("d");
            }
            "d"
        },
        14 => {
            proof {
                reveal_strlit("e");
            }
            "e"
        },
        15 => {
            proof {
                reveal_strlit("f");
            }
            "f"
        },
        _ => {
            proof {
                reveal_strlit("f");
            }
            "f"
        },
    }
}

/// Appends a byte as two lowercase hex digits.
pub fn push_hex2(s: &mut String, b: u8)
    ensures
        final(s)@ == old(s)@ + hex2(b),
{
    s.append(hex_digit_str(b / 16));
    s.append(hex_digit_str(b % 16));
}

/// Appends a byte as `0x` and two lowercase hex digits.
pub fn push_byte_literal(s: &mut String, b: u8)
    ensures
        final(s)@ == old(s)@ + byte_literal(b),
{
    proof {
        reveal_strlit("0x");
        assert("0x"@ =~= seq!['0', 'x']);
    }
    s.append("0x");
    push_hex2(s, b);
}

/// Appends a byte as `0x` and its shortest lowercase hex digits.
pub fn push_byte_literal_short(s: &mut String, b: u8)
    ensures
        final(s)@ == old(s)@ + byte_literal_short(b),
{
    proof {
        reveal_strlit("0x");
        assert("0x"@ =~= seq!['0', 'x']);
    }
    s.append("0x");
    if b < 16 {
        s.append(hex_digit_str(b));
    } else {
        push_hex2(s, b);
    }
}

/// Appends a byte's shortest lowercase hex digits.
pub fn push_hex_short(s: &mut String, b: u8)
    ensures
        final(s)@ == old(s)@ + hex_short(b),
{
    if b < 16 {
        s.append(hex_digit_str(b));
    } else {
        push_hex2(s, b);
    }
}

/// Renders a byte array the way `{:x?}` does: `[` and the shortest hex
/// digits of each byte separated by `, `, then `]`.
pub fn hex_debug_string(input: &[u8]) -> (r: String)
    ensures
        r@ == hex_debug_list(input@),
{
    let mut s = String::new();
    proof {
        reveal_strlit("[");
        reveal_strlit("]");
        reveal_strlit(", ");
        assert("["@ =~= seq!['[']);
        assert("]"@ =~= seq![']']);
        assert(", "@ =~= seq![',', ' ']);
    }
    s.append("[");
    let ghost start = s@;
    for i in 0..input.len()
        invariant
            s@ == start + hex_items(input@.take(i as int)),
            ", "@ =~= seq![',', ' '],
    {
        if i > 0 {
            s.append(", ");
        }
        let ghost before = s@;
        push_hex_short(&mut s, input[i]);
        proof {
            let t = input@.take(i + 1);
            assert(t.drop_last() =~= input@.take(i as int));
            assert(t.last() == input@[i as int]);
            if i == 0 {
                assert(t.len() == 1);
                assert(s@ =~= start + hex_items(t));
            } else {
                assert(hex_items(t) == hex_items(t.drop_last()) + seq![',', ' '] + hex_short(t.last()));
                assert(s@ =~= start + hex_items(t));
            }
        }
    }
    proof {
        assert(input@.take(input.len() as int) =~= input@);
    }
    s.append("]");
    assert(s@ =~= hex_debug_list(input@));
    s
}

/// Appends the decimal digits of `n`.
pub fn push_decimal(s: &mut String, n: u64)
    ensures
        final(s)@ == old(s)@ + decimal(n as nat),
    decreases n,
{
    if n >= 10 {
        push_decimal(s, n / 10);
    }
    s.append(hex_digit_str((n % 10) as u8));
}

/// Appends the byte literals of `input`, separated by `, `.
pub fn push_byte_list(s: &mut String, input: &[u8])
    ensures
        final(s)@ == old(s)@ + byte_list(input@),
{
    proof {
        reveal_strlit(", ");
        assert(", "@ =~= seq![',', ' ']);
    }
    let ghost start = s@;
    for i in 0..input.len()
        invariant
            s@ == start + byte_list(input@.take(i as int)),
    {
        if i > 0 {
            proof {
                reveal_strlit(", ");
                assert(", "@ =~= seq![',', ' ']);
            }
            s.append(", ");
        }
        let ghost before = s@;
        push_byte_literal(s, input[i]);
        proof {
            let t = input@.take(i + 1);
            assert(t.drop_last() =~= input@.take(i as int));
            assert(t.last() == input@[i as int]);
            if i == 0 {
                assert(t.len() == 1);
                assert(s@ =~= start + byte_list(t));
            } else {
                assert(byte_list(t) == byte_list(t.drop_last()) + seq![',', ' '] + byte_literal(t.last()));
                assert(before =~= start + byte_list(input@.take(i as int)) + seq![',', ' ']);
                assert(s@ =~= before + byte_literal(input@[i as int]));
                assert(s@ =~= start + byte_list(t));
            }
        }
    }
    proof {
        assert(input@.take(input.len() as int) =~= input@);
    }
}

/// Appends the short byte literals of `input`, separated by `, `.
pub fn push_byte_list_short(s: &mut String, input: &[u8])
    ensures
        final(s)@ == old(s)@ + byte_list_short(input@),
{
    proof {
        reveal_strlit(", ");
        assert(", "@ =~= seq![',', ' ']);
    }
    let ghost start = s@;
    for i in 0..input.len()
        invariant
            s@ == start + byte_list_short(input@.take(i as int)),
    {
        if i > 0 {
            proof {
                reveal_strlit(", ");
                assert(", "@ =~= seq![',', ' ']);
            }
            s.append(", ");
        }
        let ghost before = s@;
        push_byte_literal_short(s, input[i]);
        proof {
            let t = input@.take(i + 1);
            assert(t.drop_last() =~= input@.take(i as int));
            assert(t.last() == input@[i as int]);
            if i == 0 {
                assert(t.len() == 1);
                assert(s@ =~= start + byte_list_short(t));
            } else {
                assert(byte_list_short(t) == byte_list_short(t.drop_last()) + seq![',', ' '] + byte_literal_short(t.last()));
                assert(before =~= start + byte_list_short(input@.take(i as int)) + seq![',', ' ']);
                assert(s@ =~= before + byte_literal_short(input@[i as int]));
                assert(s@ =~= start + byte_list_short(t));
            }
        }
    }
    proof {
        assert(input@.take(input.len() as int) =~= input@);
    }
}

} // verus!
