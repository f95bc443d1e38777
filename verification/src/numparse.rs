//! Decimal integers: the grammar that `i32::from_str` accepts, and the
//! signed decimal rendering that `{}` prints.

use vstd::prelude::*;
use crate::format::{decimal, push_decimal};

verus! {

pub open spec fn is_digit(c: char) -> bool {
    '0' <= c && c <= '9'
}

/// The value of a string of decimal digits.
pub open spec fn digits_value(s: Seq<char>) -> int
    decreases s.len(),
{
    if s.len() == 0 {
        0
    } else {
        digits_value(s.drop_last()) * 10 + (s.last() as int - 48)
    }
}

/// The digits after an optional leading sign.
pub open spec fn unsigned_part(s: Seq<char>) -> Seq<char> {
    if s.len() > 0 && (s[0] == '-' || s[0] == '+') {
        s.drop_first()
    } else {
        s
    }
}

/// What `i32::from_str` returns on `s`: an optional `+` or `-`, then at
/// least one ASCII digit and nothing else, with a value in range.
pub open spec fn parse_i32(s: Seq<char>) -> Option<i32> {
    let body = unsigned_part(s);
    let neg = s.len() > 0 && s[0] == '-';
    let v = if neg {
        -digits_value(body)
    } else {
        digits_value(body)
    };
    if body.len() == 0 || !(forall|i: int| 0 <= i < body.len() ==> is_digit(#[trigger] body[i])) {
        None
    } else if i32::MIN <= v <= i32::MAX {
        Some(v as i32)
    } else {
        None
    }
}

/// Parses a decimal `i32` exactly as `i32::from_str` does.
pub fn parse_i32_str(s: &str) -> (r: Option<i32>)
    ensures
        r == parse_i32(s@),
{
    let n = s.unicode_len();
    let mut start: usize = 0;
    let mut neg = false;
    if n > 0 {
        let c = s.get_char(0);
        if c == '-' {
            neg = true;
            start = 1;
        } else if c == '+' {
            start = 1;
        }
    }
    let ghost body = unsigned_part(s@);
    proof {
        assert(body =~= s@.skip(start as int));
    }
    if start == n {
        return None;
    }
    let cap: i64 = 0x1_0000_0000;
    let mut v: i64 = 0;
    let mut i = start;
    while i < n
        invariant
            n == s@.len(),
            start <= i <= n,
            body == s@.skip(start as int),
            body == unsigned_part(s@),
            cap == 0x1_0000_0000,
            forall|k: int| start <= k < i ==> is_digit(#[trigger] s@[k]),
            v == (if digits_value(body.take(i - start)) >= cap {
                cap as int
            } else {
                digits_value(body.take(i - start))
            }),
            digits_value(body.take(i - start)) >= 0,
        decreases n - i,
    {
        let c = s.get_char(i);
        if !('0' <= c && c <= '9') {
            proof {
                let k = i - start;
                assert(body[k] == s@[i as int]);
                assert(!is_digit(body[k]));
                assert(!(forall|q: int| 0 <= q < body.len() ==> is_digit(#[trigger] body[q])));
                assert(parse_i32(s@) is None);
            }
            return None;
        }
        let d = (c as u32 - 48) as i64;
        proof {
            let t = body.take(i - start + 1);
            assert(t.drop_last() =~= body.take(i - start));
            assert(t.last() == c);
        }
        if v >= cap {
            v = cap;
        } else {
            let w = v * 10 + d;
            v = if w >= cap {
                cap
            } else {
                w
            };
        }
        i = i + 1;
    }
    proof {
        assert(body.take(n - start) =~= body);
        assert forall|k: int| 0 <= k < body.len() implies is_digit(#[trigger] body[k]) by {
            assert(body[k] == s@[k + start]);
        }
    }
    if v >= cap {
        return None;
    }
    let signed = if neg {
        -v
    } else {
        v
    };
    if signed < -2147483648 || signed > 2147483647 {
        None
    } else {
        Some(signed as i32)
    }
}

/// The decimal rendering of a signed integer, as `{}` prints it.
pub open spec fn signed_decimal(n: int) -> Seq<char> {
    if n < 0 {
        seq!['-'] + decimal((-n) as nat)
    } else {
        decimal(n as nat)
    }
}

/// Appends the decimal rendering of `n`.
pub fn push_i32(s: &mut String, n: i32)
    ensures
        final(s)@ == old(s)@ + signed_decimal(n as int),
{
    if n < 0 {
        proof {
            reveal_strlit("-");
            assert("-"@ =~= seq!['-']);
        }
        s.append("-");
        let m: i64 = -(n as i64);
        push_decimal(s, m as u64);
    } else {
        push_decimal(s, n as u64);
    }
}

} // verus!
