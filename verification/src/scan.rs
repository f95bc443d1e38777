//! The patterns that the readers look for in a line of board output, as
//! functions on the line's characters.

use vstd::prelude::*;
use crate::numparse::is_digit;
use crate::text::{occurs_at, matches_at};
use crate::format::decimal;

verus! {

/// Where the run of ASCII digits that ends at position `j` (inclusive)
/// begins.
pub open spec fn run_start(s: Seq<char>, j: int) -> int
    decreases j,
{
    if j > 0 && is_digit(s[j - 1]) {
        run_start(s, j - 1)
    } else {
        j
    }
}

/// The digit runs, each followed by `, `, that end within the first `n`
/// characters: what `(?:([0-9]+), )` captures, match by match, left to right.
pub open spec fn cycle_tokens_upto(s: Seq<char>, n: int) -> Seq<Seq<char>>
    decreases n,
{
    if n <= 0 {
        Seq::empty()
    } else {
        let prev = cycle_tokens_upto(s, n - 1);
        if n >= 3 && s[n - 1] == ' ' && s[n - 2] == ',' && is_digit(s[n - 3]) {
            prev.push(s.subrange(run_start(s, n - 3), n - 2))
        } else {
            prev
        }
    }
}

/// The cycle-count tokens of a line.
pub open spec fn cycle_tokens(s: Seq<char>) -> Seq<Seq<char>> {
    cycle_tokens_upto(s, s.len() as int)
}

proof fn lemma_run_start_bounds(s: Seq<char>, j: int)
    requires
        0 <= j < s.len(),
    ensures
        0 <= run_start(s, j) <= j,
        forall|k: int| run_start(s, j) <= k < j ==> is_digit(#[trigger] s[k]),
    decreases j,
{
    if j > 0 && is_digit(s[j - 1]) {
        lemma_run_start_bounds(s, j - 1);
    }
}

fn find_run_start(s: &str, n: usize, j: usize) -> (r: usize)
    requires
        n == s@.len(),
        j < n,
    ensures
        r == run_start(s@, j as int),
{
    let mut k = j;
    while k > 0 && is_ascii_digit(s.get_char(k - 1))
        invariant
            n == s@.len(),
            k <= j < n,
            run_start(s@, k as int) == run_start(s@, j as int),
        decreases k,
    {
        k = k - 1;
    }
    k
}

/// Tests for an ASCII digit.
pub fn is_ascii_digit(c: char) -> (r: bool)
    ensures
        r == is_digit(c),
{
    '0' <= c && c <= '9'
}

/// The digit strings that `(?:([0-9]+), )` captures in `s`.
pub fn cycle_count_tokens(s: &str) -> (r: Vec<String>)
    ensures
        r@.len() == cycle_tokens(s@).len(),
        forall|i: int| 0 <= i < r@.len() ==> #[trigger] r@[i]@ == cycle_tokens(s@)[i],
{
    let n = s.unicode_len();
    let mut out: Vec<String> = Vec::new();
    for i in 0..n
        invariant
            n == s@.len(),
            out@.len() == cycle_tokens_upto(s@, i as int).len(),
            forall|k: int| 0 <= k < out@.len() ==> #[trigger] out@[k]@ == cycle_tokens_upto(s@, i as int)[k],
    {
        if i >= 2 && s.get_char(i) == ' ' && s.get_char(i - 1) == ',' && is_ascii_digit(
            s.get_char(i - 2),
        ) {
            let a = find_run_start(s, n, i - 2);
            proof {
                lemma_run_start_bounds(s@, i - 2);
            }
            let tok = String::from_str(s.substring_char(a, i - 1));
            out.push(tok);
        }
    }
    out
}

/// Whether `(?:([0-9]+), )` matches somewhere in `s`.
pub fn has_cycle_counts(s: &str) -> (r: bool)
    ensures
        r == (cycle_tokens(s@).len() > 0),
{
    let t = cycle_count_tokens(s);
    t.len() > 0
}

/// The character classes that the readers' patterns use.
pub enum CharClass {
    /// `[a-f0-9]`
    HexLower,
    /// `[0-9a-z]`
    LowerAlnum,
    /// `[0-9]`
    Digit,
}

pub open spec fn in_class(class: CharClass, c: char) -> bool {
    match class {
        CharClass::HexLower => ('a' <= c && c <= 'f') || ('0' <= c && c <= '9'),
        CharClass::LowerAlnum => ('a' <= c && c <= 'z') || ('0' <= c && c <= '9'),
        CharClass::Digit => '0' <= c && c <= '9',
    }
}

fn char_in_class(class: &CharClass, c: char) -> (r: bool)
    ensures
        r == in_class(*class, c),
{
    match class {
        CharClass::HexLower => ('a' <= c && c <= 'f') || ('0' <= c && c <= '9'),
        CharClass::LowerAlnum => ('a' <= c && c <= 'z') || ('0' <= c && c <= '9'),
        CharClass::Digit => '0' <= c && c <= '9',
    }
}

/// `len` characters of the class start at position `p`.
pub open spec fn run_at(s: Seq<char>, class: CharClass, len: int, p: int) -> bool {
    &&& 0 <= p
    &&& p + len <= s.len()
    &&& forall|k: int| p <= k < p + len ==> in_class(class, #[trigger] s[k])
}

/// Where `class{len}` first matches in `s`, as a regex search finds it.
pub fn first_run(s: &str, class: CharClass, len: usize) -> (r: Option<usize>)
    ensures
        r is Some ==> run_at(s@, class, len as int, r->Some_0 as int) && forall|q: int|
            0 <= q < r->Some_0 ==> !run_at(s@, class, len as int, q),
        r is None ==> forall|q: int| !run_at(s@, class, len as int, q),
{
    let n = s.unicode_len();
    if len > n {
        return None;
    }
    // `count` is the length of the class run that ends just before `i`
    let mut count: usize = 0;
    let mut i: usize = 0;
    if len == 0 {
        return Some(0);
    }
    while i < n
        invariant
            n == s@.len(),
            0 < len <= n,
            i <= n,
            count <= i,
            count < len,
            forall|k: int| i - count <= k < i ==> in_class(class, #[trigger] s@[k]),
            count < i ==> !in_class(class, s@[i - count - 1]),
            forall|q: int| 0 <= q && q + len <= i ==> !run_at(s@, class, len as int, q),
        decreases n - i,
    {
        if char_in_class(&class, s.get_char(i)) {
            count = count + 1;
            if count == len {
                let p = i + 1 - len;
                proof {
                    assert forall|q: int| 0 <= q < p implies !run_at(s@, class, len as int, q) by {
                        if run_at(s@, class, len as int, q) && q + len > i {
                            // the run would contain the character before the current one
                            assert(in_class(class, s@[i - count + 1 - 1]));
                        }
                    }
                }
                return Some(p);
            }
        } else {
            proof {
                assert forall|q: int| 0 <= q && q + len <= i + 1 implies !run_at(s@, class, len as int, q) by {
                    if q + len == i + 1 {
                        assert(!in_class(class, s@[i as int]));
                    }
                }
            }
            count = 0;
        }
        i = i + 1;
    }
    proof {
        assert forall|q: int| !run_at(s@, class, len as int, q) by {}
    }
    None
}

/// Where the run of class characters that starts at `k` ends (exclusive).
pub open spec fn class_end(s: Seq<char>, class: CharClass, k: int) -> int
    decreases s.len() - k,
{
    if 0 <= k < s.len() && in_class(class, s[k]) {
        class_end(s, class, k + 1)
    } else {
        k
    }
}

pub proof fn lemma_class_end(s: Seq<char>, class: CharClass, k: int)
    requires
        0 <= k <= s.len(),
    ensures
        k <= class_end(s, class, k) <= s.len(),
        forall|j: int| k <= j < class_end(s, class, k) ==> in_class(class, #[trigger] s[j]),
        class_end(s, class, k) < s.len() ==> !in_class(class, s[class_end(s, class, k)]),
    decreases s.len() - k,
{
    if k < s.len() && in_class(class, s[k]) {
        lemma_class_end(s, class, k + 1);
    }
}

fn find_class_end(s: &str, n: usize, class: &CharClass, k: usize) -> (r: usize)
    requires
        n == s@.len(),
        k <= n,
    ensures
        r == class_end(s@, *class, k as int),
{
    let mut j = k;
    while j < n && char_in_class(class, s.get_char(j))
        invariant
            n == s@.len(),
            k <= j <= n,
            class_end(s@, *class, j as int) == class_end(s@, *class, k as int),
        decreases n - j,
    {
        j = j + 1;
    }
    j
}

/// `This took <digits> cycles` matches at position `i`: the digits are the
/// whole digit run after `This took `.
pub open spec fn took_at(s: Seq<char>, i: int) -> bool {
    let e = class_end(s, CharClass::Digit, i + 10);
    &&& occurs_at(s, "This took "@, i)
    &&& e > i + 10
    &&& occurs_at(s, " cycles"@, e)
}

/// The digits that `This took ([0-9]+) cycles` captures at its leftmost
/// match in `s`, if it matches.
pub fn took_cycles(s: &str) -> (r: Option<String>)
    ensures
        r is None ==> forall|i: int| !took_at(s@, i),
        r is Some ==> exists|i: int|
            took_at(s@, i) && (forall|q: int| 0 <= q < i ==> !took_at(s@, q)) && r->Some_0@ == s@.subrange(
                i + 10,
                class_end(s@, CharClass::Digit, i + 10),
            ),
{
    proof {
        reveal_strlit("This took ");
    }
    let n = s.unicode_len();
    let m = "This took ".unicode_len();
    let c = " cycles".unicode_len();
    assert(m == 10);
    let mut i: usize = 0;
    while i < n && m <= n - i
        invariant
            n == s@.len(),
            m == 10,
            m == "This took "@.len(),
            c == " cycles"@.len(),
            forall|q: int| 0 <= q < i ==> !took_at(s@, q),
        decreases n - i,
    {
        if matches_at(s, n, "This took ", m, i) {
            let e = find_class_end(s, n, &CharClass::Digit, i + m);
            proof {
                lemma_class_end(s@, CharClass::Digit, i + 10);
            }
            if e > i + m && c <= n - e && matches_at(s, n, " cycles", c, e) {
                let digits = String::from_str(s.substring_char(i + m, e));
                proof {
                    assert(took_at(s@, i as int));
                }
                return Some(digits);
            }
            proof {
                if e + c > n {
                    assert(!occurs_at(s@, " cycles"@, e as int));
                }
            }
        }
        i = i + 1;
    }
    proof {
        assert forall|q: int| !took_at(s@, q) by {
            if q >= i {
                assert(!occurs_at(s@, "This took "@, q));
            }
        }
    }
    None
}

/// `0x` followed by a lowercase hex digit starts at position `i`.
pub open spec fn hex_literal_at(s: Seq<char>, i: int) -> bool {
    &&& 0 <= i
    &&& i + 2 < s.len()
    &&& s[i] == '0'
    &&& s[i + 1] == 'x'
    &&& in_class(CharClass::HexLower, s[i + 2])
}

/// The digits that `0x([0-9a-f]+)` captures at its leftmost match in `s`,
/// if it matches.
pub fn first_hex_literal(s: &str) -> (r: Option<String>)
    ensures
        r is None ==> forall|i: int| !hex_literal_at(s@, i),
        r is Some ==> exists|i: int|
            hex_literal_at(s@, i) && (forall|q: int| 0 <= q < i ==> !hex_literal_at(s@, q))
                && r->Some_0@ == s@.subrange(i + 2, class_end(s@, CharClass::HexLower, i + 2)),
{
    let n = s.unicode_len();
    let mut i: usize = 0;
    while i < n && n - i > 2
        invariant
            n == s@.len(),
            forall|q: int| 0 <= q < i ==> !hex_literal_at(s@, q),
        decreases n - i,
    {
        if s.get_char(i) == '0' && s.get_char(i + 1) == 'x' && char_in_class(
            &CharClass::HexLower,
            s.get_char(i + 2),
        ) {
            let e = find_class_end(s, n, &CharClass::HexLower, i + 2);
            proof {
                lemma_class_end(s@, CharClass::HexLower, i + 2);
            }
            let digits = String::from_str(s.substring_char(i + 2, e));
            proof {
                assert(hex_literal_at(s@, i as int));
            }
            return Some(digits);
        }
        i = i + 1;
    }
    proof {
        assert forall|q: int| !hex_literal_at(s@, q) by {
            if q >= i {
                assert(!(q + 2 < s@.len()));
            }
        }
    }
    None
}

/// `n` spaces.
pub open spec fn spaces(n: nat) -> Seq<char> {
    Seq::new(n, |i: int| ' ')
}

/// A number's digits as `%6u` prints them: right-aligned in six columns.
pub open spec fn pad6(d: Seq<char>) -> Seq<char> {
    if d.len() < 6 {
        spaces((6 - d.len()) as nat) + d
    } else {
        d
    }
}

/// What the harness's `printcounters` prints for the counter differences
/// `vs`: each one as `%6u, `.
pub open spec fn printed_counters(vs: Seq<nat>) -> Seq<char>
    decreases vs.len(),
{
    if vs.len() == 0 {
        Seq::empty()
    } else {
        printed_counters(vs.drop_last()) + pad6(decimal(vs.last())) + seq![',', ' ']
    }
}

pub proof fn lemma_decimal_digits(v: nat)
    ensures
        decimal(v).len() >= 1,
        forall|i: int| 0 <= i < decimal(v).len() ==> is_digit(#[trigger] decimal(v)[i]),
    decreases v,
{
    if v >= 10 {
        lemma_decimal_digits(v / 10);
    }
}

proof fn lemma_run_start_at(s: Seq<char>, a: int, j: int)
    requires
        0 <= a <= j <= s.len(),
        forall|k: int| a <= k < j ==> is_digit(#[trigger] s[k]),
        a == 0 || !is_digit(s[a - 1]),
    ensures
        run_start(s, j) == a,
    decreases j - a,
{
    if j > a {
        lemma_run_start_at(s, a, j - 1);
    }
}

proof fn lemma_run_start_prefix(s1: Seq<char>, s2: Seq<char>, j: int, n: int)
    requires
        0 <= j <= n <= s1.len(),
        n <= s2.len(),
        s1.take(n) == s2.take(n),
    ensures
        run_start(s1, j) == run_start(s2, j),
    decreases j,
{
    if j > 0 {
        assert(s1[j - 1] == s1.take(n)[j - 1]);
        assert(s2[j - 1] == s2.take(n)[j - 1]);
        lemma_run_start_prefix(s1, s2, j - 1, n);
    }
}

proof fn lemma_tokens_prefix(s1: Seq<char>, s2: Seq<char>, n: int)
    requires
        0 <= n <= s1.len(),
        n <= s2.len(),
        s1.take(n) == s2.take(n),
    ensures
        cycle_tokens_upto(s1, n) == cycle_tokens_upto(s2, n),
    decreases n,
{
    if n > 0 {
        assert(s1.take(n - 1) =~= s1.take(n).take(n - 1));
        assert(s2.take(n - 1) =~= s2.take(n).take(n - 1));
        lemma_tokens_prefix(s1, s2, n - 1);
        if n >= 3 {
            assert(s1[n - 1] == s1.take(n)[n - 1]);
            assert(s2[n - 1] == s2.take(n)[n - 1]);
            assert(s1[n - 2] == s1.take(n)[n - 2]);
            assert(s2[n - 2] == s2.take(n)[n - 2]);
            assert(s1[n - 3] == s1.take(n)[n - 3]);
            assert(s2[n - 3] == s2.take(n)[n - 3]);
            lemma_run_start_prefix(s1, s2, n - 3, n);
            lemma_run_start_bounds(s1, n - 3);
            let a = run_start(s1, n - 3);
            assert forall|k: int| a <= k < n - 2 implies s1[k] == s2[k] by {
                assert(s1[k] == s1.take(n)[k]);
                assert(s2[k] == s2.take(n)[k]);
            }
            assert(s1.subrange(a, n - 2) =~= s2.subrange(a, n - 2));
        }
    }
}

proof fn lemma_no_digit_no_tokens(s: Seq<char>, n: int)
    requires
        0 <= n <= s.len(),
        forall|i: int| 0 <= i < s.len() ==> !is_digit(#[trigger] s[i]),
    ensures
        cycle_tokens_upto(s, n) == Seq::<Seq<char>>::empty(),
    decreases n,
{
    if n > 0 {
        lemma_no_digit_no_tokens(s, n - 1);
    }
}

/// Inside a block, before its closing `, `, no token ends.
proof fn lemma_block_silent(t: Seq<char>, d: Seq<char>, n: int)
    requires
        d.len() >= 1,
        forall|i: int| 0 <= i < d.len() ==> is_digit(#[trigger] d[i]),
        t.len() == 0 || !is_digit(t.last()),
        t.len() < 2 || !(t.last() == ',' && is_digit(t[t.len() - 2])),
        t.len() <= n < t.len() + pad6(d).len() + 2,
    ensures
        cycle_tokens_upto(t + pad6(d) + seq![',', ' '], n) == cycle_tokens_upto(
            t + pad6(d) + seq![',', ' '],
            t.len() as int,
        ),
    decreases n,
{
    let s = t + pad6(d) + seq![',', ' '];
    let m = t.len() as int;
    let p = pad6(d);
    let padlen = p.len() - d.len();
    assert forall|k: int| 0 <= k < p.len() implies (#[trigger] p[k] == ' ' && k < padlen) || (is_digit(p[k])
        && k >= padlen) by {
        if d.len() < 6 {
            if k >= padlen {
                assert(p[k] == d[k - padlen]);
            }
        } else {
            assert(p == d);
        }
    }
    if n > m {
        lemma_block_silent(t, d, n - 1);
        let k = n - 1 - m;
        assert(s[n - 1] == (p + seq![',', ' '])[k]);
        if k == p.len() {
            assert(s[n - 1] == ',');
        } else if p[k] == ' ' {
            if k >= 1 {
                assert(s[n - 2] == p[k - 1]);
            } else if m >= 2 {
                assert(s[n - 2] == t.last());
                assert(s[n - 3] == t[t.len() - 2]);
            }
        }
    }
}

proof fn lemma_block_tokens(t: Seq<char>, d: Seq<char>)
    requires
        d.len() >= 1,
        forall|i: int| 0 <= i < d.len() ==> is_digit(#[trigger] d[i]),
        t.len() == 0 || !is_digit(t.last()),
        t.len() < 2 || !(t.last() == ',' && is_digit(t[t.len() - 2])),
    ensures
        cycle_tokens(t + pad6(d) + seq![',', ' ']) == cycle_tokens(t).push(d),
{
    let s = t + pad6(d) + seq![',', ' '];
    let m = t.len() as int;
    let p = pad6(d);
    let padlen = p.len() - d.len();
    let len = s.len() as int;
    assert(s.take(m) =~= t.take(m));
    assert(t.take(m) =~= t);
    lemma_tokens_prefix(s, t, m);
    lemma_block_silent(t, d, len - 1);
    assert(s[len - 1] == ' ');
    assert(s[len - 2] == ',');
    let a = m + padlen;
    assert forall|k: int| a <= k < len - 2 implies is_digit(#[trigger] s[k]) by {
        if d.len() < 6 {
            assert(s[k] == p[k - m]);
            assert(p[k - m] == d[k - m - padlen]);
        } else {
            assert(p == d);
            assert(s[k] == d[k - m]);
        }
    }
    assert(is_digit(s[len - 3]));
    if a > 0 {
        if padlen > 0 {
            assert(s[a - 1] == p[padlen - 1]);
            assert(p[padlen - 1] == ' ');
        } else {
            assert(s[a - 1] == t.last());
        }
    }
    lemma_run_start_at(s, a, len - 3);
    assert(s.subrange(a, len - 2) =~= d) by {
        if d.len() >= 6 {
            assert(p == d);
        }
    }
}

/// The cycle counts that the harness prints are read back: after a prefix
/// without digits (such as `Cycle counts:` and its padding), the line that
/// `printcounters` prints for the counter differences `vs` holds exactly
/// their decimal digits as cycle-count tokens, in order.
pub proof fn lemma_printed_counters_read_back(prefix: Seq<char>, vs: Seq<nat>)
    requires
        forall|i: int| 0 <= i < prefix.len() ==> !is_digit(#[trigger] prefix[i]),
    ensures
        cycle_tokens(prefix + printed_counters(vs)) == vs.map_values(|v: nat| decimal(v)),
    decreases vs.len(),
{
    if vs.len() == 0 {
        assert(prefix + printed_counters(vs) =~= prefix);
        lemma_no_digit_no_tokens(prefix, prefix.len() as int);
        assert(vs.map_values(|v: nat| decimal(v)) =~= Seq::<Seq<char>>::empty());
    } else {
        let prev = vs.drop_last();
        lemma_printed_counters_read_back(prefix, prev);
        let t = prefix + printed_counters(prev);
        let d = decimal(vs.last());
        lemma_decimal_digits(vs.last());
        if prev.len() > 0 {
            assert(t.last() == ' ');
        } else {
            assert(t =~= prefix);
            if t.len() > 0 {
                assert(!is_digit(t.last()));
            }
            if t.len() >= 2 {
                assert(!is_digit(t[t.len() - 2]));
            }
        }
        lemma_block_tokens(t, d);
        assert(prefix + printed_counters(vs) =~= t + pad6(d) + seq![',', ' ']);
        assert(vs.map_values(|v: nat| decimal(v)) =~= prev.map_values(|v: nat| decimal(v)).push(d));
    }
}

} // verus!