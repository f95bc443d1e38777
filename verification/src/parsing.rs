//! Turns the board's text output into one CSV row per measured run:
//! the line grammar, the comma-separated number lists and the rows.

use vstd::prelude::*;
use crate::text::{trimmed, trim_str, starts_with, remove_str, remove_all, str_eq};
use crate::numparse::{parse_i32, parse_i32_str, push_i32, signed_decimal, is_digit, digits_value, unsigned_part};
use crate::text::{trim_start, trim_end, is_ws, lemma_trim_start_skip};
use crate::scan::{spaces, pad6, printed_counters, lemma_decimal_digits};
use crate::format::{decimal, hex_char};

verus! {

/// The measurements gathered for one test case.
pub struct Testcase {
    pub cycles: Vec<i32>,
    pub branch_dir_mis: Vec<i32>,
    pub branch_tar_mis: Vec<i32>,
    pub correct: bool,
    pub result: String,
    pub expected_result: String,
    pub run: i32,
}

impl Testcase {
    /// An empty test case.
    pub fn new() -> (t: Testcase)
        ensures
            t.cycles@.len() == 0,
            t.branch_dir_mis@.len() == 0,
            t.branch_tar_mis@.len() == 0,
            !t.correct,
            t.run == 0,
            t.result@.len() == 0,
            t.expected_result@.len() == 0,
    {
        Testcase {
            cycles: Vec::new(),
            branch_dir_mis: Vec::new(),
            branch_tar_mis: Vec::new(),
            correct: false,
            run: 0,
            result: String::new(),
            expected_result: String::new(),
        }
    }
}

/// One measured run of a test case: a row of the CSV file.
pub struct Trial {
    pub cycle: i32,
    pub branch_dir_mis: i32,
    pub branch_tar_mis: i32,
    pub correct: bool,
    pub run: i32,
    pub id: i32,
}

/// The pieces of `s` between commas, as `str::split(',')` yields them.
pub open spec fn split_commas(s: Seq<char>) -> Seq<Seq<char>>
    decreases s.len(),
{
    if s.len() == 0 {
        seq![Seq::empty()]
    } else {
        let prev = split_commas(s.drop_last());
        if s.last() == ',' {
            prev.push(Seq::empty())
        } else {
            prev.update(prev.len() - 1, prev.last().push(s.last()))
        }
    }
}

/// The values of the pieces that, trimmed, parse as `i32`; the others are
/// skipped.
pub open spec fn parsed_pieces(pieces: Seq<Seq<char>>) -> Seq<i32>
    decreases pieces.len(),
{
    if pieces.len() == 0 {
        Seq::empty()
    } else {
        let prev = parsed_pieces(pieces.drop_last());
        match parse_i32(trimmed(pieces.last())) {
            Some(v) => prev.push(v),
            None => prev,
        }
    }
}

/// The numbers of a comma-separated line.
pub open spec fn line_values(s: Seq<char>) -> Seq<i32> {
    parsed_pieces(split_commas(s))
}

proof fn lemma_split_commas_len(s: Seq<char>)
    ensures
        split_commas(s).len() >= 1,
    decreases s.len(),
{
    if s.len() > 0 {
        lemma_split_commas_len(s.drop_last());
    }
}

/// Parses the comma-separated numbers of a line, skipping the pieces that
/// are not numbers.
pub fn line_to_vec(line: String) -> (r: Vec<i32>)
    ensures
        r@ == line_values(line@),
{
    let s = line.as_str();
    let n = s.unicode_len();
    let mut out: Vec<i32> = Vec::new();
    let mut start: usize = 0;
    let ghost mut done: Seq<Seq<char>> = Seq::empty();
    proof {
        assert(s@.take(0) =~= Seq::<char>::empty());
        assert(s@.subrange(0, 0) =~= Seq::<char>::empty());
    }
    for i in 0..n
        invariant
            n == s@.len(),
            start <= i,
            split_commas(s@.take(i as int)) == done.push(s@.subrange(start as int, i as int)),
            out@ == parsed_pieces(done),
    {
        let ghost pre = s@.take(i as int);
        proof {
            assert(s@.take(i + 1).drop_last() =~= pre);
            assert(s@.take(i + 1).last() == s@[i as int]);
        }
        if s.get_char(i) == ',' {
            let piece = s.substring_char(start, i);
            let v = parse_i32_str(trim_str(piece));
            proof {
                let d2 = done.push(s@.subrange(start as int, i as int));
                assert(d2.drop_last() =~= done);
            }
            match v {
                Some(x) => out.push(x),
                None => {},
            }
            proof {
                done = done.push(s@.subrange(start as int, i as int));
                assert(s@.subrange(i + 1, i + 1) =~= Seq::<char>::empty());
            }
            start = i + 1;
        } else {
            proof {
                assert(s@.subrange(start as int, i + 1) =~= s@.subrange(start as int, i as int).push(
                    s@[i as int],
                ));
                assert(done.push(s@.subrange(start as int, i as int)).update(
                    done.len() as int,
                    s@.subrange(start as int, i + 1),
                ) =~= done.push(s@.subrange(start as int, i + 1)));
            }
        }
    }
    let piece = s.substring_char(start, n);
    let v = parse_i32_str(trim_str(piece));
    proof {
        assert(s@.take(n as int) =~= s@);
        let d2 = done.push(s@.subrange(start as int, n as int));
        assert(d2.drop_last() =~= done);
    }
    match v {
        Some(x) => out.push(x),
        None => {},
    }
    out
}

/// What a line contributes to a test case, by its leading keyword.
pub open spec fn parse_line_spec(t: Testcase, line: Seq<char>, t2: Testcase) -> bool {
    let rest_of = |key: Seq<char>| remove_all(line, key);
    if "Cycle counts:"@.is_prefix_of(line) {
        t2 == Testcase { cycles: t2.cycles, ..t } && t2.cycles@ == line_values(
            rest_of("Cycle counts:"@),
        )
    } else if "Branch dir mis:"@.is_prefix_of(line) {
        t2 == Testcase { branch_dir_mis: t2.branch_dir_mis, ..t } && t2.branch_dir_mis@
            == line_values(rest_of("Branch dir mis:"@))
    } else if "Branch target mis:"@.is_prefix_of(line) {
        t2 == Testcase { branch_tar_mis: t2.branch_tar_mis, ..t } && t2.branch_tar_mis@
            == line_values(rest_of("Branch target mis:"@))
    } else if "Result:"@.is_prefix_of(line) {
        t2 == Testcase { result: t2.result, ..t } && t2.result@ == trimmed(rest_of("Result:"@))
    } else if "Expected result:"@.is_prefix_of(line) {
        t2 == Testcase { expected_result: t2.expected_result, correct: t2.correct, ..t }
            && t2.expected_result@ == trimmed(rest_of("Expected result:"@)) && t2.correct == (
        t.result@ == t2.expected_result@)
    } else {
        t2 == t
    }
}

/// Records one line of board output in the test case. Returns `true` when
/// the line was an expected result that differs from the recorded result.
pub fn parse_line(testcase: &mut Testcase, line: String) -> (mismatch: bool)
    ensures
        parse_line_spec(*old(testcase), line@, *final(testcase)),
        mismatch == ("Expected result:"@.is_prefix_of(line@) && !"Cycle counts:"@.is_prefix_of(
            line@,
        ) && !"Branch dir mis:"@.is_prefix_of(line@) && !"Branch target mis:"@.is_prefix_of(line@)
            && !"Result:"@.is_prefix_of(line@) && !final(testcase).correct),
{
    let s = line.as_str();
    if starts_with(s, "Cycle counts:") {
        proof {
            reveal_strlit("Cycle counts:");
        }
        let csline = remove_str(s, "Cycle counts:");
        testcase.cycles = line_to_vec(csline);
        false
    } else if starts_with(s, "Branch dir mis:") {
        proof {
            reveal_strlit("Branch dir mis:");
        }
        let csline = remove_str(s, "Branch dir mis:");
        testcase.branch_dir_mis = line_to_vec(csline);
        false
    } else if starts_with(s, "Branch target mis:") {
        proof {
            reveal_strlit("Branch target mis:");
        }
        let csline = remove_str(s, "Branch target mis:");
        testcase.branch_tar_mis = line_to_vec(csline);
        false
    } else if starts_with(s, "Result:") {
        proof {
            reveal_strlit("Result:");
        }
        let result = remove_str(s, "Result:");
        testcase.result = String::from_str(trim_str(result.as_str()));
        false
    } else if starts_with(s, "Expected result:") {
        proof {
            reveal_strlit("Expected result:");
        }
        let eresult = remove_str(s, "Expected result:");
        testcase.expected_result = String::from_str(trim_str(eresult.as_str()));
        testcase.correct = str_eq(testcase.result.as_str(), testcase.expected_result.as_str());
        !testcase.correct
    } else {
        false
    }
}

/// Splits a test case into one trial per cycle count.
pub fn testcase_to_trial(testcase: Testcase) -> (trials: Vec<Trial>)
    requires
        testcase.branch_dir_mis@.len() >= testcase.cycles@.len(),
        testcase.branch_tar_mis@.len() >= testcase.cycles@.len(),
    ensures
        trials@.len() == testcase.cycles@.len(),
        forall|i: int|
            0 <= i < trials@.len() ==> #[trigger] trials@[i] == (Trial {
                cycle: testcase.cycles@[i],
                branch_dir_mis: testcase.branch_dir_mis@[i],
                branch_tar_mis: testcase.branch_tar_mis@[i],
                run: testcase.run,
                id: i as i32,
                correct: testcase.correct,
            }),
{
    let mut trials: Vec<Trial> = Vec::new();
    for i in 0..testcase.cycles.len()
        invariant
            testcase.branch_dir_mis@.len() >= testcase.cycles@.len(),
            testcase.branch_tar_mis@.len() >= testcase.cycles@.len(),
            trials@.len() == i,
            forall|k: int|
                0 <= k < i ==> #[trigger] trials@[k] == (Trial {
                    cycle: testcase.cycles@[k],
                    branch_dir_mis: testcase.branch_dir_mis@[k],
                    branch_tar_mis: testcase.branch_tar_mis@[k],
                    run: testcase.run,
                    id: k as i32,
                    correct: testcase.correct,
                }),
    {
        let cycle = testcase.cycles[i];
        let branch_dir_mis = testcase.branch_dir_mis[i];
        let branch_tar_mis = testcase.branch_tar_mis[i];
        trials.push(
            Trial {
                cycle,
                branch_dir_mis,
                branch_tar_mis,
                run: testcase.run,
                id: #[verifier::truncate] (i as i32),
                correct: testcase.correct,
            },
        );
    }
    trials
}

/// The CSV row of a trial: `run, id, cycles, dir, target, TRUE|FALSE` and a
/// line break.
pub open spec fn trial_row(t: Trial) -> Seq<char> {
    signed_decimal(t.run as int) + ", "@ + signed_decimal(t.id as int) + ", "@ + signed_decimal(
        t.cycle as int,
    ) + ", "@ + signed_decimal(t.branch_dir_mis as int) + ", "@ + signed_decimal(
        t.branch_tar_mis as int,
    ) + ", "@ + (if t.correct {
        "TRUE\n"@
    } else {
        "FALSE\n"@
    })
}

impl Trial {
    /// The CSV row of this trial.
    pub fn to_row(&self) -> (r: String)
        ensures
            r@ == trial_row(*self),
    {
        let mut s = String::new();
        push_i32(&mut s, self.run);
        s.append(", ");
        push_i32(&mut s, self.id);
        s.append(", ");
        push_i32(&mut s, self.cycle);
        s.append(", ");
        push_i32(&mut s, self.branch_dir_mis);
        s.append(", ");
        push_i32(&mut s, self.branch_tar_mis);
        s.append(", ");
        if self.correct {
            s.append("TRUE\n");
        } else {
            s.append("FALSE\n");
        }
        s
    }
}

/// The running state of the output parser: the test case being gathered and
/// the number of test cases already emitted.
pub struct OutputParser {
    pub testcase: Testcase,
    pub run_counter: i32,
}

/// A test case with nothing gathered yet, as `Testcase::new` makes it.
pub open spec fn empty_testcase(t: Testcase) -> bool {
    &&& t.cycles@.len() == 0
    &&& t.branch_dir_mis@.len() == 0
    &&& t.branch_tar_mis@.len() == 0
    &&& !t.correct
    &&& t.result@.len() == 0
    &&& t.expected_result@.len() == 0
    &&& t.run == 0
}

/// The line closes a test case.
pub open spec fn closes_testcase(line: Seq<char>) -> bool {
    "Expected result:"@.is_prefix_of(line)
}

/// The trials that a closing line emits for the gathered test case.
pub open spec fn emitted_trial(t: Testcase, run: i32, line: Seq<char>, i: int) -> Trial {
    Trial {
        cycle: t.cycles@[i],
        branch_dir_mis: t.branch_dir_mis@[i],
        branch_tar_mis: t.branch_tar_mis@[i],
        run: run,
        id: i as i32,
        correct: t.result@ == trimmed(remove_all(line, "Expected result:"@)),
    }
}

/// A closing line starts with none of the other keywords.
proof fn lemma_closing_keyword(line: Seq<char>)
    requires
        closes_testcase(line),
    ensures
        !"Cycle counts:"@.is_prefix_of(line),
        !"Branch dir mis:"@.is_prefix_of(line),
        !"Branch target mis:"@.is_prefix_of(line),
        !"Result:"@.is_prefix_of(line),
{
    reveal_strlit("Expected result:");
    reveal_strlit("Cycle counts:");
    reveal_strlit("Branch dir mis:");
    reveal_strlit("Branch target mis:");
    reveal_strlit("Result:");
    assert(line[0] == "Expected result:"@[0]);
    assert(line[0] == 'E');
}

impl OutputParser {
    pub fn new() -> (p: OutputParser)
        ensures
            p.run_counter == 0,
            empty_testcase(p.testcase),
    {
        OutputParser { testcase: Testcase::new(), run_counter: 0 }
    }

    /// Whether `feed_line` can take this line: a closing line needs a
    /// branch count for every cycle count and room in the run counter.
    pub open spec fn can_take(&self, line: Seq<char>) -> bool {
        closes_testcase(line) ==> {
            &&& self.testcase.branch_dir_mis@.len() >= self.testcase.cycles@.len()
            &&& self.testcase.branch_tar_mis@.len() >= self.testcase.cycles@.len()
            &&& self.run_counter < i32::MAX
        }
    }

    /// Tests `can_take`.
    pub fn ready_for(&self, line: &String) -> (r: bool)
        ensures
            r == self.can_take(line@),
    {
        proof {
            reveal_strlit("Expected result:");
        }
        !starts_with(line.as_str(), "Expected result:") || (self.testcase.branch_dir_mis.len()
            >= self.testcase.cycles.len() && self.testcase.branch_tar_mis.len()
            >= self.testcase.cycles.len() && self.run_counter < i32::MAX)
    }

    /// Takes one line of board output. A closing line ("Expected result:")
    /// emits the gathered test case as trials numbered by the run counter
    /// and starts a new test case. The flag reports an expected result that
    /// differs from the gathered result.
    pub fn feed_line(&mut self, line: String) -> (r: (bool, Option<Vec<Trial>>))
        requires
            old(self).can_take(line@),
        ensures
            !closes_testcase(line@) ==> {
                &&& parse_line_spec(old(self).testcase, line@, final(self).testcase)
                &&& final(self).run_counter == old(self).run_counter
                &&& r.1 is None
                &&& !r.0
            },
            closes_testcase(line@) ==> {
                &&& final(self).run_counter == old(self).run_counter + 1
                &&& empty_testcase(final(self).testcase)
                &&& r.1 is Some
                &&& r.1->Some_0@.len() == old(self).testcase.cycles@.len()
                &&& forall|i: int|
                    0 <= i < old(self).testcase.cycles@.len() ==> #[trigger] r.1->Some_0@[i]
                        == emitted_trial(old(self).testcase, old(self).run_counter, line@, i)
                &&& r.0 == (old(self).testcase.result@ != trimmed(
                    remove_all(line@, "Expected result:"@),
                ))
            },
    {
        proof {
            reveal_strlit("Expected result:");
            reveal_strlit("Cycle counts:");
            reveal_strlit("Branch dir mis:");
            reveal_strlit("Branch target mis:");
            reveal_strlit("Result:");
        }
        let closes = starts_with(line.as_str(), "Expected result:");
        let ghost l = line@;
        proof {
            if closes {
                lemma_closing_keyword(line@);
            }
        }
        let mismatch = parse_line(&mut self.testcase, line);
        if closes {
            let mut finished = Testcase::new();
            std::mem::swap(&mut finished, &mut self.testcase);
            finished.run = self.run_counter;
            let trials = testcase_to_trial(finished);
            self.run_counter = self.run_counter + 1;
            (mismatch, Some(trials))
        } else {
            (mismatch, None)
        }
    }
}

/// Digits after spaces trim to the digits.
proof fn lemma_trim_spaces_digits(m: nat, d: Seq<char>)
    requires
        d.len() >= 1,
        forall|i: int| 0 <= i < d.len() ==> is_digit(#[trigger] d[i]),
    ensures
        trimmed(spaces(m) + d) == d,
{
    let s = spaces(m) + d;
    assert forall|k: int| 0 <= k < m implies is_ws(#[trigger] s[k]) by {
        assert(s[k] == ' ');
    }
    lemma_trim_start_skip(s, m as int);
    assert(s.skip(m as int) =~= d);
    assert(!is_ws(d[0]));
    assert(trim_start(d) == d);
    assert(!is_ws(d.last()));
    assert(trim_end(d) == d);
}

/// Spaces trim to nothing.
proof fn lemma_trim_spaces(m: nat)
    ensures
        trimmed(spaces(m)) == Seq::<char>::empty(),
{
    let s = spaces(m);
    assert forall|k: int| 0 <= k < m implies is_ws(#[trigger] s[k]) by {}
    lemma_trim_start_skip(s, m as int);
    assert(s.skip(m as int) =~= Seq::<char>::empty());
}

proof fn lemma_digits_value_decimal(v: nat)
    ensures
        digits_value(decimal(v)) == v,
    decreases v,
{
    let d = decimal(v);
    let r = (v % 10) as int;
    assert(hex_char(r) as int == 48 + r);
    if v >= 10 {
        lemma_digits_value_decimal(v / 10);
        assert(d.drop_last() =~= decimal(v / 10));
        assert(d.last() == hex_char(r));
        vstd::arithmetic::div_mod::lemma_fundamental_div_mod(v as int, 10);
        assert(digits_value(d) == digits_value(d.drop_last()) * 10 + (d.last() as int - 48));
        assert(digits_value(d) == (v / 10) * 10 + r);
    } else {
        assert(d.drop_last() =~= Seq::<char>::empty());
        assert(d.last() == hex_char(v as int));
        assert(r == v);
        assert(digits_value(d) == digits_value(d.drop_last()) * 10 + (d.last() as int - 48));
        assert(digits_value(d.drop_last()) == 0);
    }
}

proof fn lemma_parse_decimal(v: nat)
    requires
        v <= i32::MAX,
    ensures
        parse_i32(decimal(v)) == Some(v as i32),
{
    lemma_decimal_digits(v);
    lemma_digits_value_decimal(v);
    let d = decimal(v);
    assert(is_digit(d[0]));
    assert(unsigned_part(d) == d);
}

/// Appending text without commas extends the last piece.
proof fn lemma_split_append_chunk(s: Seq<char>, c: Seq<char>)
    requires
        forall|i: int| 0 <= i < c.len() ==> #[trigger] c[i] != ',',
    ensures
        split_commas(s + c) == split_commas(s).update(
            split_commas(s).len() - 1,
            split_commas(s).last() + c,
        ),
    decreases c.len(),
{
    lemma_split_commas_len(s);
    if c.len() == 0 {
        assert(s + c =~= s);
        assert(split_commas(s).last() + c =~= split_commas(s).last());
        assert(split_commas(s).update(split_commas(s).len() - 1, split_commas(s).last()) =~= split_commas(s));
    } else {
        let c0 = c.drop_last();
        lemma_split_append_chunk(s, c0);
        assert((s + c).drop_last() =~= s + c0);
        assert((s + c).last() == c.last());
        let prev = split_commas(s + c0);
        assert(prev.last() == split_commas(s).last() + c0);
        assert((split_commas(s).last() + c0).push(c.last()) =~= split_commas(s).last() + c);
        assert(prev.update(prev.len() - 1, prev.last().push(c.last())) =~= split_commas(s).update(
            split_commas(s).len() - 1,
            split_commas(s).last() + c,
        ));
    }
}

/// The pieces of the padding and the counters: the values printed so far
/// (all pieces but the last) and a last piece of spaces only.
proof fn lemma_counter_pieces(k: nat, vs: Seq<nat>)
    requires
        forall|i: int| 0 <= i < vs.len() ==> #[trigger] vs[i] <= i32::MAX,
    ensures
        split_commas(spaces(k) + printed_counters(vs)).len() >= 1,
        parsed_pieces(split_commas(spaces(k) + printed_counters(vs)).drop_last()) == vs.map_values(
            |v: nat| v as i32,
        ),
        split_commas(spaces(k) + printed_counters(vs)).last() == (if vs.len() == 0 {
            spaces(k)
        } else {
            spaces(1)
        }),
    decreases vs.len(),
{
    let s = spaces(k) + printed_counters(vs);
    if vs.len() == 0 {
        assert(s =~= Seq::<char>::empty() + spaces(k));
        assert forall|i: int| 0 <= i < spaces(k).len() implies #[trigger] spaces(k)[i] != ',' by {}
        lemma_split_append_chunk(Seq::<char>::empty(), spaces(k));
        assert(split_commas(Seq::<char>::empty()) =~= seq![Seq::<char>::empty()]);
        assert(Seq::<char>::empty() + spaces(k) =~= spaces(k));
        assert(split_commas(s) =~= seq![spaces(k)]);
        assert(split_commas(s).drop_last() =~= Seq::<Seq<char>>::empty());
        assert(vs.map_values(|v: nat| v as i32) =~= Seq::<i32>::empty());
    } else {
        let prev = vs.drop_last();
        let v = vs.last();
        assert forall|i: int| 0 <= i < prev.len() implies #[trigger] prev[i] <= i32::MAX by {
            assert(prev[i] == vs[i]);
        }
        lemma_counter_pieces(k, prev);
        let t = spaces(k) + printed_counters(prev);
        let d = decimal(v);
        lemma_decimal_digits(v);
        let p = pad6(d);
        assert forall|i: int| 0 <= i < p.len() implies #[trigger] p[i] != ',' by {
            if d.len() < 6 {
                if i >= 6 - d.len() {
                    assert(p[i] == d[i - (6 - d.len())]);
                }
            }
        }
        lemma_split_commas_len(t);
        let st = split_commas(t);
        lemma_split_append_chunk(t, p);
        let s1 = t + p;
        let s2 = s1.push(',');
        let sp1 = split_commas(s1);
        assert(s2.drop_last() =~= s1);
        assert(split_commas(s2) == sp1.push(Seq::<char>::empty()));
        assert forall|i: int| 0 <= i < spaces(1).len() implies #[trigger] spaces(1)[i] != ',' by {}
        lemma_split_append_chunk(s2, spaces(1));
        assert(s =~= s2 + spaces(1));
        assert(Seq::<char>::empty() + spaces(1) =~= spaces(1));
        let sp = split_commas(s);
        assert(sp =~= sp1.push(spaces(1)));
        let last_t = st.last();
        let piece = last_t + p;
        assert(sp1 == st.update(st.len() - 1, piece));
        assert(sp.drop_last() =~= st.drop_last().push(piece));
        // the piece holding the new value trims to its digits
        let m: nat = if prev.len() == 0 { k } else { 1 };
        assert(last_t == spaces(m));
        let padn: nat = if d.len() < 6 { (6 - d.len()) as nat } else { 0 };
        assert(piece =~= spaces(m + padn) + d) by {
            if d.len() < 6 {
                assert(p == spaces(padn) + d);
            } else {
                assert(p == d);
            }
        }
        lemma_trim_spaces_digits(m + padn, d);
        lemma_parse_decimal(v);
        assert(sp.drop_last().drop_last() =~= st.drop_last());
        assert(sp.drop_last().last() == piece);
        assert(vs.map_values(|x: nat| x as i32) =~= prev.map_values(|x: nat| x as i32).push(v as i32));
    }
}

/// `pat` is never found in text without its first character.
proof fn lemma_remove_absent(s: Seq<char>, pat: Seq<char>)
    requires
        pat.len() > 0,
        forall|i: int| 0 <= i < s.len() ==> #[trigger] s[i] != pat[0],
    ensures
        remove_all(s, pat) == s,
    decreases s.len(),
{
    if s.len() >= pat.len() {
        assert(!pat.is_prefix_of(s)) by {
            assert(s[0] != pat[0]);
        }
        assert forall|i: int| 0 <= i < s.drop_first().len() implies #[trigger] s.drop_first()[i] != pat[0] by {
            assert(s.drop_first()[i] == s[i + 1]);
        }
        lemma_remove_absent(s.drop_first(), pat);
        assert(seq![s[0]] + s.drop_first() =~= s);
    }
}

/// The Parsing tool reads back the cycle counts that the board prints: on
/// the line `Cycle counts:`, the harness's padding and what `printcounters`
/// prints for the counter differences `vs` (each below 2^31), the numbers
/// that `parse_line` records as cycle counts are `vs`.
pub proof fn lemma_cycle_line_parsed(pad: nat, vs: Seq<nat>)
    requires
        forall|i: int| 0 <= i < vs.len() ==> #[trigger] vs[i] <= i32::MAX,
    ensures
        line_values(remove_all("Cycle counts:"@ + spaces(pad) + printed_counters(vs), "Cycle counts:"@))
            == vs.map_values(|v: nat| v as i32),
{
    reveal_strlit("Cycle counts:");
    let key = "Cycle counts:"@;
    let x = spaces(pad) + printed_counters(vs);
    let line = key + x;
    assert(line =~= key + spaces(pad) + printed_counters(vs));
    assert(key.is_prefix_of(line)) by {
        assert(line.subrange(0, key.len() as int) =~= key);
    }
    assert(line.skip(key.len() as int) =~= x);
    assert(remove_all(line, key) == remove_all(x, key));
    assert forall|i: int| 0 <= i < x.len() implies #[trigger] x[i] != key[0] by {
        lemma_counters_chars(vs);
        if i >= pad {
            assert(x[i] == printed_counters(vs)[i - pad]);
        }
    }
    lemma_remove_absent(x, key);
    lemma_counter_pieces(pad, vs);
    let sp = split_commas(x);
    lemma_trim_spaces(if vs.len() == 0 { pad } else { 1 });
    assert(parse_i32(trimmed(sp.last())) is None);
    assert(sp.drop_last().push(sp.last()) =~= sp);
}

/// The counters line holds only spaces, digits and commas.
proof fn lemma_counters_chars(vs: Seq<nat>)
    ensures
        forall|i: int|
            0 <= i < printed_counters(vs).len() ==> #[trigger] printed_counters(vs)[i] == ' ' || is_digit(
                printed_counters(vs)[i],
            ) || printed_counters(vs)[i] == ',',
    decreases vs.len(),
{
    if vs.len() > 0 {
        lemma_counters_chars(vs.drop_last());
        lemma_decimal_digits(vs.last());
        let d = decimal(vs.last());
        let p = pad6(d);
        let q = printed_counters(vs.drop_last());
        assert forall|i: int| 0 <= i < printed_counters(vs).len() implies #[trigger] printed_counters(vs)[i]
            == ' ' || is_digit(printed_counters(vs)[i]) || printed_counters(vs)[i] == ',' by {
            if i < q.len() {
                assert(printed_counters(vs)[i] == q[i]);
            } else if i < q.len() + p.len() {
                assert(printed_counters(vs)[i] == p[i - q.len()]);
                if d.len() < 6 && i - q.len() >= 6 - d.len() {
                    assert(p[i - q.len()] == d[i - q.len() - (6 - d.len())]);
                } else if d.len() >= 6 {
                    assert(p == d);
                }
            }
        }
    }
}

} // verus!