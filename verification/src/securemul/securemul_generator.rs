//! Inputs for timing the board's `securemul226`.

use vstd::prelude::*;
use crate::primitives::random_below;
use crate::format::{decimal, push_decimal, string_views};
use crate::benchmark::{securemul_harness_source, securemul_harness_text, lemma_securemul_harness_multiplies};
use crate::text::contains_pat;

verus! {

/// The declarations of one multiplication benchmark and the product the
/// board should print.
#[derive(Debug)]
pub struct TestcaseSecuremul {
    pub variables: Vec<String>,
    pub expected_result: u64,
}

/// Each operand is drawn below this bound; the bound is `2^26-1`
/// evaluated as Rust does, `2 ^ 25` (exclusive or), that is 27.
pub const OPERAND_BOUND: u64 = 27;

/// `static unsigned int <name> = <value>;`
pub open spec fn operand_declaration(name: Seq<char>, value: nat) -> Seq<char> {
    "static unsigned int "@ + name + " = "@ + decimal(value) + ";"@
}

/// Renders `static unsigned int <name> = <value>;`.
fn operand_line(name: &str, value: u64) -> (r: String)
    ensures
        r@ == operand_declaration(name@, value as nat),
{
    let mut v = String::from_str("static unsigned int ");
    v.append(name);
    v.append(" = ");
    push_decimal(&mut v, value);
    v.append(";");
    v
}

/// The declarations of operands `a` and `b`.
pub open spec fn securemul_variables(a: nat, b: nat) -> Seq<Seq<char>> {
    seq![operand_declaration("a"@, a), operand_declaration("b"@, b)]
}

/// The multiplication benchmark multiplies its own operands: its harness
/// declares `a` with the value `a` and `b` with the value `b`, times
/// `securemul226(a,b)` and prints the product of the same call.
pub proof fn lemma_securemul_benchmark_multiplies(a: nat, b: nat)
    ensures
        contains_pat(securemul_harness_text(securemul_variables(a, b)), "static unsigned int "@ + "a"@ + " = "@ + decimal(a) + ";"@),
        contains_pat(securemul_harness_text(securemul_variables(a, b)), "static unsigned int "@ + "b"@ + " = "@ + decimal(b) + ";"@),
        contains_pat(securemul_harness_text(securemul_variables(a, b)), "timings[i]=getcycles();\n            securemul226(a,b);"@),
        contains_pat(securemul_harness_text(securemul_variables(a, b)), "uint64_t output = securemul226(a,b);"@),
{
    let vs = securemul_variables(a, b);
    lemma_securemul_harness_multiplies(vs);
    assert(vs[0] == "static unsigned int "@ + "a"@ + " = "@ + decimal(a) + ";"@);
    assert(vs[1] == "static unsigned int "@ + "b"@ + " = "@ + decimal(b) + ";"@);
}

/// The benchmark for two operands, the product it should print, and its harness.
pub fn testcase_from(a: u64, b: u64) -> (r: (TestcaseSecuremul, String))
    requires
        a < OPERAND_BOUND,
        b < OPERAND_BOUND,
    ensures
        string_views(r.0.variables@) == securemul_variables(a as nat, b as nat),
        r.0.expected_result == a * b,
        r.1@ == securemul_harness_text(securemul_variables(a as nat, b as nat)),
{
    let mut variables: Vec<String> = Vec::new();
    variables.push(operand_line("a", a));
    variables.push(operand_line("b", b));
    proof {
        assert(string_views(variables@) =~= securemul_variables(a as nat, b as nat));
    }
    let source = securemul_harness_source(&variables);
    assert(a * b < 729) by (nonlinear_arith)
        requires
            a < 27,
            b < 27,
    ;
    (TestcaseSecuremul { variables, expected_result: a * b }, source)
}

/// Draws two operands below the bound and builds their benchmark.
pub fn generate_testcase() -> (r: (TestcaseSecuremul, String))
    ensures
        exists|a: nat, b: nat|
            a < OPERAND_BOUND && b < OPERAND_BOUND && string_views(r.0.variables@)
                == #[trigger] securemul_variables(a, b) && r.0.expected_result == a * b && r.1@
                == securemul_harness_text(securemul_variables(a, b)),
{
    let a = random_below(OPERAND_BOUND);
    let b = random_below(OPERAND_BOUND);
    testcase_from(a, b)
}

} // verus!
