//! The interface that every test generator offers to the test driver.

use vstd::prelude::*;
use crate::functions_and_testcases::TestcaseEnum;

verus! {

/// A source of test cases for one function of the board's library.
pub trait Generator {
    /// The name under which results are filed.
    fn get_generator_name(&self) -> String;

    /// A fresh test case and the benchmark harness that runs its inputs
    /// `runs + 1` times on the board; `None` where the reference
    /// implementation refused the drawn inputs.
    fn generate_testcase(&self, runs: u64) -> Option<(TestcaseEnum, String)>
        requires
            runs < u64::MAX,
    ;

    /// How many seconds to wait for the board's answer.
    fn get_timeout(&self) -> u64;

    /// The number of result bytes the board prints.
    fn get_outputlen(&self) -> usize;
}

} // verus!
