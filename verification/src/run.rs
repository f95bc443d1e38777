//! The decisions of a test run: for each test case, up to `attempts`
//! tries of building, uploading and waiting for the board's answer; a test
//! case that gets no answer in that many tries is skipped and the run goes
//! on with the next one. The driver performs each action and reports its
//! outcome as an event.

use vstd::prelude::*;

verus! {

/// What the driver does next.
#[derive(Debug, PartialEq, Eq, Structural)]
pub enum RunAction {
    /// Draw a test case and write its harness.
    Generate,
    /// Build and upload the harness, then reset the board.
    RunMake,
    /// Wait for the board's result, at most the generator's timeout.
    AwaitResult,
    /// Stop: the board's result was wrong.
    Incorrect,
    /// Every test case passed.
    Finished,
}

/// The outcome of the last action.
#[derive(Debug, PartialEq, Eq, Structural)]
pub enum RunEvent {
    Generated,
    MakeFailed,
    MakeSucceeded,
    ResultCorrect,
    ResultIncorrect,
    TimedOut,
}

/// Where a run stands: test case `test` of `tests`, attempt `attempt` of
/// `attempts`.
#[derive(Debug, Clone, Copy, PartialEq, Eq, Structural)]
pub struct RunState {
    pub tests: u64,
    pub attempts: i64,
    pub test: u64,
    pub attempt: i64,
}

/// A run in progress: a test case under way and an attempt that has not
/// yet run past the allowed ones.
pub open spec fn running(s: RunState) -> bool {
    s.test < s.tests && 0 <= s.attempt && (s.attempt < s.attempts || s.attempt == 0)
}

/// The next test case, or the end of the run.
pub open spec fn next_test(s: RunState) -> (RunState, RunAction) {
    let t = RunState { test: (s.test + 1) as u64, attempt: 0, ..s };
    if s.test + 1 >= s.tests {
        (t, RunAction::Finished)
    } else {
        (t, RunAction::Generate)
    }
}

/// The start of attempt `s.attempt`: within the allowed attempts it builds
/// and uploads; once they are used up the test case is skipped.
pub open spec fn try_attempt(s: RunState) -> (RunState, RunAction) {
    if s.attempt >= s.attempts {
        next_test(s)
    } else {
        (s, RunAction::RunMake)
    }
}

/// The decision after an event.
pub open spec fn run_step(s: RunState, e: RunEvent) -> (RunState, RunAction) {
    match e {
        RunEvent::Generated => try_attempt(RunState { attempt: 0, ..s }),
        RunEvent::MakeFailed => try_attempt(RunState { attempt: (s.attempt + 1) as i64, ..s }),
        RunEvent::MakeSucceeded => (s, RunAction::AwaitResult),
        RunEvent::ResultCorrect => next_test(s),
        RunEvent::ResultIncorrect => (s, RunAction::Incorrect),
        RunEvent::TimedOut => try_attempt(RunState { attempt: (s.attempt + 1) as i64, ..s }),
    }
}

fn next_test_exec(s: RunState) -> (r: (RunState, RunAction))
    requires
        s.test < s.tests,
    ensures
        r == next_test(s),
{
    let t = RunState { test: s.test + 1, attempt: 0, ..s };
    if s.test + 1 >= s.tests {
        (t, RunAction::Finished)
    } else {
        (t, RunAction::Generate)
    }
}

fn try_attempt_exec(s: RunState) -> (r: (RunState, RunAction))
    requires
        s.test < s.tests,
    ensures
        r == try_attempt(s),
{
    if s.attempt >= s.attempts {
        next_test_exec(s)
    } else {
        (s, RunAction::RunMake)
    }
}

impl RunState {
    /// The first decision of a run of `tests` test cases.
    pub fn start(tests: u64, attempts: i64) -> (r: (RunState, RunAction))
        ensures
            r.0 == (RunState { tests, attempts, test: 0, attempt: 0 }),
            r.1 == (if tests == 0 { RunAction::Finished } else { RunAction::Generate }),
    {
        let s = RunState { tests, attempts, test: 0, attempt: 0 };
        if tests == 0 {
            (s, RunAction::Finished)
        } else {
            (s, RunAction::Generate)
        }
    }

    /// The decision after `event`.
    pub fn step(&self, event: RunEvent) -> (r: (RunState, RunAction))
        requires
            running(*self),
        ensures
            r == run_step(*self, event),
    {
        let s = *self;
        match event {
            RunEvent::Generated => try_attempt_exec(RunState { attempt: 0, ..s }),
            RunEvent::MakeFailed => try_attempt_exec(RunState { attempt: s.attempt + 1, ..s }),
            RunEvent::MakeSucceeded => (s, RunAction::AwaitResult),
            RunEvent::ResultCorrect => next_test_exec(s),
            RunEvent::ResultIncorrect => (s, RunAction::Incorrect),
            RunEvent::TimedOut => try_attempt_exec(RunState { attempt: s.attempt + 1, ..s }),
        }
    }
}

/// A run stays in progress for as long as it asks for more work: after any
/// event, an action other than the two that end the run leaves it running.
pub proof fn lemma_step_keeps_running(s: RunState, e: RunEvent)
    requires
        running(s),
    ensures
        ({
            let (t, a) = run_step(s, e);
            a != RunAction::Incorrect && a != RunAction::Finished ==> running(t)
        }),
{
}

/// A failed build or a missing answer uses up an attempt: while attempts
/// remain the same test case builds again, and once all `attempts` are used
/// up it is skipped and the run goes on with the next test case (or ends
/// after the last one). A test case thus runs the build at most `attempts`
/// times.
pub proof fn lemma_failures_use_attempts(s: RunState, e: RunEvent)
    requires
        running(s),
        e == RunEvent::MakeFailed || e == RunEvent::TimedOut,
    ensures
        ({
            let (t, a) = run_step(s, e);
            if s.attempt + 1 < s.attempts {
                t.test == s.test && t.attempt == s.attempt + 1 && a == RunAction::RunMake
            } else {
                t.test == s.test + 1 && t.attempt == 0 && (a == RunAction::Generate || a == RunAction::Finished)
            }
        }),
{
}

/// Every build runs within the allowed attempts.
pub proof fn lemma_builds_within_attempts(s: RunState, e: RunEvent)
    requires
        running(s),
    ensures
        ({
            let (t, a) = run_step(s, e);
            a == RunAction::RunMake ==> 0 <= t.attempt < t.attempts
        }),
{
}

/// Each event moves the run forward: the test case index never goes back,
/// and within a test case the attempt never goes back.
pub proof fn lemma_step_monotone(s: RunState, e: RunEvent)
    requires
        running(s),
    ensures
        ({
            let (t, a) = run_step(s, e);
            t.tests == s.tests && t.attempts == s.attempts && s.test <= t.test && (t.test == s.test ==> (
            e == RunEvent::Generated || s.attempt <= t.attempt))
        }),
{
}

} // verus!
