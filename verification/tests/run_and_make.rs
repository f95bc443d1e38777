use testframework::make::{check_for_keyword, vecu8_to_string, KeywordError};
use testframework::run::{RunAction, RunEvent, RunState};

#[test]
fn keyword_found_in_output() {
    let out = b"riscv64-unknown-elf-objcopy -O ihex program.elf program.hex\n".to_vec();
    assert_eq!(check_for_keyword(out, "riscv64-unknown-elf-objcopy -O ihex program.elf program.hex"), Ok(()));
}

#[test]
fn keyword_missing_or_output_not_utf8() {
    assert_eq!(check_for_keyword(b"make: *** Error 1".to_vec(), "O.K."), Err(KeywordError::KeywordMissing));
    assert_eq!(check_for_keyword(vec![0xff, 0xfe], "O.K."), Err(KeywordError::NotUtf8));
    assert_eq!(vecu8_to_string(vec![0xc3, 0xa9]).unwrap(), "é");
    assert_eq!(vecu8_to_string(vec![0xc3]), Err(KeywordError::NotUtf8));
}

#[test]
fn run_passes_every_testcase() {
    let (s, a) = RunState::start(2, 4);
    assert_eq!(a, RunAction::Generate);
    let (s, a) = s.step(RunEvent::Generated);
    assert_eq!(a, RunAction::RunMake);
    let (s, a) = s.step(RunEvent::MakeSucceeded);
    assert_eq!(a, RunAction::AwaitResult);
    let (s, a) = s.step(RunEvent::ResultCorrect);
    assert_eq!(a, RunAction::Generate);
    assert_eq!(s.test, 1);
    let (s, a) = s.step(RunEvent::Generated);
    let (s, a2) = s.step(RunEvent::MakeSucceeded);
    assert_eq!((a, a2), (RunAction::RunMake, RunAction::AwaitResult));
    let (s, a) = s.step(RunEvent::ResultCorrect);
    assert_eq!(a, RunAction::Finished);
    assert_eq!(s.test, 2);
}

#[test]
fn run_skips_a_test_after_its_attempts() {
    let (s, _) = RunState::start(2, 3);
    let (s, a) = s.step(RunEvent::Generated);
    assert_eq!(a, RunAction::RunMake);
    let (s, a) = s.step(RunEvent::MakeFailed);
    assert_eq!(a, RunAction::RunMake);
    assert_eq!(s.attempt, 1);
    let (s, a) = s.step(RunEvent::MakeSucceeded);
    assert_eq!(a, RunAction::AwaitResult);
    let (s, a) = s.step(RunEvent::TimedOut);
    assert_eq!(a, RunAction::RunMake);
    assert_eq!(s.attempt, 2);
    // the third failure uses up the attempts: the test is skipped
    let (s, a) = s.step(RunEvent::MakeFailed);
    assert_eq!(a, RunAction::Generate);
    assert_eq!((s.test, s.attempt), (1, 0));
    let (s, _) = s.step(RunEvent::Generated);
    let (s, _) = s.step(RunEvent::MakeFailed);
    let (s, _) = s.step(RunEvent::MakeFailed);
    let (_, a) = s.step(RunEvent::MakeFailed);
    assert_eq!(a, RunAction::Finished);
}

#[test]
fn upload_confirmation_line() {
    assert!(testframework::make::upload_confirmed("O.K."));
    assert!(!testframework::make::upload_confirmed("O.K. "));
    assert!(!testframework::make::upload_confirmed("Programming"));
}

#[test]
fn run_stops_on_a_wrong_result_and_handles_edge_counts() {
    let (s, _) = RunState::start(3, 5);
    let (s, _) = s.step(RunEvent::Generated);
    let (s, _) = s.step(RunEvent::MakeSucceeded);
    let (_, a) = s.step(RunEvent::ResultIncorrect);
    assert_eq!(a, RunAction::Incorrect);
    assert_eq!(RunState::start(0, 5).1, RunAction::Finished);
    // a single allowed attempt: one build, then the test is skipped
    let (s, _) = RunState::start(1, 1);
    let (s, a) = s.step(RunEvent::Generated);
    assert_eq!(a, RunAction::RunMake);
    assert_eq!(s.step(RunEvent::MakeFailed).1, RunAction::Finished);
    // no attempts at all skip every test case
    let (s, _) = RunState::start(2, 0);
    let (s, a) = s.step(RunEvent::Generated);
    assert_eq!(a, RunAction::Generate);
    assert_eq!(s.step(RunEvent::Generated).1, RunAction::Finished);
}
