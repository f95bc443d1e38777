use testframework::parsing::{line_to_vec, parse_line, testcase_to_trial, OutputParser, Testcase, Trial};

#[test]
fn line_to_vec_skips_non_numbers() {
    assert_eq!(line_to_vec(String::from("   12,    345,  x, -6, ")), vec![12, 345, -6]);
    assert_eq!(line_to_vec(String::from("")), Vec::<i32>::new());
    assert_eq!(line_to_vec(String::from("99999999999, 1")), vec![1]);
}

#[test]
fn parse_line_records_by_keyword() {
    let mut t = Testcase::new();
    assert!(!parse_line(&mut t, String::from("Cycle counts:   10,  11, ")));
    assert!(!parse_line(&mut t, String::from("Branch dir mis:  1, 2, ")));
    assert!(!parse_line(&mut t, String::from("Branch target mis:  3, 4, ")));
    assert!(!parse_line(&mut t, String::from("Result:  abc ")));
    assert!(!parse_line(&mut t, String::from("noise")));
    assert_eq!(t.cycles, vec![10, 11]);
    assert_eq!(t.branch_dir_mis, vec![1, 2]);
    assert_eq!(t.branch_tar_mis, vec![3, 4]);
    assert_eq!(t.result, "abc");
    assert!(!parse_line(&mut t, String::from("Expected result: abc")));
    assert!(t.correct);
    assert!(parse_line(&mut t, String::from("Expected result: abd")));
    assert!(!t.correct);
}

#[test]
fn trials_and_rows() {
    let mut t = Testcase::new();
    t.cycles = vec![100, 200];
    t.branch_dir_mis = vec![1, 2];
    t.branch_tar_mis = vec![3, 4];
    t.correct = true;
    t.run = 7;
    let trials = testcase_to_trial(t);
    assert_eq!(trials.len(), 2);
    assert_eq!(trials[1].id, 1);
    assert_eq!(trials[1].cycle, 200);
    assert_eq!(trials[0].to_row(), "7, 0, 100, 1, 3, TRUE\n");
    let f = Trial { cycle: -1, branch_dir_mis: 0, branch_tar_mis: 0, correct: false, run: 0, id: 2 };
    assert_eq!(f.to_row(), "0, 2, -1, 0, 0, FALSE\n");
}

#[test]
fn output_parser_numbers_runs() {
    let mut p = OutputParser::new();
    for line in ["Cycle counts: 5, 6, ", "Branch dir mis: 0, 0, ", "Branch target mis: 1, 1, ", "Result: x"] {
        let l = String::from(line);
        assert!(p.ready_for(&l));
        assert!(p.feed_line(l).1.is_none());
    }
    let (mismatch, trials) = p.feed_line(String::from("Expected result: x"));
    assert!(!mismatch);
    let trials = trials.unwrap();
    assert_eq!(trials.len(), 2);
    assert_eq!(trials[0].run, 0);
    assert!(trials[0].correct);
    assert_eq!(p.run_counter, 1);
    let (mismatch, trials) = p.feed_line(String::from("Expected result: y"));
    assert!(mismatch);
    assert_eq!(trials.unwrap().len(), 0);
    assert_eq!(p.run_counter, 2);
}

#[test]
fn output_parser_refuses_missing_branch_counts() {
    let mut p = OutputParser::new();
    p.feed_line(String::from("Cycle counts: 5, 6, "));
    assert!(!p.ready_for(&String::from("Expected result: x")));
    assert!(p.ready_for(&String::from("Result: x")));
}

#[test]
fn parse_line_reads_back_printed_counters() {
    let mut t = Testcase::new();
    let line = format!("Cycle counts:          {:6}, {:6}, {:6}, ", 7u32, 4500u32, 12345678u32);
    parse_line(&mut t, line);
    assert_eq!(t.cycles, vec![7, 4500, 12345678]);
}

#[test]
fn output_parser_starts_each_testcase_empty() {
    let mut p = OutputParser::new();
    p.feed_line(String::from("Result: abc"));
    p.feed_line(String::from("Expected result: abc"));
    assert!(p.testcase.result.is_empty());
    assert!(!p.testcase.correct);
    assert_eq!(p.testcase.run, 0);
    // a block without a result line compares with an empty result
    let (mismatch, _) = p.feed_line(String::from("Expected result: abc"));
    assert!(mismatch);
    let (mismatch, _) = p.feed_line(String::from("Expected result:   "));
    assert!(!mismatch);
}
