use testframework::karatsuba::reader::{KaratsubaStep, Reader as KaratsubaReader};
use testframework::onetime_authloop::reader::read_line;
use testframework::poly1305::poly1305_reader::{Poly1305Reader, Poly1305Step as SingleStep};
use testframework::poly1305::reader::{Poly1305Step, Reader as Poly1305LineReader};
use testframework::reader::{ReadResultObj, ReadStep, ReaderObj};
use testframework::scalarmult::reader::{Reader as ScalarMultReader, ScalarMultStep};
use testframework::securemul::reader::{Reader as SecuremulReader, SecuremulStep};
use testframework::securemul::securemul_reader::{Reader as LeSecuremulReader, SecuremulStep as LeStep};

#[test]
fn reader_collects_a_whole_testcase() {
    let mut r = ReaderObj::new(4);
    assert!(matches!(r.feed_line(String::from("Bench Clock Reset Complete")), ReadStep::Pending));
    assert!(matches!(r.feed_line(String::from("   ")), ReadStep::Pending));
    assert!(matches!(
        r.feed_line(String::from("Cycle counts:            12,    345,      6, ")),
        ReadStep::Pending
    ));
    assert!(matches!(r.feed_line(String::from("Branch mispredictions:        1, 2, ")), ReadStep::Pending));
    match r.feed_line(String::from("Result: 00ff10ab")) {
        ReadStep::Complete(res) => {
            assert_eq!(res.get_result(), &vec![0x00, 0xff, 0x10, 0xab]);
            assert_eq!(res.get_cycle_count(), &vec!["12", "345", "6"]);
            assert_eq!(res.get_raw_output().len(), 4);
            assert_eq!(res.get_raw_output()[0], "Bench Clock Reset Complete");
        },
        _ => panic!("expected a complete result"),
    }
    assert!(r.pending.raw_output.is_empty());
    assert!(r.pending.cycle_counts.is_empty());
}

#[test]
fn reader_takes_the_first_run_of_hex_digits() {
    let mut r = ReaderObj::new(2);
    match r.feed_line(String::from("Result: zz 0a1b2c3d4e")) {
        ReadStep::Complete(res) => assert_eq!(res.result, vec![0x0a, 0x1b]),
        _ => panic!("expected a complete result"),
    }
}

#[test]
fn reader_reports_a_result_line_without_digits() {
    let mut r = ReaderObj::new(16);
    assert!(matches!(r.feed_line(String::from("Result: 0123")), ReadStep::MissingResult));
    assert!(matches!(r.feed_line(String::from("0123456789abcdef0123456789abcdef")), ReadStep::Pending));
}

#[test]
fn read_result_keeps_non_blank_lines() {
    let mut res = ReadResultObj::new();
    res.add_to_raw(String::from(""));
    res.add_to_raw(String::from(" \t "));
    res.add_to_raw(String::from("x"));
    assert_eq!(res.raw_output, vec!["x"]);
}

#[test]
fn karatsuba_reader_filters_and_decodes() {
    let mut r = KaratsubaReader::new();
    assert_eq!(r.pending.result, vec![1]);
    assert!(matches!(r.feed_line(String::from("  OK  ")), KaratsubaStep::Pending));
    assert!(matches!(r.feed_line(String::from("Cycle counts:  17, 18, ")), KaratsubaStep::Pending));
    let digits = "0".repeat(62) + "1f";
    match r.feed_line(format!("Result: {}", digits)) {
        KaratsubaStep::Complete(res) => {
            let mut expected = vec![0u8; 31];
            expected.push(0x1f);
            assert_eq!(res.result, expected);
            assert_eq!(res.cycle_counts, vec!["17", "18"]);
            assert_eq!(res.raw_output.len(), 2);
        },
        _ => panic!("expected a complete result"),
    }
    let letters = "g".repeat(64);
    assert!(matches!(r.feed_line(letters), KaratsubaStep::BadResult));
}

#[test]
fn authloop_reader_ends_at_cycle_counts() {
    assert!(read_line("no numbers here").is_none());
    let r = read_line("301, 299, 300, ").unwrap();
    assert_eq!(r.cycle_counts, vec!["301", "299", "300"]);
}

#[test]
fn poly1305_reader_decodes_the_whole_line() {
    let mut r = Poly1305LineReader::new_poly1305();
    assert_eq!(r.outputlen, 32);
    assert!(matches!(r.feed_line("5, 6, "), Poly1305Step::Pending));
    let line = "00112233445566778899aabbccddeeff";
    match r.feed_line(line) {
        Poly1305Step::Complete(res) => {
            assert_eq!(res.result, [0x00, 0x11, 0x22, 0x33, 0x44, 0x55, 0x66, 0x77, 0x88, 0x99, 0xaa, 0xbb, 0xcc, 0xdd, 0xee, 0xff]);
            assert_eq!(res.cycle_counts, vec!["5", "6"]);
        },
        _ => panic!("expected a complete result"),
    }
    assert!(matches!(r.feed_line("tag 00112233445566778899aabbccddeeff"), Poly1305Step::BadResult));
}

#[test]
fn single_poly1305_reader_reads_cycle_count_then_tag() {
    let mut r = Poly1305Reader::new();
    assert_eq!(r.pending.cycle_count, "0");
    assert!(matches!(r.feed_line("This took 1234 cycles"), SingleStep::Pending));
    assert_eq!(r.pending.cycle_count, "1234");
    assert!(matches!(r.feed_line("This took  cycles"), SingleStep::Pending));
    assert_eq!(r.pending.cycle_count, "1234");
    match r.feed_line("ffeeddccbbaa99887766554433221100") {
        SingleStep::Complete(res) => {
            assert_eq!(res.cycle_count, "1234");
            assert_eq!(res.result[0], 0xff);
            assert_eq!(res.result[15], 0x00);
        },
        _ => panic!("expected a complete result"),
    }
    assert_eq!(r.pending.cycle_count, "0");
    r.finished = true;
    assert!(matches!(r.feed_line("This took 1 cycles"), SingleStep::Finished));
}

#[test]
fn scalarmult_reader_uses_prefixes_and_ignore_list() {
    let mut r = ScalarMultReader::new_scalarmult();
    assert!(matches!(r.feed_line(String::from("ATE0-->OK")), ScalarMultStep::Pending));
    assert!(matches!(r.feed_line(String::from("x Bench Clock Reset Complete x")), ScalarMultStep::Pending));
    assert!(matches!(r.feed_line(String::from("Cycle counts: 1, 2, ")), ScalarMultStep::Pending));
    assert!(r.pending.cycle_counts.is_empty());
    assert!(matches!(r.feed_line(String::from("Cycle counts:          7, 8, ")), ScalarMultStep::Pending));
    let digits = "ab".repeat(32);
    match r.feed_line(format!("Result: {}", digits)) {
        ScalarMultStep::Complete(res) => {
            assert_eq!(res.result, [0xab; 32]);
            assert_eq!(res.cycle_counts, vec!["7", "8"]);
            assert_eq!(res.raw_output.len(), 3);
        },
        _ => panic!("expected a complete result"),
    }
    let mut fresh = ScalarMultReader::new_scalarmult();
    assert!(matches!(fresh.feed_line(String::from("Result: 12")), ScalarMultStep::MissingResult));
}

#[test]
fn securemul_reader_reads_eight_big_endian_bytes() {
    let mut r = SecuremulReader::new_securemul();
    assert!(matches!(r.feed_line(String::from("10, 11, ")), SecuremulStep::Pending));
    match r.feed_line(String::from("0x102030405060708ff")) {
        SecuremulStep::Complete(res) => {
            assert_eq!(res.result, 0x0102030405060708);
            assert_eq!(res.cycle_counts, vec!["10", "11"]);
        },
        _ => panic!("expected a complete result"),
    }
    assert!(matches!(r.feed_line(String::from("0x2a0")), SecuremulStep::BadResult));
}

#[test]
fn little_endian_securemul_reader_takes_one_byte() {
    let mut r = LeSecuremulReader::new_securemul();
    match r.feed_line("value 0x2a") {
        LeStep::Complete(res) => assert_eq!(res.result, 42),
        _ => panic!("expected a complete result"),
    }
    match r.feed_line("0x2a0") {
        LeStep::Complete(res) => assert_eq!(res.result, 0),
        _ => panic!("expected a complete result"),
    }
    assert!(matches!(r.feed_line("0x2a01"), LeStep::BadResult));
}

#[test]
fn reader_reads_back_printed_counters() {
    let mut r = ReaderObj::new(1);
    let line = format!("Cycle counts:          {:6}, {:6}, {:6}, ", 120u32, 34567u32, 1234567u32);
    assert_eq!(line, "Cycle counts:             120,  34567, 1234567, ");
    r.feed_line(line);
    assert_eq!(r.pending.cycle_counts, vec!["120", "34567", "1234567"]);
}
