use forgekit_core::testing::{
    count_occurrences, parse_count, split_words, TestReport, TestRunner,
};

fn chars(s: &str) -> Vec<char> {
    s.chars().collect()
}

#[test]
fn test_parse_test_output() {
    let output = "test result: ok. 5 passed; 0 failed";
    let mut report = TestReport::new();
    TestRunner::parse_test_output(output, &mut report);

    assert_eq!(report.passed, 5);
    assert_eq!(report.failed, 0);
}

#[test]
fn result_lines_and_failures_are_counted() {
    let output = "running 3 tests\ntest a ... ok\ntest b ... FAILED\ntest result: ok. 2 passed; 1 failed; 0 ignored\r\n";
    let mut report = TestReport::default();
    assert!(TestRunner::counts_fit(output));
    TestRunner::parse_test_output(output, &mut report);
    assert_eq!((report.passed, report.failed, report.total), (2, 1, 3));
    assert!(!report.all_passed());
}

#[test]
fn failures_after_the_result_line_add_up() {
    let output = "test result: ok. 4 passed; 2 failed\nFAILED\nFAILED again";
    let mut report = TestReport::new();
    TestRunner::parse_test_output(output, &mut report);
    assert_eq!((report.passed, report.failed, report.total), (4, 4, 8));
}

#[test]
fn without_counts_the_tests_are_counted() {
    let output = "test one\ntest two\nlatest test three";
    assert_eq!(output.matches("test ").count(), 4);
    let mut report = TestReport::new();
    TestRunner::parse_test_output(output, &mut report);
    assert_eq!((report.passed, report.failed, report.total), (4, 0, 4));
    let mut empty = TestReport::new();
    TestRunner::parse_test_output("", &mut empty);
    assert_eq!((empty.passed, empty.failed, empty.total), (0, 0, 0));
}

#[test]
fn a_line_that_is_not_ok_sets_no_counts() {
    let output = "test result: FAILED. 1 passed; 2 failed";
    let mut report = TestReport::new();
    TestRunner::parse_test_output(output, &mut report);
    assert_eq!((report.passed, report.failed, report.total), (0, 1, 1));
}

#[test]
fn counts_that_do_not_fit_are_told() {
    let huge = format!("test result: ok. 1 passed; {} failed\nFAILED", usize::MAX);
    assert!(!TestRunner::counts_fit(&huge));
    let sum = format!("test result: ok. 1 passed; {} failed", usize::MAX);
    assert!(!TestRunner::counts_fit(&sum));
    assert!(TestRunner::counts_fit("test result: ok. 1 passed; 3 failed"));
}

#[test]
fn counts_are_plain_decimal_numbers() {
    assert_eq!(parse_count(&chars("42")), Some(42));
    assert_eq!(parse_count(&chars("+7")), Some(7));
    assert_eq!(parse_count(&chars("007")), Some(7));
    assert_eq!(parse_count(&chars("")), None);
    assert_eq!(parse_count(&chars("+")), None);
    assert_eq!(parse_count(&chars("-1")), None);
    assert_eq!(parse_count(&chars("1a")), None);
    assert_eq!(parse_count(&chars(" 1")), None);
    assert_eq!(parse_count(&chars(&usize::MAX.to_string())), Some(usize::MAX));
    assert_eq!(parse_count(&chars(&format!("{}0", usize::MAX))), None);
    assert_eq!(parse_count(&chars("99999999999999999999999999")), None);
    for text in ["42", "+7", "", "+", "-1", "1a", "18446744073709551616"] {
        assert_eq!(parse_count(&chars(text)), text.parse::<usize>().ok());
    }
}

#[test]
fn words_are_runs_without_white_space() {
    let words: Vec<String> =
        split_words(&chars("  ok.\t5 passed;\u{a0}0\r\n")).iter().map(|w| w.iter().collect()).collect();
    assert_eq!(words, vec!["ok.", "5", "passed;", "0"]);
    assert!(split_words(&chars(" \t ")).is_empty());
    let text = " a  b\u{2003}c\u{3000}d\u{85}e ";
    let expected: Vec<String> = text.split_whitespace().map(|w| w.to_string()).collect();
    let got: Vec<String> =
        split_words(&chars(text)).iter().map(|w| w.iter().collect()).collect();
    assert_eq!(got, expected);
}

#[test]
fn occurrences_do_not_overlap() {
    assert_eq!(count_occurrences(&chars("aaaa"), &chars("aa")), 2);
    assert_eq!(count_occurrences(&chars("test test  test"), &chars("test ")), 2);
    assert_eq!(count_occurrences(&chars("abc"), &chars("")), 0);
    assert_eq!(count_occurrences(&chars("ab"), &chars("abc")), 0);
}
