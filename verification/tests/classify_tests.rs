//! The classifier's decision tree on concrete inputs.

use nll_probe::{classify, classify_content, classify_path, PathClass, TestResult};

fn s(v: &str) -> String {
    v.to_string()
}

#[test]
fn codes_are_fixed() {
    assert_eq!(TestResult::Ignored.code(), "I");
    assert_eq!(TestResult::NoChange.code(), "J");
    assert_eq!(TestResult::NoOutput.code(), "X");
    assert_eq!(TestResult::NoExpected.code(), "U");
    assert_eq!(TestResult::Modified.code(), "M");
    assert_eq!(TestResult::ExpectedSuccess.code(), "S");
    assert_eq!(TestResult::ExpectedFailure.code(), "F");
}

#[test]
fn non_diagnostic_path_is_skipped() {
    let ignore = vec![s("t.txt")];
    assert_eq!(
        classify("t.txt", &ignore, "error[E1]", &Some(s("x")), &Some(s("y")), &Some(s("z"))),
        None
    );
    assert_eq!(classify_path("t.txt", &ignore), PathClass::Skip);
    assert_eq!(classify_path("err", &ignore), PathClass::Skip);
}

#[test]
fn legacy_suffix_is_skipped() {
    let ignore = vec![s("t.mir.err")];
    assert_eq!(
        classify("t.mir.err", &ignore, "error[E1]", &Some(s("x")), &Some(s("y")), &Some(s("z"))),
        None
    );
    assert_eq!(classify_path("t.mir.err", &ignore), PathClass::Skip);
}

#[test]
fn ignore_set_wins_over_everything() {
    let ignore = vec![s("a.err"), s("t.err")];
    // contents all differ and both oracles exist: Ignored still wins
    assert_eq!(
        classify("t.err", &ignore, "error[E1]", &Some(s("error[E2]")), &Some(s("error[E3]")), &Some(s("error[E4]"))),
        Some(TestResult::Ignored)
    );
    assert_eq!(classify_path("t.err", &ignore), PathClass::Ignored);
    // membership is exact whole-string equality
    assert_eq!(classify_path("xt.err", &ignore), PathClass::Compare);
}

#[test]
fn empty_ignore_lines_never_match() {
    let ignore = vec![s(""), s("")];
    assert_eq!(classify_path("t.err", &ignore), PathClass::Compare);
}

#[test]
fn missing_candidate_is_no_output() {
    let ignore: Vec<String> = Vec::new();
    // oracles present and equal to baseline: still NoOutput
    assert_eq!(
        classify("t.err", &ignore, "error[E1]", &None, &Some(s("error[E1]")), &Some(s("error[E1]"))),
        Some(TestResult::NoOutput)
    );
    assert_eq!(
        classify_content("error[E1]", &None, &None, &None),
        TestResult::NoOutput
    );
}

#[test]
fn equal_content_is_no_change() {
    let ignore: Vec<String> = Vec::new();
    // an oracle entry exists and differs from both: still NoChange
    assert_eq!(
        classify("t.err", &ignore, "error[E1]", &Some(s("error[E1]")), &Some(s("error[E9]")), &None),
        Some(TestResult::NoChange)
    );
}

#[test]
fn good_oracle_match_is_expected_success() {
    let ignore: Vec<String> = Vec::new();
    assert_eq!(
        classify("t.err", &ignore, "error[E1]", &Some(s("error[E2]")), &Some(s("error[E2]")), &None),
        Some(TestResult::ExpectedSuccess)
    );
}

#[test]
fn good_oracle_one_byte_off_is_modified() {
    let ignore: Vec<String> = Vec::new();
    // same candidate content, good oracle differs in one byte: Modified
    assert_eq!(
        classify("t.err", &ignore, "error[E1]", &Some(s("error[E2]")), &Some(s("error[E3]")), &None),
        Some(TestResult::Modified)
    );
    // the bad oracle matching is irrelevant while the good oracle exists
    assert_eq!(
        classify("t.err", &ignore, "error[E1]", &Some(s("error[E2]")), &Some(s("error[E3]")), &Some(s("error[E2]"))),
        Some(TestResult::Modified)
    );
}

#[test]
fn bad_oracle_match_is_expected_failure() {
    let ignore: Vec<String> = Vec::new();
    assert_eq!(
        classify("t.err", &ignore, "error[E1]", &Some(s("error[E2]")), &None, &Some(s("error[E2]"))),
        Some(TestResult::ExpectedFailure)
    );
}

#[test]
fn bad_oracle_mismatch_is_modified() {
    let ignore: Vec<String> = Vec::new();
    assert_eq!(
        classify("t.err", &ignore, "error[E1]", &Some(s("error[E3]")), &None, &Some(s("error[E2]"))),
        Some(TestResult::Modified)
    );
}

#[test]
fn no_oracle_is_no_expected() {
    let ignore: Vec<String> = Vec::new();
    assert_eq!(
        classify("t.err", &ignore, "error[E1]", &Some(s("error[E2]")), &None, &None),
        Some(TestResult::NoExpected)
    );
}

#[test]
fn empty_candidate_file_differs_from_absent() {
    let ignore: Vec<String> = Vec::new();
    // an empty candidate file is content, not absence
    assert_eq!(
        classify("t.err", &ignore, "error[E1]", &Some(s("")), &None, &None),
        Some(TestResult::NoExpected)
    );
    assert_eq!(
        classify("t.err", &ignore, "", &Some(s("")), &None, &None),
        Some(TestResult::NoChange)
    );
}
