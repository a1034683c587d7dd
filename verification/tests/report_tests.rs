//! The report emitter: sorting, rendering, the five end-to-end scenarios,
//! and idempotence.

use nll_probe::{
    build_report, emit_report, report_line, sort_records, split_lines, str_ends_with, str_eq,
    str_lex_le, ReportError, TestRecord,
};

fn s(v: &str) -> String {
    v.to_string()
}

fn record(
    rel: &str,
    baseline: Option<&str>,
    candidate: Option<&str>,
    good: Option<&str>,
    bad: Option<&str>,
) -> TestRecord {
    TestRecord {
        rel_path: s(rel),
        baseline: baseline.map(s),
        candidate: candidate.map(s),
        good: good.map(s),
        bad: bad.map(s),
    }
}

#[test]
fn report_line_format() {
    assert_eq!(report_line("X", "run-pass", "t1.err"), "X run-pass/t1.err");
}

#[test]
fn string_helpers() {
    assert!(str_eq("ab", "ab"));
    assert!(!str_eq("ab", "ac"));
    assert!(!str_eq("ab", "abc"));
    assert!(str_ends_with("t1.err", ".err"));
    assert!(!str_ends_with("t1.err", ".mir.err"));
    assert!(str_ends_with("x.mir.err", ".err"));
    assert!(str_lex_le("a", "b"));
    assert!(str_lex_le("a", "ab"));
    assert!(!str_lex_le("ab", "a"));
    assert!(str_lex_le("same", "same"));
}

#[test]
fn split_lines_keeps_empty_segments() {
    assert_eq!(split_lines("a\nb"), vec![s("a"), s("b")]);
    assert_eq!(split_lines("a\nb\n"), vec![s("a"), s("b"), s("")]);
    assert_eq!(split_lines(""), vec![s("")]);
    assert_eq!(split_lines("\n"), vec![s(""), s("")]);
}

#[test]
fn records_sort_by_relative_path() {
    let v = vec![
        record("c.err", None, None, None, None),
        record("a.err", None, None, None, None),
        record("b/x.err", None, None, None, None),
        record("a.err", None, None, None, None),
    ];
    let sorted = sort_records(v);
    let paths: Vec<&str> = sorted.iter().map(|r| r.rel_path.as_str()).collect();
    assert_eq!(paths, vec!["a.err", "a.err", "b/x.err", "c.err"]);
}

#[test]
fn missing_baseline_for_compared_record_is_fatal() {
    let ignore: Vec<String> = Vec::new();
    let recs = vec![record("t.err", None, Some("x"), None, None)];
    assert_eq!(
        emit_report(&recs, "run-pass", &ignore),
        Err(ReportError::MissingBaseline(s("t.err")))
    );
}

#[test]
fn ignored_record_needs_no_baseline() {
    let ignore = vec![s("t.err")];
    let recs = vec![record("t.err", None, None, None, None)];
    assert_eq!(
        emit_report(&recs, "run-pass", &ignore),
        Ok(vec![s("I run-pass/t.err")])
    );
}

#[test]
fn five_scenarios_one_report() {
    let ignore = vec![s("t5.err")];
    // handed over unsorted on purpose; the report sorts by path
    let recs = vec![
        record("t4.err", Some("error[E1]"), Some("error[E3]"), None, Some("error[E2]")),
        record("t1.err", Some("error[E1]"), None, None, None),
        record("t5.err", Some("error[E1]"), Some("error[E9]"), Some("error[E8]"), Some("error[E7]")),
        record("t2.err", Some("error[E1]"), Some("error[E1]"), None, None),
        record("t3.err", Some("error[E1]"), Some("error[E2]"), Some("error[E2]"), None),
        record("skipped.txt", None, None, None, None),
        record("legacy.mir.err", None, None, None, None),
    ];
    let lines = build_report(recs, "compile-fail", &ignore).unwrap();
    assert_eq!(
        lines,
        vec![
            s("X compile-fail/t1.err"),
            s("J compile-fail/t2.err"),
            s("S compile-fail/t3.err"),
            s("M compile-fail/t4.err"),
            s("I compile-fail/t5.err"),
        ]
    );
}

#[test]
fn report_is_sorted_and_idempotent() {
    let ignore: Vec<String> = Vec::new();
    let mk = || {
        vec![
            record("z.err", Some("b"), Some("b"), None, None),
            record("m.err", Some("b"), Some("c"), None, None),
            record("a.err", Some("b"), None, None, None),
        ]
    };
    let first = build_report(mk(), "run-pass", &ignore).unwrap();
    let second = build_report(mk(), "run-pass", &ignore).unwrap();
    assert_eq!(first, second);
    // paths of adjacent lines are non-decreasing
    let paths: Vec<String> = first
        .iter()
        .map(|l| l.split('/').last().unwrap().to_string())
        .collect();
    let mut sorted = paths.clone();
    sorted.sort();
    assert_eq!(paths, sorted);
    assert_eq!(
        first,
        vec![s("X run-pass/a.err"), s("U run-pass/m.err"), s("J run-pass/z.err")]
    );
}
