//! Differential-testing driver for a compiler migration between two
//! borrow-checking strategies.
//!
//! The library runs the same regression suites under a baseline checker and a
//! candidate checker, then classifies every diagnostic file the baseline run
//! produced by comparing the candidate's output against the baseline output
//! and against two curated oracle corpora ("known-good" and "known-bad").
//! The result is a flat, sorted, machine-parseable change report.
//!
//! The process-spawning and file-reading edges live outside this crate; the
//! library holds the decision logic: template resolution for the harness
//! command line, the outcome classifier, and the sorted report emitter.

mod classify;
mod config;
mod errors;
mod outcome;
mod report;
mod strutil;
mod template;

pub use classify::{classify, classify_content, classify_path, PathClass};
pub use config::{cvpath, Configuration, PathText};
pub use errors::TemplateError;
pub use outcome::TestResult;
pub use report::{
    build_report, emit_report, report_line, sort_records, ReportError, TestRecord,
};
pub use strutil::{split_lines, str_eq, str_ends_with, str_lex_le};
pub use template::{compiletest_command, lookup_var, resolve_command, resolve_template};
