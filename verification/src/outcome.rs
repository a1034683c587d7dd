//! The closed set of classification outcomes and their one-character report
//! codes.

use vstd::prelude::*;

verus! {

/// The outcome assigned to one candidate diagnostic file by the decision
/// procedure.  Exactly seven values; produced fresh per candidate and never
/// mutated.
#[derive(Debug, Copy, Clone, PartialEq, Eq, Structural)]
pub enum TestResult {
    /// The file is listed in the ignore set; comparison is suppressed.
    Ignored,
    /// Candidate output is byte-for-byte identical to the baseline output.
    NoChange,
    /// The candidate checker produced no diagnostic file for this test.
    NoOutput,
    /// Output differs and neither oracle has an entry for this file.
    NoExpected,
    /// Output differs and does not match the consulted oracle entry.
    Modified,
    /// Output differs and matches the known-good oracle entry.
    ExpectedSuccess,
    /// Output differs, the known-good oracle is absent, and the output
    /// matches the known-bad oracle entry.
    ExpectedFailure,
}

/// The single-character report code of an outcome.
pub open spec fn code_spec(t: TestResult) -> Seq<char> {
    match t {
        TestResult::Ignored => "I"@,
        TestResult::NoChange => "J"@,
        TestResult::NoOutput => "X"@,
        TestResult::NoExpected => "U"@,
        TestResult::Modified => "M"@,
        TestResult::ExpectedSuccess => "S"@,
        TestResult::ExpectedFailure => "F"@,
    }
}

impl TestResult {
    /// The fixed, total mapping from outcome to report code.
    pub fn code(self) -> (r: &'static str)
        ensures
            r@ == code_spec(self),
    {
        match self {
            TestResult::Ignored => "I",
            TestResult::NoChange => "J",
            TestResult::NoOutput => "X",
            TestResult::NoExpected => "U",
            TestResult::Modified => "M",
            TestResult::ExpectedSuccess => "S",
            TestResult::ExpectedFailure => "F",
        }
    }
}

} // verus!
