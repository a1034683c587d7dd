//! The outcome classifier: a pure decision procedure that assigns one of the
//! seven outcomes (or "not a candidate") to a diagnostic file, given the
//! candidate's relative path, the ignore set, and the contents of the four
//! file sources.

use vstd::prelude::*;

use crate::outcome::TestResult;
use crate::strutil::{ends_with, str_eq, str_ends_with};

verus! {

/// What the candidate's relative path alone decides: whether the file is
/// skipped silently, suppressed by the ignore set, or compared by content.
#[derive(Debug, Copy, Clone, PartialEq, Eq, Structural)]
pub enum PathClass {
    /// Not a candidate at all; never printed.
    Skip,
    /// Listed in the ignore set; printed as `Ignored` without any reads.
    Ignored,
    /// A proper candidate; the content comparison decides the outcome.
    Compare,
}

/// The ignore set contains `rel` (exact, whole-string equality).
pub open spec fn in_ignore(ignore: Seq<Seq<char>>, rel: Seq<char>) -> bool {
    exists|k: int| 0 <= k < ignore.len() && ignore[k] == rel
}

/// Steps decided by the path alone, in priority order: a path without the
/// diagnostic suffix or with the legacy-format suffix is skipped; an ignored
/// path is suppressed; the rest are compared.
pub open spec fn path_class_spec(rel: Seq<char>, ignore: Seq<Seq<char>>) -> PathClass {
    if !ends_with(rel, ".err"@) {
        PathClass::Skip
    } else if ends_with(rel, ".mir.err"@) {
        PathClass::Skip
    } else if in_ignore(ignore, rel) {
        PathClass::Ignored
    } else {
        PathClass::Compare
    }
}

/// Steps decided by content, in priority order: a missing candidate file
/// beats the no-change test, which beats the good oracle, which beats the
/// bad oracle, which beats "no review exists yet".
pub open spec fn content_class_spec(
    baseline: Seq<char>,
    candidate: Option<Seq<char>>,
    good: Option<Seq<char>>,
    bad: Option<Seq<char>>,
) -> TestResult {
    match candidate {
        Option::None => TestResult::NoOutput,
        Option::Some(cand) => if cand == baseline {
            TestResult::NoChange
        } else {
            match good {
                Option::Some(g) => if g == cand {
                    TestResult::ExpectedSuccess
                } else {
                    TestResult::Modified
                },
                Option::None => match bad {
                    Option::Some(b) => if b == cand {
                        TestResult::ExpectedFailure
                    } else {
                        TestResult::Modified
                    },
                    Option::None => TestResult::NoExpected,
                },
            }
        },
    }
}

/// The whole decision tree of the classifier, first matching branch wins.
pub open spec fn classify_spec(
    rel: Seq<char>,
    ignore: Seq<Seq<char>>,
    baseline: Seq<char>,
    candidate: Option<Seq<char>>,
    good: Option<Seq<char>>,
    bad: Option<Seq<char>>,
) -> Option<TestResult> {
    match path_class_spec(rel, ignore) {
        PathClass::Skip => Option::None,
        PathClass::Ignored => Option::Some(TestResult::Ignored),
        PathClass::Compare => Option::Some(
            content_class_spec(baseline, candidate, good, bad),
        ),
    }
}

/// Classify a relative path by the path alone: suffix checks, then the
/// ignore set.  Content plays no part, so callers can defer every file read
/// until this returns `Compare`.
pub fn classify_path(rel: &str, ignore: &Vec<String>) -> (r: PathClass)
    ensures
        r == path_class_spec(rel@, ignore.deep_view()),
{
    if !str_ends_with(rel, ".err") {
        return PathClass::Skip;
    }
    if str_ends_with(rel, ".mir.err") {
        return PathClass::Skip;
    }
    let mut k: usize = 0;
    while k < ignore.len()
        invariant
            ends_with(rel@, ".err"@),
            !ends_with(rel@, ".mir.err"@),
            forall|m: int| 0 <= m < k ==> ignore.deep_view()[m] != rel@,
            k <= ignore.len(),
        decreases ignore.len() - k,
    {
        if str_eq(ignore[k].as_str(), rel) {
            proof {
                assert(ignore.deep_view()[k as int] == rel@);
                assert(in_ignore(ignore.deep_view(), rel@));
            }
            return PathClass::Ignored;
        }
        k = k + 1;
    }
    proof {
        assert(!in_ignore(ignore.deep_view(), rel@));
    }
    PathClass::Compare
}

/// Classify a candidate by content: the baseline output, the candidate
/// output (`None` = the file is absent), and the two oracle entries.
pub fn classify_content(
    baseline: &str,
    candidate: &Option<String>,
    good: &Option<String>,
    bad: &Option<String>,
) -> (r: TestResult)
    ensures
        r == content_class_spec(
            baseline@,
            candidate.deep_view(),
            good.deep_view(),
            bad.deep_view(),
        ),
{
    let cand = match candidate {
        Option::None => {
            return TestResult::NoOutput;
        },
        Option::Some(c) => c,
    };
    if str_eq(cand.as_str(), baseline) {
        return TestResult::NoChange;
    }
    if let Option::Some(g) = good {
        if str_eq(g.as_str(), cand.as_str()) {
            return TestResult::ExpectedSuccess;
        } else {
            return TestResult::Modified;
        }
    }
    if let Option::Some(b) = bad {
        if str_eq(b.as_str(), cand.as_str()) {
            return TestResult::ExpectedFailure;
        } else {
            return TestResult::Modified;
        }
    }
    TestResult::NoExpected
}

/// The whole classifier over plain values.  `None` means the path is not a
/// candidate and nothing is printed for it.
pub fn classify(
    rel: &str,
    ignore: &Vec<String>,
    baseline: &str,
    candidate: &Option<String>,
    good: &Option<String>,
    bad: &Option<String>,
) -> (r: Option<TestResult>)
    ensures
        r == classify_spec(
            rel@,
            ignore.deep_view(),
            baseline@,
            candidate.deep_view(),
            good.deep_view(),
            bad.deep_view(),
        ),
{
    match classify_path(rel, ignore) {
        PathClass::Skip => Option::None,
        PathClass::Ignored => Option::Some(TestResult::Ignored),
        PathClass::Compare => Option::Some(classify_content(baseline, candidate, good, bad)),
    }
}

/// A path without the diagnostic suffix is never classified, whatever the
/// ignore set and the file contents.
pub proof fn lemma_not_diagnostic_skipped(
    rel: Seq<char>,
    ignore: Seq<Seq<char>>,
    baseline: Seq<char>,
    candidate: Option<Seq<char>>,
    good: Option<Seq<char>>,
    bad: Option<Seq<char>>,
)
    requires
        !ends_with(rel, ".err"@),
    ensures
        classify_spec(rel, ignore, baseline, candidate, good, bad) is None,
{
}

/// A path with the legacy-format suffix is never classified, whatever the
/// ignore set and the file contents.
pub proof fn lemma_legacy_suffix_skipped(
    rel: Seq<char>,
    ignore: Seq<Seq<char>>,
    baseline: Seq<char>,
    candidate: Option<Seq<char>>,
    good: Option<Seq<char>>,
    bad: Option<Seq<char>>,
)
    requires
        ends_with(rel, ".mir.err"@),
    ensures
        classify_spec(rel, ignore, baseline, candidate, good, bad) is None,
{
}

/// A diagnostic path in the ignore set is always `Ignored`, even when the
/// baseline and candidate contents differ and oracle entries exist.
pub proof fn lemma_ignored_wins(
    rel: Seq<char>,
    ignore: Seq<Seq<char>>,
    baseline: Seq<char>,
    candidate: Option<Seq<char>>,
    good: Option<Seq<char>>,
    bad: Option<Seq<char>>,
)
    requires
        ends_with(rel, ".err"@),
        !ends_with(rel, ".mir.err"@),
        in_ignore(ignore, rel),
    ensures
        classify_spec(rel, ignore, baseline, candidate, good, bad)
            == Option::Some(TestResult::Ignored),
{
}

/// For a compared candidate, a missing candidate file is always `NoOutput`,
/// irrespective of the oracle contents.
pub proof fn lemma_missing_candidate_no_output(
    rel: Seq<char>,
    ignore: Seq<Seq<char>>,
    baseline: Seq<char>,
    good: Option<Seq<char>>,
    bad: Option<Seq<char>>,
)
    requires
        path_class_spec(rel, ignore) == PathClass::Compare,
    ensures
        classify_spec(rel, ignore, baseline, Option::None, good, bad)
            == Option::Some(TestResult::NoOutput),
{
}

/// For a compared candidate, identical baseline and candidate content is
/// always `NoChange`, even when an oracle entry exists and differs from
/// both.
pub proof fn lemma_equal_content_no_change(
    rel: Seq<char>,
    ignore: Seq<Seq<char>>,
    baseline: Seq<char>,
    good: Option<Seq<char>>,
    bad: Option<Seq<char>>,
)
    requires
        path_class_spec(rel, ignore) == PathClass::Compare,
    ensures
        classify_spec(rel, ignore, baseline, Option::Some(baseline), good, bad)
            == Option::Some(TestResult::NoChange),
{
}

/// For a compared candidate whose content differs from the baseline: a
/// good-oracle entry equal to the candidate content gives
/// `ExpectedSuccess`, and any other good-oracle entry gives `Modified` for
/// the same candidate content.
pub proof fn lemma_good_oracle_decides(
    rel: Seq<char>,
    ignore: Seq<Seq<char>>,
    baseline: Seq<char>,
    candidate: Seq<char>,
    good: Seq<char>,
    bad: Option<Seq<char>>,
)
    requires
        path_class_spec(rel, ignore) == PathClass::Compare,
        candidate != baseline,
    ensures
        good == candidate ==> classify_spec(
            rel,
            ignore,
            baseline,
            Option::Some(candidate),
            Option::Some(good),
            bad,
        ) == Option::Some(TestResult::ExpectedSuccess),
        good != candidate ==> classify_spec(
            rel,
            ignore,
            baseline,
            Option::Some(candidate),
            Option::Some(good),
            bad,
        ) == Option::Some(TestResult::Modified),
{
}

/// For a compared candidate whose content differs from the baseline and has
/// no good-oracle entry: a bad-oracle entry equal to the candidate content
/// gives `ExpectedFailure`, and with neither oracle present the outcome is
/// `NoExpected`.
pub proof fn lemma_bad_oracle_decides(
    rel: Seq<char>,
    ignore: Seq<Seq<char>>,
    baseline: Seq<char>,
    candidate: Seq<char>,
    bad: Seq<char>,
)
    requires
        path_class_spec(rel, ignore) == PathClass::Compare,
        candidate != baseline,
    ensures
        bad == candidate ==> classify_spec(
            rel,
            ignore,
            baseline,
            Option::Some(candidate),
            Option::None,
            Option::Some(bad),
        ) == Option::Some(TestResult::ExpectedFailure),
        classify_spec(
            rel,
            ignore,
            baseline,
            Option::Some(candidate),
            Option::None,
            Option::None,
        ) == Option::Some(TestResult::NoExpected),
{
}

} // verus!
