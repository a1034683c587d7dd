//! The report emitter: sorts the discovered candidates lexicographically by
//! relative path, classifies each, and renders one `<code> <suite>/<path>`
//! line per classified candidate, in sorted order.

use vstd::multiset::Multiset;
use vstd::prelude::*;

use crate::classify::{
    classify_content, classify_path, content_class_spec, path_class_spec, PathClass,
};
use crate::outcome::{code_spec, TestResult};
use crate::strutil::{lemma_lex_le_total, lemma_lex_le_trans, lex_le, str_lex_le};

verus! {

/// Everything the classifier may consult about one discovered file: its
/// path relative to the baseline output tree, and the contents of the four
/// file sources (`None` = the file is absent).
#[derive(Debug, Clone)]
pub struct TestRecord {
    pub rel_path: String,
    pub baseline: Option<String>,
    pub candidate: Option<String>,
    pub good: Option<String>,
    pub bad: Option<String>,
}

/// The view of a `TestRecord`.
pub struct TestRecordV {
    pub rel_path: Seq<char>,
    pub baseline: Option<Seq<char>>,
    pub candidate: Option<Seq<char>>,
    pub good: Option<Seq<char>>,
    pub bad: Option<Seq<char>>,
}

impl View for TestRecord {
    type V = TestRecordV;

    open spec fn view(&self) -> TestRecordV {
        TestRecordV {
            rel_path: self.rel_path@,
            baseline: self.baseline.deep_view(),
            candidate: self.candidate.deep_view(),
            good: self.good.deep_view(),
            bad: self.bad.deep_view(),
        }
    }
}

impl DeepView for TestRecord {
    type V = TestRecordV;

    open spec fn deep_view(&self) -> TestRecordV {
        self.view()
    }
}

/// A fatal inconsistency met while emitting a report.
#[derive(Debug, Clone, PartialEq, Eq)]
pub enum ReportError {
    /// A discovered candidate has no baseline content, although the file
    /// was just observed by walking the baseline tree; the field is its
    /// relative path.
    MissingBaseline(String),
}

/// The view of a `ReportError`.
pub enum ReportErrorV {
    MissingBaseline(Seq<char>),
}

impl View for ReportError {
    type V = ReportErrorV;

    open spec fn view(&self) -> ReportErrorV {
        match self {
            ReportError::MissingBaseline(s) => ReportErrorV::MissingBaseline(s@),
        }
    }
}

/// One report line: `<code> <suite>/<relative path>`.
pub open spec fn record_line_spec(suite: Seq<char>, rel: Seq<char>, t: TestResult) -> Seq<char> {
    code_spec(t) + seq![' '] + suite + seq!['/'] + rel
}

/// Render one report line.
pub fn report_line(code: &str, suite: &str, rel: &str) -> (r: String)
    ensures
        r@ == code@ + seq![' '] + suite@ + seq!['/'] + rel@,
{
    let mut out = code.to_owned();
    out.append(" ");
    out.append(suite);
    out.append("/");
    out.append(rel);
    proof {
        reveal_strlit(" ");
        reveal_strlit("/");
        assert(" "@ =~= seq![' ']);
        assert("/"@ =~= seq!['/']);
    }
    out
}

/// The records in order of non-decreasing relative path.
pub open spec fn sorted_by_path(s: Seq<TestRecordV>) -> bool {
    forall|i: int, j: int| 0 <= i < j < s.len() ==> lex_le(s[i].rel_path, s[j].rel_path)
}

/// Insertion of a record into a sorted sequence, keeping the order.
pub open spec fn insert_sorted(x: TestRecordV, s: Seq<TestRecordV>) -> Seq<TestRecordV>
    decreases s.len(),
{
    if s.len() == 0 {
        seq![x]
    } else if lex_le(s.last().rel_path, x.rel_path) {
        s.push(x)
    } else {
        insert_sorted(x, s.drop_last()).push(s.last())
    }
}

/// Insertion sort over records, by relative path.
pub open spec fn sort_spec(s: Seq<TestRecordV>) -> Seq<TestRecordV>
    decreases s.len(),
{
    if s.len() == 0 {
        Seq::empty()
    } else {
        insert_sorted(s.last(), sort_spec(s.drop_last()))
    }
}

/// `insert_sorted` keeps a sorted sequence sorted, adds one element, and
/// introduces no record other than the inserted one.
pub proof fn lemma_insert_sorted(x: TestRecordV, s: Seq<TestRecordV>)
    requires
        sorted_by_path(s),
    ensures
        sorted_by_path(insert_sorted(x, s)),
        insert_sorted(x, s).len() == s.len() + 1,
        forall|i: int|
            0 <= i < insert_sorted(x, s).len() ==> insert_sorted(x, s)[i] == x || s.contains(
                insert_sorted(x, s)[i],
            ),
    decreases s.len(),
{
    let r = insert_sorted(x, s);
    if s.len() == 0 {
    } else if lex_le(s.last().rel_path, x.rel_path) {
        assert forall|i: int, j: int| 0 <= i < j < r.len() implies lex_le(
            r[i].rel_path,
            r[j].rel_path,
        ) by {
            if j == r.len() - 1 && i < s.len() - 1 {
                lemma_lex_le_trans(s[i].rel_path, s.last().rel_path, x.rel_path);
            }
        }
        assert forall|i: int| 0 <= i < r.len() implies r[i] == x || s.contains(r[i]) by {
            if i < s.len() {
                assert(s[i] == r[i]);
            }
        }
    } else {
        let dl = s.drop_last();
        assert(sorted_by_path(dl));
        lemma_insert_sorted(x, dl);
        let t = insert_sorted(x, dl);
        lemma_lex_le_total(s.last().rel_path, x.rel_path);
        assert forall|i: int, j: int| 0 <= i < j < r.len() implies lex_le(
            r[i].rel_path,
            r[j].rel_path,
        ) by {
            if j == r.len() - 1 {
                // r[j] is s.last(); r[i] is x or an element of dl
                if r[i] == x {
                } else {
                    let m = choose|m: int| 0 <= m < dl.len() && dl[m] == r[i];
                    assert(s[m] == dl[m]);
                }
            }
        }
        assert forall|i: int| 0 <= i < r.len() implies r[i] == x || s.contains(r[i]) by {
            if i < t.len() {
                if t[i] != x {
                    let m = choose|m: int| 0 <= m < dl.len() && dl[m] == t[i];
                    assert(s[m] == t[i]);
                }
            } else {
                assert(r[i] == s.last());
                assert(s[s.len() - 1] == s.last());
            }
        }
    }
}

/// `insert_sorted` adds exactly the inserted record to the contents.
proof fn lemma_insert_sorted_multiset(x: TestRecordV, s: Seq<TestRecordV>)
    ensures
        insert_sorted(x, s).to_multiset() == s.to_multiset().insert(x),
    decreases s.len(),
{
    broadcast use vstd::seq_lib::group_to_multiset_ensures;

    if s.len() == 0 {
        assert(seq![x] =~= Seq::<TestRecordV>::empty().push(x));
        assert(s.to_multiset() =~= Multiset::<TestRecordV>::empty());
        assert(insert_sorted(x, s).to_multiset() =~= s.to_multiset().insert(x));
    } else if lex_le(s.last().rel_path, x.rel_path) {
    } else {
        let dl = s.drop_last();
        lemma_insert_sorted_multiset(x, dl);
        assert(s =~= dl.push(s.last()));
        assert(s.to_multiset() =~= dl.to_multiset().insert(s.last()));
        assert(insert_sorted(x, s).to_multiset() =~= dl.to_multiset().insert(x).insert(
            s.last(),
        ));
        assert(dl.to_multiset().insert(x).insert(s.last()) =~= dl.to_multiset().insert(
            s.last(),
        ).insert(x));
    }
}

/// The sort is a permutation: it keeps exactly the records it was given.
pub proof fn lemma_sort_spec_permutes(s: Seq<TestRecordV>)
    ensures
        sort_spec(s).to_multiset() == s.to_multiset(),
    decreases s.len(),
{
    broadcast use vstd::seq_lib::group_to_multiset_ensures;

    if s.len() > 0 {
        let dl = s.drop_last();
        lemma_sort_spec_permutes(dl);
        lemma_insert_sorted_multiset(s.last(), sort_spec(dl));
        assert(s =~= dl.push(s.last()));
        assert(s.to_multiset() =~= dl.to_multiset().insert(s.last()));
    }
}

/// The insertion sort sorts: its result is ordered by relative path and has
/// the length of its input.
pub proof fn lemma_sort_spec_sorted(s: Seq<TestRecordV>)
    ensures
        sorted_by_path(sort_spec(s)),
        sort_spec(s).len() == s.len(),
    decreases s.len(),
{
    if s.len() > 0 {
        lemma_sort_spec_sorted(s.drop_last());
        lemma_insert_sorted(s.last(), sort_spec(s.drop_last()));
    }
}

/// `insert_sorted` realized by inserting at the scanned position `idx`.
proof fn lemma_insert_sorted_at(x: TestRecordV, s: Seq<TestRecordV>, idx: int)
    requires
        0 <= idx <= s.len(),
        forall|k: int| idx <= k < s.len() ==> !lex_le(s[k].rel_path, x.rel_path),
        idx > 0 ==> lex_le(s[idx - 1].rel_path, x.rel_path),
    ensures
        insert_sorted(x, s) == s.insert(idx, x),
    decreases s.len(),
{
    if s.len() == 0 {
        assert(insert_sorted(x, s) =~= s.insert(idx, x));
    } else if idx == s.len() {
        assert(lex_le(s.last().rel_path, x.rel_path));
        assert(s.push(x) =~= s.insert(idx, x));
    } else {
        assert(!lex_le(s.last().rel_path, x.rel_path));
        let dl = s.drop_last();
        lemma_insert_sorted_at(x, dl, idx);
        assert(insert_sorted(x, s) == dl.insert(idx, x).push(s.last()));
        assert(dl.insert(idx, x).push(s.last()) =~= s.insert(idx, x));
    }
}

/// Insert one record into an already sorted vector, keeping the order.
fn insert_record(out: &mut Vec<TestRecord>, x: TestRecord)
    ensures
        final(out).deep_view() == insert_sorted(x@, old(out).deep_view()),
{
    let ghost dv = out.deep_view();
    let mut idx: usize = out.len();
    while idx > 0 && !str_lex_le(out[idx - 1].rel_path.as_str(), x.rel_path.as_str())
        invariant
            dv == out.deep_view(),
            idx <= out.len(),
            dv.len() == out.len(),
            forall|k: int| idx <= k < dv.len() ==> !lex_le(dv[k].rel_path, x@.rel_path),
        decreases idx,
    {
        idx = idx - 1;
    }
    proof {
        lemma_insert_sorted_at(x@, dv, idx as int);
    }
    out.insert(idx, x);
    proof {
        assert(out.deep_view() =~= dv.insert(idx as int, x@));
    }
}

/// Sort records by relative path, lexicographically, with insertion sort.
pub fn sort_records(v: Vec<TestRecord>) -> (r: Vec<TestRecord>)
    ensures
        r.deep_view() == sort_spec(v.deep_view()),
{
    let ghost orig = v.deep_view();
    let mut v = v;
    let mut out: Vec<TestRecord> = Vec::new();
    proof {
        assert(orig.take(0) =~= Seq::<TestRecordV>::empty());
    }
    while v.len() > 0
        invariant
            orig.len() == v.deep_view().len() + out.deep_view().len(),
            v.deep_view() =~= orig.skip(out.deep_view().len() as int),
            out.deep_view() == sort_spec(orig.take(out.deep_view().len() as int)),
        decreases v.len(),
    {
        let ghost k = out.deep_view().len() as int;
        let ghost vdv = v.deep_view();
        let x = v.remove(0);
        proof {
            assert(x@ == vdv[0]);
            assert(vdv[0] == orig[k]);
            assert(v.deep_view() =~= vdv.remove(0));
            assert(vdv.remove(0) =~= orig.skip(k + 1));
            assert(orig.take(k + 1).drop_last() =~= orig.take(k));
            assert(orig.take(k + 1).last() == orig[k]);
            lemma_sort_spec_sorted(orig.take(k));
            lemma_insert_sorted(orig[k], sort_spec(orig.take(k)));
        }
        insert_record(&mut out, x);
    }
    proof {
        assert(orig.take(orig.len() as int) =~= orig);
    }
    out
}

/// The classified items of a record sequence, in order: the relative path
/// and outcome of every record that the path-classifier does not skip.  A
/// compared record without baseline content is the fatal inconsistency
/// `ReportError::MissingBaseline`.
pub open spec fn items_spec(recs: Seq<TestRecordV>, ignore: Seq<Seq<char>>) -> Result<
    Seq<(Seq<char>, TestResult)>,
    ReportErrorV,
>
    decreases recs.len(),
{
    if recs.len() == 0 {
        Ok(Seq::empty())
    } else {
        let rec = recs[0];
        let rest = items_spec(recs.drop_first(), ignore);
        match path_class_spec(rec.rel_path, ignore) {
            PathClass::Skip => rest,
            PathClass::Ignored => match rest {
                Ok(items) => Ok(seq![(rec.rel_path, TestResult::Ignored)] + items),
                Err(e) => Err(e),
            },
            PathClass::Compare => match rec.baseline {
                Option::None => Err(ReportErrorV::MissingBaseline(rec.rel_path)),
                Option::Some(b) => {
                    let oc = content_class_spec(b, rec.candidate, rec.good, rec.bad);
                    match rest {
                        Ok(items) => Ok(seq![(rec.rel_path, oc)] + items),
                        Err(e) => Err(e),
                    }
                },
            },
        }
    }
}

/// The report lines of a sequence of classified items.
pub open spec fn lines_of_items(suite: Seq<char>, items: Seq<(Seq<char>, TestResult)>) -> Seq<
    Seq<char>,
> {
    items.map_values(|it: (Seq<char>, TestResult)| record_line_spec(suite, it.0, it.1))
}

/// The full report of a record sequence, in the order given.
pub open spec fn emit_spec(
    recs: Seq<TestRecordV>,
    suite: Seq<char>,
    ignore: Seq<Seq<char>>,
) -> Result<Seq<Seq<char>>, ReportErrorV> {
    match items_spec(recs, ignore) {
        Ok(items) => Ok(lines_of_items(suite, items)),
        Err(e) => Err(e),
    }
}

/// Classify the records in the order given and render one line per
/// classified record.
pub fn emit_report(records: &Vec<TestRecord>, suite: &str, ignore: &Vec<String>) -> (r: Result<
    Vec<String>,
    ReportError,
>)
    ensures
        match r {
            Ok(lines) => emit_spec(records.deep_view(), suite@, ignore.deep_view()) == Ok::<
                Seq<Seq<char>>,
                ReportErrorV,
            >(lines.deep_view()),
            Err(e) => emit_spec(records.deep_view(), suite@, ignore.deep_view()) == Err::<
                Seq<Seq<char>>,
                ReportErrorV,
            >(e@),
        },
{
    let ghost rv = records.deep_view();
    let ghost ign = ignore.deep_view();
    let mut out: Vec<String> = Vec::new();
    let ghost mut items: Seq<(Seq<char>, TestResult)> = Seq::empty();
    let mut i: usize = 0;
    proof {
        assert(rv.skip(0) =~= rv);
        assert(lines_of_items(suite@, items) =~= out.deep_view());
    }
    while i < records.len()
        invariant
            rv == records.deep_view(),
            ign == ignore.deep_view(),
            i <= records.len(),
            rv.len() == records.len(),
            out.deep_view() == lines_of_items(suite@, items),
            items_spec(rv, ign) == match items_spec(rv.skip(i as int), ign) {
                Ok(rest) => Ok::<Seq<(Seq<char>, TestResult)>, ReportErrorV>(items + rest),
                Err(e) => Err::<Seq<(Seq<char>, TestResult)>, ReportErrorV>(e),
            },
        decreases records.len() - i,
    {
        let ghost tail = rv.skip(i as int);
        proof {
            assert(tail[0] == rv[i as int]);
            assert(tail.drop_first() =~= rv.skip(i + 1));
        }
        let rec = &records[i];
        let outcome: Option<TestResult> = match classify_path(rec.rel_path.as_str(), ignore) {
            PathClass::Skip => Option::None,
            PathClass::Ignored => Option::Some(TestResult::Ignored),
            PathClass::Compare => {
                match &rec.baseline {
                    Option::None => {
                        return Err(ReportError::MissingBaseline(rec.rel_path.clone()));
                    },
                    Option::Some(b) => Option::Some(
                        classify_content(b.as_str(), &rec.candidate, &rec.good, &rec.bad),
                    ),
                }
            },
        };
        if let Option::Some(oc) = outcome {
            let ghost items0 = items;
            let ghost out0 = out.deep_view();
            let line = report_line(oc.code(), suite, rec.rel_path.as_str());
            out.push(line);
            proof {
                items = items.push((rv[i as int].rel_path, oc));
                assert(items =~= items0 + seq![(rv[i as int].rel_path, oc)]);
                assert(out.deep_view() =~= out0.push(line@));
                assert(lines_of_items(suite@, items) =~= lines_of_items(suite@, items0).push(
                    record_line_spec(suite@, rv[i as int].rel_path, oc),
                ));
                match items_spec(rv.skip(i + 1), ign) {
                    Ok(rest) => {
                        assert(items0 + (seq![(rv[i as int].rel_path, oc)] + rest) =~= items
                            + rest);
                    },
                    Err(_) => {},
                }
            }
        }
        i = i + 1;
    }
    proof {
        assert(rv.skip(i as int).len() == 0);
        assert(items + Seq::<(Seq<char>, TestResult)>::empty() =~= items);
    }
    Ok(out)
}

/// The whole per-suite pipeline over plain values: sort the discovered
/// records by relative path, classify each, and render the lines.
pub open spec fn build_report_spec(
    recs: Seq<TestRecordV>,
    suite: Seq<char>,
    ignore: Seq<Seq<char>>,
) -> Result<Seq<Seq<char>>, ReportErrorV> {
    emit_spec(sort_spec(recs), suite, ignore)
}

/// Sort the records by relative path and emit the report lines in that
/// order.
pub fn build_report(records: Vec<TestRecord>, suite: &str, ignore: &Vec<String>) -> (r: Result<
    Vec<String>,
    ReportError,
>)
    ensures
        match r {
            Ok(lines) => build_report_spec(records.deep_view(), suite@, ignore.deep_view())
                == Ok::<Seq<Seq<char>>, ReportErrorV>(lines.deep_view()),
            Err(e) => build_report_spec(records.deep_view(), suite@, ignore.deep_view()) == Err::<
                Seq<Seq<char>>,
                ReportErrorV,
            >(e@),
        },
{
    let sorted = sort_records(records);
    emit_report(&sorted, suite, ignore)
}

/// The pipeline is a function of the output tree, the oracles and the
/// ignore set alone: run twice against unchanged inputs, it produces the
/// identical report.
pub proof fn lemma_report_deterministic(
    recs1: Seq<TestRecordV>,
    recs2: Seq<TestRecordV>,
    suite1: Seq<char>,
    suite2: Seq<char>,
    ignore1: Seq<Seq<char>>,
    ignore2: Seq<Seq<char>>,
)
    requires
        recs1 == recs2,
        suite1 == suite2,
        ignore1 == ignore2,
    ensures
        build_report_spec(recs1, suite1, ignore1) == build_report_spec(recs2, suite2, ignore2),
{
}

/// Over a path-sorted record sequence the classified items keep that
/// order; every item's path moreover comes from some record.
pub proof fn lemma_items_sorted(recs: Seq<TestRecordV>, ignore: Seq<Seq<char>>)
    requires
        sorted_by_path(recs),
        items_spec(recs, ignore) is Ok,
    ensures
        forall|i: int, j: int|
            0 <= i < j < items_spec(recs, ignore)->Ok_0.len() ==> lex_le(
                items_spec(recs, ignore)->Ok_0[i].0,
                items_spec(recs, ignore)->Ok_0[j].0,
            ),
        forall|k: int|
            0 <= k < items_spec(recs, ignore)->Ok_0.len() ==> exists|m: int|
                0 <= m < recs.len() && (#[trigger] recs[m]).rel_path == (#[trigger] items_spec(
                    recs,
                    ignore,
                )->Ok_0[k]).0,
    decreases recs.len(),
{
    if recs.len() == 0 {
    } else {
        let rest = recs.drop_first();
        assert(sorted_by_path(rest));
        let items = items_spec(recs, ignore)->Ok_0;
        lemma_items_sorted(rest, ignore);
        let rest_items = items_spec(rest, ignore)->Ok_0;
        match path_class_spec(recs[0].rel_path, ignore) {
            PathClass::Skip => {
                assert forall|k: int| 0 <= k < items.len() implies exists|m: int|
                    0 <= m < recs.len() && (#[trigger] recs[m]).rel_path == (#[trigger] items[k]).0
                    by {
                    let m = choose|m: int|
                        0 <= m < rest.len() && (#[trigger] rest[m]).rel_path == items[k].0;
                    assert(recs[m + 1].rel_path == items[k].0);
                }
            },
            _ => {
                assert(items[0].0 == recs[0].rel_path);
                assert forall|k: int| 0 <= k < items.len() implies exists|m: int|
                    0 <= m < recs.len() && (#[trigger] recs[m]).rel_path == (#[trigger] items[k]).0
                    by {
                    if k == 0 {
                        assert(recs[0].rel_path == items[0].0);
                    } else {
                        assert(items[k] == rest_items[k - 1]);
                        let m = choose|m: int|
                            0 <= m < rest.len() && (#[trigger] rest[m]).rel_path == rest_items[k
                                - 1].0;
                        assert(recs[m + 1].rel_path == items[k].0);
                    }
                }
                assert forall|i: int, j: int| 0 <= i < j < items.len() implies lex_le(
                    items[i].0,
                    items[j].0,
                ) by {
                    if i == 0 {
                        assert(items[j] == rest_items[j - 1]);
                        let m = choose|m: int|
                            0 <= m < rest.len() && rest[m].rel_path == rest_items[j - 1].0;
                        assert(lex_le(recs[0].rel_path, recs[m + 1].rel_path));
                    } else {
                        assert(items[i] == rest_items[i - 1]);
                        assert(items[j] == rest_items[j - 1]);
                    }
                }
            },
        }
    }
}

/// The emitted report is sorted: any two printed lines carry relative
/// paths in non-decreasing lexicographic order.
pub proof fn lemma_report_sorted(
    recs: Seq<TestRecordV>,
    ignore: Seq<Seq<char>>,
)
    requires
        items_spec(sort_spec(recs), ignore) is Ok,
    ensures
        forall|i: int, j: int|
            0 <= i < j < items_spec(sort_spec(recs), ignore)->Ok_0.len() ==> lex_le(
                items_spec(sort_spec(recs), ignore)->Ok_0[i].0,
                items_spec(sort_spec(recs), ignore)->Ok_0[j].0,
            ),
{
    lemma_sort_spec_sorted(recs);
    lemma_items_sorted(sort_spec(recs), ignore);
}

} // verus!
