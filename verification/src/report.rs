//! Counting and scoring of results, and the report as text.

use crate::json::{compact_text, json_text};
use crate::model::{result_views, CheckResult, CheckResultView, Status};
use crate::text::{decimal, join, push_decimal, push_joined, push_text, started};
use vstd::prelude::*;

verus! {

/// The form in which a report is written.
#[derive(Debug, Clone, Copy, PartialEq, Eq, Structural)]
pub enum OutputFormat {
    Text,
    Json,
}

/// Writes reports: with every result, or only with those that ask for
/// attention.
#[derive(Debug, Clone, Copy)]
pub struct Reporter {
    verbose: bool,
    format: OutputFormat,
}

/// The statuses of a list of results, in order.
pub open spec fn statuses(results: Seq<CheckResult>) -> Seq<Status> {
    Seq::new(results.len(), |i: int| results[i].status)
}

/// How many of `s` are `st`.
pub open spec fn count_of(s: Seq<Status>, st: Status) -> nat
    decreases s.len(),
{
    if s.len() == 0 {
        0
    } else {
        count_of(s.drop_last(), st) + if s.last() == st {
            1nat
        } else {
            0nat
        }
    }
}

/// The whole number nearest to `num / den`, a half going up.
pub open spec fn rounded(num: nat, den: nat) -> nat {
    (2 * num + den) / (2 * den)
}

/// The score of a list of statuses, from 0 to 100. `Skip` does not count.
/// Of the others a `Pass` gives one point, a `Warn` half a point and a `Fail`
/// none; the score is the share of the points that could be had, in percent,
/// rounded. Where nothing counts the score is 100.
pub open spec fn score_of(s: Seq<Status>) -> nat {
    let pass = count_of(s, Status::Pass);
    let warn = count_of(s, Status::Warn);
    let fail = count_of(s, Status::Fail);
    let scorable = pass + warn + fail;
    if scorable == 0 {
        100
    } else {
        rounded(100 * (2 * pass + warn), 2 * scorable)
    }
}

/// The four counts of a list of statuses add up to its length.
pub proof fn lemma_counts_partition(s: Seq<Status>)
    ensures
        count_of(s, Status::Pass) + count_of(s, Status::Warn) + count_of(s, Status::Fail)
            + count_of(s, Status::Skip) == s.len(),
    decreases s.len(),
{
    if s.len() > 0 {
        lemma_counts_partition(s.drop_last());
    }
}

/// A count is the number of times the status occurs, whatever the order.
pub proof fn lemma_count_is_multiplicity(s: Seq<Status>, st: Status)
    ensures
        count_of(s, st) == s.to_multiset().count(st),
    decreases s.len(),
{
    broadcast use vstd::seq_lib::group_to_multiset_ensures;

    if s.len() > 0 {
        let t = s.drop_last();
        lemma_count_is_multiplicity(t, st);
        assert(t.push(s.last()) =~= s);
    } else {
        assert(s.to_multiset().count(st) == 0);
    }
}

/// Two lists that hold the same statuses, in whatever order, have the same
/// counts.
pub proof fn lemma_counts_order_independent(a: Seq<Status>, b: Seq<Status>, st: Status)
    requires
        a.to_multiset() == b.to_multiset(),
    ensures
        count_of(a, st) == count_of(b, st),
{
    lemma_count_is_multiplicity(a, st);
    lemma_count_is_multiplicity(b, st);
}

/// Two lists that hold the same statuses, in whatever order, have the same
/// score.
pub proof fn lemma_score_order_independent(a: Seq<Status>, b: Seq<Status>)
    requires
        a.to_multiset() == b.to_multiset(),
    ensures
        score_of(a) == score_of(b),
{
    lemma_counts_order_independent(a, b, Status::Pass);
    lemma_counts_order_independent(a, b, Status::Warn);
    lemma_counts_order_independent(a, b, Status::Fail);
}

/// A score lies between 0 and 100.
pub proof fn lemma_score_bounds(s: Seq<Status>)
    ensures
        score_of(s) <= 100,
{
    let pass = count_of(s, Status::Pass);
    let warn = count_of(s, Status::Warn);
    let fail = count_of(s, Status::Fail);
    let n = pass + warn + fail;
    if n > 0 {
        let num = 2 * (100 * (2 * pass + warn)) + 2 * n;
        let den = 2 * (2 * n);
        assert(num < 101 * den);
        assert(num / den <= 100) by (nonlinear_arith)
            requires
                den > 0,
                0 <= num < 101 * den,
        ;
    }
}

/// Skipped results leave the score as it is.
pub proof fn lemma_skip_leaves_score(s: Seq<Status>)
    ensures
        score_of(s.push(Status::Skip)) == score_of(s),
{
    assert(s.push(Status::Skip).drop_last() =~= s);
}

/// The word for a status.
pub open spec fn status_label(st: Status) -> Seq<char> {
    match st {
        Status::Pass => "PASS"@,
        Status::Warn => "WARN"@,
        Status::Fail => "FAIL"@,
        Status::Skip => "SKIP"@,
    }
}

/// Whether a report shows a result of this status: all of them when
/// verbose, else only those that are neither `Pass` nor `Skip`.
pub open spec fn shown(verbose: bool, st: Status) -> bool {
    verbose || !(st == Status::Pass || st == Status::Skip)
}

/// The line that lists the categories of a result; nothing where it has none.
pub open spec fn categories_line(r: CheckResultView) -> Seq<char> {
    if r.categories.len() > 0 {
        "  categories: "@ + join(r.categories, ", "@) + "\n"@
    } else {
        Seq::<char>::empty()
    }
}

/// The line that gives the remediation of a result; nothing where it has none.
pub open spec fn remediation_line(r: CheckResultView) -> Seq<char> {
    match r.remediation {
        Some(x) => "  remediation: "@ + x + "\n"@,
        None => Seq::<char>::empty(),
    }
}

/// The line that gives the evidence of a result; nothing where it has none.
pub open spec fn evidence_line(r: CheckResultView) -> Seq<char> {
    match r.evidence {
        Some(e) => "  evidence: "@ + json_text(e) + "\n"@,
        None => Seq::<char>::empty(),
    }
}

/// The lines of one result in a text report.
pub open spec fn entry_text(r: CheckResultView) -> Seq<char> {
    "["@ + status_label(r.status) + "] "@ + r.title + "\n"@ + "  id: "@ + r.id + "\n"@
        + categories_line(r) + "  reason: "@ + r.reason + "\n"@ + remediation_line(r)
        + evidence_line(r) + "\n"@
}

/// The entries of a text report: those of the results that are shown, in
/// order.
pub open spec fn entries_text(verbose: bool, rs: Seq<CheckResultView>) -> Seq<char>
    decreases rs.len(),
{
    if rs.len() == 0 {
        Seq::<char>::empty()
    } else {
        entries_text(verbose, rs.drop_last()) + if shown(verbose, rs.last().status) {
            entry_text(rs.last())
        } else {
            Seq::<char>::empty()
        }
    }
}

/// The head of a text report: title, score and counts.
pub open spec fn summary_text(s: Seq<Status>) -> Seq<char> {
    "VPS Audit Results\n"@ + "=================\n"@ + "Score: "@ + decimal(score_of(s))
        + " / 100\n"@ + "PASS="@ + decimal(count_of(s, Status::Pass)) + ", WARN="@ + decimal(
        count_of(s, Status::Warn),
    ) + ", FAIL="@ + decimal(count_of(s, Status::Fail)) + ", SKIP="@ + decimal(
        count_of(s, Status::Skip),
    ) + "\n"@
}

/// A whole text report.
pub open spec fn report_text(verbose: bool, results: Seq<CheckResult>) -> Seq<char> {
    summary_text(statuses(results)) + entries_text(verbose, result_views(results))
}

/// The word for a status.
pub fn label(st: Status) -> (r: &'static str)
    ensures
        r@ == status_label(st),
{
    match st {
        Status::Pass => "PASS",
        Status::Warn => "WARN",
        Status::Fail => "FAIL",
        Status::Skip => "SKIP",
    }
}

/// Computes [`categories_line`].
fn categories_string(r: &CheckResult) -> (s: String)
    ensures
        s@ == categories_line(r@),
{
    if r.categories.len() > 0 {
        let mut s = started("  categories: ");
        push_joined(&mut s, &r.categories, ", ");
        push_text(&mut s, "\n");
        s
    } else {
        String::new()
    }
}

/// Computes [`remediation_line`].
fn remediation_string(r: &CheckResult) -> (s: String)
    ensures
        s@ == remediation_line(r@),
{
    match &r.remediation {
        Some(x) => {
            let mut s = started("  remediation: ");
            push_text(&mut s, x.as_str());
            push_text(&mut s, "\n");
            s
        },
        None => String::new(),
    }
}

/// Computes [`evidence_line`].
fn evidence_string(r: &CheckResult) -> (s: String)
    ensures
        s@ == evidence_line(r@),
{
    match &r.evidence {
        Some(e) => {
            let text = compact_text(e);
            let mut s = started("  evidence: ");
            push_text(&mut s, text.as_str());
            push_text(&mut s, "\n");
            s
        },
        None => String::new(),
    }
}

/// Computes [`entry_text`].
fn entry_string(r: &CheckResult) -> (s: String)
    ensures
        s@ == entry_text(r@),
{
    let categories = categories_string(r);
    let remediation = remediation_string(r);
    let evidence = evidence_string(r);
    let mut s = started("[");
    push_text(&mut s, label(r.status));
    push_text(&mut s, "] ");
    push_text(&mut s, r.title.as_str());
    push_text(&mut s, "\n");
    push_text(&mut s, "  id: ");
    push_text(&mut s, r.id.as_str());
    push_text(&mut s, "\n");
    push_text(&mut s, categories.as_str());
    push_text(&mut s, "  reason: ");
    push_text(&mut s, r.reason.as_str());
    push_text(&mut s, "\n");
    push_text(&mut s, remediation.as_str());
    push_text(&mut s, evidence.as_str());
    push_text(&mut s, "\n");
    s
}

/// Computes [`summary_text`] from the counts and the score.
fn summary_string(pass: usize, warn: usize, fail: usize, skip: usize, score: u32) -> (s: String)
    ensures
        s@ == "VPS Audit Results\n"@ + "=================\n"@ + "Score: "@ + decimal(score as nat)
            + " / 100\n"@ + "PASS="@ + decimal(pass as nat) + ", WARN="@ + decimal(warn as nat)
            + ", FAIL="@ + decimal(fail as nat) + ", SKIP="@ + decimal(skip as nat) + "\n"@,
{
    let mut s = started("VPS Audit Results\n");
    push_text(&mut s, "=================\n");
    push_text(&mut s, "Score: ");
    push_decimal(&mut s, score as u64);
    push_text(&mut s, " / 100\n");
    push_text(&mut s, "PASS=");
    push_decimal(&mut s, pass as u64);
    push_text(&mut s, ", WARN=");
    push_decimal(&mut s, warn as u64);
    push_text(&mut s, ", FAIL=");
    push_decimal(&mut s, fail as u64);
    push_text(&mut s, ", SKIP=");
    push_decimal(&mut s, skip as u64);
    push_text(&mut s, "\n");
    s
}

impl Reporter {
    /// A reporter. A verbose one shows results of every status.
    pub fn new(verbose: bool, format: OutputFormat) -> (r: Self)
        ensures
            r.is_verbose() == verbose,
            r.output_format() == format,
    {
        Self { verbose, format }
    }

    /// Whether results of every status are shown.
    pub closed spec fn is_verbose(&self) -> bool {
        self.verbose
    }

    /// The form in which this reporter writes.
    pub closed spec fn output_format(&self) -> OutputFormat {
        self.format
    }

    /// Whether results of every status are shown.
    pub fn verbose(&self) -> (r: bool)
        ensures
            r == self.is_verbose(),
    {
        self.verbose
    }

    /// The form in which this reporter writes.
    pub fn format(&self) -> (r: OutputFormat)
        ensures
            r == self.output_format(),
    {
        self.format
    }

    /// Whether a report of this reporter shows `result`.
    pub fn shows(&self, result: &CheckResult) -> (r: bool)
        ensures
            r == shown(self.is_verbose(), result.status),
    {
        self.verbose || !matches!(result.status, Status::Pass | Status::Skip)
    }

    /// How many results are `Pass`, `Warn`, `Fail` and `Skip`, in this order.
    pub fn counts(results: &[CheckResult]) -> (r: (usize, usize, usize, usize))
        ensures
            r.0 == count_of(statuses(results@), Status::Pass),
            r.1 == count_of(statuses(results@), Status::Warn),
            r.2 == count_of(statuses(results@), Status::Fail),
            r.3 == count_of(statuses(results@), Status::Skip),
            r.0 + r.1 + r.2 + r.3 == results@.len(),
    {
        let n = results.len();
        let mut pass: usize = 0;
        let mut warn: usize = 0;
        let mut fail: usize = 0;
        let mut skip: usize = 0;
        let mut i: usize = 0;
        let ghost all = statuses(results@);
        proof {
            assert(all.take(0) =~= Seq::<Status>::empty());
        }
        while i < n
            invariant
                n == results@.len(),
                i <= n,
                all == statuses(results@),
                pass == count_of(all.take(i as int), Status::Pass),
                warn == count_of(all.take(i as int), Status::Warn),
                fail == count_of(all.take(i as int), Status::Fail),
                skip == count_of(all.take(i as int), Status::Skip),
                pass + warn + fail + skip == i,
            decreases n - i,
        {
            proof {
                assert(all.take(i + 1).drop_last() =~= all.take(i as int));
                assert(all.take(i + 1).last() == results@[i as int].status);
            }
            match results[i].status {
                Status::Pass => {
                    pass += 1;
                },
                Status::Warn => {
                    warn += 1;
                },
                Status::Fail => {
                    fail += 1;
                },
                Status::Skip => {
                    skip += 1;
                },
            }
            i += 1;
        }
        proof {
            assert(all.take(n as int) =~= all);
        }
        (pass, warn, fail, skip)
    }

    /// The score of the results, from 0 to 100.
    pub fn score(results: &[CheckResult]) -> (r: u32)
        ensures
            r == score_of(statuses(results@)),
            r <= 100,
    {
        let (pass, warn, fail, _skip) = Self::counts(results);
        let scorable: u128 = pass as u128 + warn as u128 + fail as u128;
        if scorable == 0 {
            return 100;
        }
        let points: u128 = 100 * (2 * pass as u128 + warn as u128);
        let r: u128 = (2 * points + 2 * scorable) / (2 * (2 * scorable));
        proof {
            lemma_score_bounds(statuses(results@));
        }
        r as u32
    }

    /// The report as text: title, score and counts, then the results that are
    /// shown.
    pub fn render_text(&self, results: &[CheckResult]) -> (s: String)
        ensures
            s@ == report_text(self.is_verbose(), results@),
    {
        let (pass, warn, fail, skip) = Self::counts(results);
        let score = Self::score(results);
        let ghost st = statuses(results@);
        let mut s = summary_string(pass, warn, fail, skip, score);
        let n = results.len();
        let mut i: usize = 0;
        let ghost all = result_views(results@);
        proof {
            assert(all.take(0) =~= Seq::<CheckResultView>::empty());
            assert(s@ =~= summary_text(st) + entries_text(self.is_verbose(), all.take(0)));
        }
        while i < n
            invariant
                n == results@.len(),
                i <= n,
                all == result_views(results@),
                st == statuses(results@),
                s@ == summary_text(st) + entries_text(self.is_verbose(), all.take(i as int)),
            decreases n - i,
        {
            let ghost before = s@;
            let ghost done = entries_text(self.is_verbose(), all.take(i as int));
            proof {
                assert(all.take(i + 1).drop_last() =~= all.take(i as int));
                assert(all.take(i + 1).last() == results@[i as int]@);
            }
            if self.shows(&results[i]) {
                let entry = entry_string(&results[i]);
                push_text(&mut s, entry.as_str());
                proof {
                    assert(before + entry_text(results@[i as int]@) =~= summary_text(st) + (done
                        + entry_text(results@[i as int]@)));
                }
            } else {
                proof {
                    assert(done + Seq::<char>::empty() =~= done);
                }
            }
            i += 1;
        }
        proof {
            assert(all.take(n as int) =~= all);
        }
        s
    }
}

} // verus!
