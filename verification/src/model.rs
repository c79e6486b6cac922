//! What a check is and what it reports.

use crate::collectors::Collectors;
use crate::text::views;
use vstd::prelude::*;

verus! {

/// The outcome of one check.
#[derive(Debug, Clone, Copy, PartialEq, Eq, Structural)]
pub enum Status {
    Pass,
    Warn,
    Fail,
    Skip,
}

impl Status {
    /// Whether this is `Fail`.
    pub fn is_fail(&self) -> (r: bool)
        ensures
            r == (*self == Status::Fail),
    {
        matches!(self, Status::Fail)
    }

    /// Whether this is `Warn`.
    pub fn is_warn(&self) -> (r: bool)
        ensures
            r == (*self == Status::Warn),
    {
        matches!(self, Status::Warn)
    }
}

/// The report of one check on one snapshot.
#[derive(Debug, Clone, PartialEq)]
pub struct CheckResult {
    pub id: String,
    pub title: String,
    pub categories: Vec<String>,
    pub status: Status,
    pub reason: String,
    pub remediation: Option<String>,
    pub evidence: Option<serde_json::Value>,
}

/// A [`CheckResult`] as plain values.
pub struct CheckResultView {
    pub id: Seq<char>,
    pub title: Seq<char>,
    pub categories: Seq<Seq<char>>,
    pub status: Status,
    pub reason: Seq<char>,
    pub remediation: Option<Seq<char>>,
    pub evidence: Option<serde_json::Value>,
}

impl View for CheckResult {
    type V = CheckResultView;

    open spec fn view(&self) -> CheckResultView {
        CheckResultView {
            id: self.id@,
            title: self.title@,
            categories: views(self.categories@),
            status: self.status,
            reason: self.reason@,
            remediation: match self.remediation {
                Some(s) => Some(s@),
                None => None,
            },
            evidence: self.evidence,
        }
    }
}

/// The report of a check with the given identity.
pub open spec fn report_view(
    id: Seq<char>,
    title: Seq<char>,
    categories: Seq<Seq<char>>,
    status: Status,
    reason: Seq<char>,
    remediation: Option<Seq<char>>,
    evidence: Option<serde_json::Value>,
) -> CheckResultView {
    CheckResultView { id, title, categories, status, reason, remediation, evidence }
}

impl CheckResult {
    /// A result of the check with this id, title and categories.
    pub fn of(
        id: &str,
        title: &str,
        categories: &[&str],
        status: Status,
        reason: String,
        remediation: Option<String>,
        evidence: Option<serde_json::Value>,
    ) -> (r: CheckResult)
        ensures
            r@ == report_view(
                id@,
                title@,
                categories.deep_view(),
                status,
                reason@,
                crate::text::opt_view(remediation),
                evidence,
            ),
    {
        CheckResult {
            id: id.to_owned(),
            title: title.to_owned(),
            categories: crate::text::owned_texts(categories),
            status,
            reason,
            remediation,
            evidence,
        }
    }
}

/// The views of a list of results.
pub open spec fn result_views(results: Seq<CheckResult>) -> Seq<CheckResultView> {
    Seq::new(results.len(), |i: int| results[i]@)
}

/// Whether `r` is a report that the check with this identity may give: it
/// carries the check's id, title and categories, and it states a reason.
pub open spec fn reports_for(
    id: Seq<char>,
    title: Seq<char>,
    categories: Seq<Seq<char>>,
    r: CheckResultView,
) -> bool {
    &&& r.id == id
    &&& r.title == title
    &&& r.categories == categories
    &&& r.reason.len() > 0
}

/// One audit rule: a name, a title, categories, and a run on a snapshot.
///
/// The crate's own checks are proved to meet the contracts below. A check
/// written elsewhere is trusted to meet them: the engine's guarantees about
/// what a result carries hold only as far as its checks keep this contract.
///
/// The four `spec_` functions say in contracts what the four methods return.
/// A verified check defines them. A check written in plain Rust leaves them
/// out: its id, title and categories are then some texts of which nothing is
/// known, and no report of it is taken to be decided by the snapshot.
pub trait AuditCheck: Send + Sync {
    /// The id as a text.
    open spec fn spec_id(&self) -> Seq<char> {
        arbitrary()
    }

    /// The title as a text.
    open spec fn spec_title(&self) -> Seq<char> {
        arbitrary()
    }

    /// The categories as texts.
    open spec fn spec_categories(&self) -> Seq<Seq<char>> {
        arbitrary()
    }

    /// What `run` reports on a snapshot, where the snapshot alone decides it;
    /// `None` where the check reads something else as well.
    open spec fn spec_run(&self, ctx: &Collectors) -> Option<CheckResultView> {
        None
    }

    /// A stable, unique name.
    fn id(&self) -> (r: &'static str)
        ensures
            r@ == self.spec_id(),
    ;

    /// The name shown to people.
    fn title(&self) -> (r: &'static str)
        ensures
            r@ == self.spec_title(),
    ;

    /// The categories the check belongs to: one at least.
    fn categories(&self) -> (r: &'static [&'static str])
        ensures
            r.deep_view() == self.spec_categories(),
            r@.len() > 0,
    ;

    /// Runs the check on a snapshot. It never fails: what goes wrong inside
    /// becomes a result with a reason.
    fn run(&self, ctx: &Collectors) -> (r: CheckResult)
        ensures
            reports_for(self.spec_id(), self.spec_title(), self.spec_categories(), r@),
            self.spec_run(ctx) matches Some(v) ==> r@ == v,
    ;
}

} // verus!
