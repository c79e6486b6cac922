//! The engine: a registry of checks in registration order, the choice of
//! those that a category filter lets through, and the collection of one
//! result for each of them, whatever became of its run.

use crate::checks::files::SuidFilesCheck;
use crate::checks::firewall::{FirewallPresenceCheck, NftablesRulesCheck};
use crate::checks::network::ListeningPortsCheck;
use crate::checks::policy::{PasswordPolicyCheck, SudoLoggingCheck};
use crate::checks::ssh::{SshPasswordAuthCheck, SshPortCheck, SshRootLoginCheck};
use crate::checks::system::{CpuUsageCheck, DiskUsageCheck, MemoryUsageCheck, RebootRequiredCheck};
use crate::checks::{default_checks, DefaultCheck};
use crate::collectors::Collectors;
use crate::model::{reports_for, result_views, AuditCheck, CheckResult, CheckResultView, Status};
use crate::text::{
    chars_of, decimal, eq_ignore_ascii_case, owned_texts, push_decimal, push_text,
    same_ignoring_ascii_case, started, views,
};
use vstd::prelude::*;

verus! {

/// The seconds that a check is given before it is abandoned.
pub const PER_CHECK_TIMEOUT_SECS: u64 = 5;

/// Whether one of `categories` is one of `wanted`, the case of ASCII letters
/// set aside.
pub open spec fn category_matches(categories: Seq<Seq<char>>, wanted: Seq<Seq<char>>) -> bool {
    exists|i: int, j: int|
        0 <= i < wanted.len() && 0 <= j < categories.len() && #[trigger] eq_ignore_ascii_case(
            categories[j],
            wanted[i],
        )
}

/// Whether a check of these categories is let through by `filter`: by no
/// filter every check is, by a filter those that share a category with it.
pub open spec fn is_selected(categories: Seq<Seq<char>>, filter: Option<Seq<Seq<char>>>) -> bool {
    match filter {
        None => true,
        Some(wanted) => category_matches(categories, wanted),
    }
}

/// The checks of `registry` that `filter` lets through, in their order.
pub open spec fn select<C: AuditCheck>(registry: Seq<C>, filter: Option<Seq<Seq<char>>>) -> Seq<C>
    decreases registry.len(),
{
    if registry.len() == 0 {
        Seq::empty()
    } else if is_selected(registry.last().spec_categories(), filter) {
        select(registry.drop_last(), filter).push(registry.last())
    } else {
        select(registry.drop_last(), filter)
    }
}

/// The positions in `registry` of the checks that `filter` lets through, in
/// rising order.
pub open spec fn selected_positions<C: AuditCheck>(
    registry: Seq<C>,
    filter: Option<Seq<Seq<char>>>,
) -> Seq<int>
    decreases registry.len(),
{
    if registry.len() == 0 {
        Seq::empty()
    } else if is_selected(registry.last().spec_categories(), filter) {
        selected_positions(registry.drop_last(), filter).push(registry.len() - 1)
    } else {
        selected_positions(registry.drop_last(), filter)
    }
}

/// Selection keeps exactly the checks that the filter lets through, each
/// once, in registration order: the selected positions rise, each holds a
/// check that the filter lets through, every such position is among them,
/// and the selected checks are the checks at these positions.
pub proof fn lemma_select_exact<C: AuditCheck>(registry: Seq<C>, filter: Option<Seq<Seq<char>>>)
    ensures
        select(registry, filter).len() == selected_positions(registry, filter).len(),
        forall|k: int|
            0 <= k < selected_positions(registry, filter).len() ==> {
                let p = #[trigger] selected_positions(registry, filter)[k];
                &&& 0 <= p < registry.len()
                &&& is_selected(registry[p].spec_categories(), filter)
                &&& select(registry, filter)[k] == registry[p]
            },
        forall|k: int, l: int|
            0 <= k < l < selected_positions(registry, filter).len() ==> selected_positions(
                registry,
                filter,
            )[k] < selected_positions(registry, filter)[l],
        forall|p: int|
            0 <= p < registry.len() && is_selected(#[trigger] registry[p].spec_categories(), filter)
                ==> selected_positions(registry, filter).contains(p),
    decreases registry.len(),
{
    if registry.len() > 0 {
        let rest = registry.drop_last();
        lemma_select_exact(rest, filter);
        let ps = selected_positions(registry, filter);
        let qs = selected_positions(rest, filter);
        assert forall|k: int| 0 <= k < ps.len() implies {
            let p = #[trigger] ps[k];
            &&& 0 <= p < registry.len()
            &&& is_selected(registry[p].spec_categories(), filter)
            &&& select(registry, filter)[k] == registry[p]
        } by {
            if k < qs.len() {
                assert(ps[k] == qs[k]);
                assert(rest[qs[k]] == registry[qs[k]]);
            }
        }
        assert forall|k: int, l: int| 0 <= k < l < ps.len() implies ps[k] < ps[l] by {
            if l < qs.len() {
                assert(ps[k] == qs[k] && ps[l] == qs[l]);
            } else {
                assert(ps[k] == qs[k]);
            }
        }
        assert forall|p: int|
            0 <= p < registry.len() && is_selected(
                #[trigger] registry[p].spec_categories(),
                filter,
            ) implies ps.contains(p) by {
            if p < rest.len() {
                assert(rest[p] == registry[p]);
                assert(qs.contains(p));
                let k = choose|k: int| 0 <= k < qs.len() && qs[k] == p;
                assert(ps[k] == p);
            } else {
                assert(ps[ps.len() - 1] == p);
            }
        }
    }
}

/// Every check that selection keeps is let through by the filter.
pub proof fn lemma_select_all_selected<C: AuditCheck>(
    registry: Seq<C>,
    filter: Option<Seq<Seq<char>>>,
)
    ensures
        forall|k: int|
            0 <= k < select(registry, filter).len() ==> is_selected(
                (#[trigger] select(registry, filter)[k]).spec_categories(),
                filter,
            ),
    decreases registry.len(),
{
    if registry.len() > 0 {
        let rest = select(registry.drop_last(), filter);
        lemma_select_all_selected(registry.drop_last(), filter);
        assert forall|k: int| 0 <= k < select(registry, filter).len() implies is_selected(
            (#[trigger] select(registry, filter)[k]).spec_categories(),
            filter,
        ) by {
            if k < rest.len() {
                assert(select(registry, filter)[k] == rest[k]);
            }
        }
    }
}

/// A registry whose checks are all let through is selected whole.
pub proof fn lemma_select_keeps_selected<C: AuditCheck>(
    registry: Seq<C>,
    filter: Option<Seq<Seq<char>>>,
)
    requires
        forall|k: int|
            0 <= k < registry.len() ==> is_selected(
                (#[trigger] registry[k]).spec_categories(),
                filter,
            ),
    ensures
        select(registry, filter) == registry,
    decreases registry.len(),
{
    if registry.len() > 0 {
        let rest = registry.drop_last();
        assert forall|k: int| 0 <= k < rest.len() implies is_selected(
            (#[trigger] rest[k]).spec_categories(),
            filter,
        ) by {
            assert(rest[k] == registry[k]);
        }
        lemma_select_keeps_selected(rest, filter);
        assert(registry.last() == registry[registry.len() - 1]);
        assert(rest.push(registry.last()) =~= registry);
    } else {
        assert(select(registry, filter) =~= registry);
    }
}

/// Selecting twice is selecting once.
pub proof fn lemma_select_idempotent<C: AuditCheck>(
    registry: Seq<C>,
    filter: Option<Seq<Seq<char>>>,
)
    ensures
        select(select(registry, filter), filter) == select(registry, filter),
{
    lemma_select_all_selected(registry, filter);
    lemma_select_keeps_selected(select(registry, filter), filter);
}

/// Without a filter every check is selected.
pub proof fn lemma_select_without_filter<C: AuditCheck>(registry: Seq<C>)
    ensures
        select(registry, None) == registry,
{
    lemma_select_keeps_selected(registry, None);
}

/// What came of the run of one check.
#[derive(Debug, Clone)]
pub enum Outcome {
    /// The check returned this result within its time.
    Completed(CheckResult),
    /// The time ran out before the check returned.
    TimedOut,
    /// The check ended without a result.
    Crashed,
}

/// The reason given for a check that yielded no result.
pub open spec fn timeout_reason() -> Seq<char> {
    "Check timed out after "@ + decimal(PER_CHECK_TIMEOUT_SECS as nat) + "s"@
}

/// The result that stands in for a check that yielded none.
pub open spec fn timeout_view(
    id: Seq<char>,
    title: Seq<char>,
    categories: Seq<Seq<char>>,
) -> CheckResultView {
    CheckResultView {
        id,
        title,
        categories,
        status: Status::Skip,
        reason: timeout_reason(),
        remediation: Some("Re-run with narrower categories or open an issue if this persists"@),
        evidence: None,
    }
}

/// The result recorded for `check` after `outcome`: what the check returned,
/// or the stand-in where it returned nothing.
pub open spec fn settled<C: AuditCheck>(check: C, outcome: Outcome) -> CheckResultView {
    match outcome {
        Outcome::Completed(r) => r@,
        _ => timeout_view(check.spec_id(), check.spec_title(), check.spec_categories()),
    }
}

/// The results recorded for the checks of `plan` after `outcomes`, one for
/// each check that has an outcome.
pub open spec fn results_of<C: AuditCheck>(plan: Seq<C>, outcomes: Seq<Outcome>) -> Seq<
    CheckResultView,
> {
    Seq::new(
        if outcomes.len() <= plan.len() {
            outcomes.len()
        } else {
            plan.len()
        },
        |k: int| settled(plan[k], outcomes[k]),
    )
}

/// There is one result for each check that was run, in the order of the
/// plan, whatever the outcomes were; and the result of a check depends on
/// its own outcome only.
pub proof fn lemma_results_isolated<C: AuditCheck>(
    plan: Seq<C>,
    first: Seq<Outcome>,
    second: Seq<Outcome>,
    k: int,
)
    requires
        first.len() == plan.len(),
        second.len() == plan.len(),
        0 <= k < plan.len(),
        first[k] == second[k],
    ensures
        results_of(plan, first).len() == plan.len(),
        results_of(plan, second).len() == plan.len(),
        results_of(plan, first)[k] == results_of(plan, second)[k],
        results_of(plan, first)[k] == settled(plan[k], first[k]),
{
}

/// Recording one more outcome adds the result for the next check of the plan
/// and leaves the results before it as they are.
pub proof fn lemma_results_grow<C: AuditCheck>(plan: Seq<C>, outcomes: Seq<Outcome>, next: Outcome)
    requires
        outcomes.len() < plan.len(),
    ensures
        results_of(plan, outcomes.push(next)) == results_of(plan, outcomes).push(
            settled(plan[outcomes.len() as int], next),
        ),
{
    assert(results_of(plan, outcomes.push(next)) =~= results_of(plan, outcomes).push(
        settled(plan[outcomes.len() as int], next),
    ));
}

/// A check that yielded no result is reported once, as skipped, under its
/// own name, with a reason that holds the time limit.
pub proof fn lemma_missing_result_is_skip<C: AuditCheck>(check: C, outcome: Outcome)
    requires
        !(outcome is Completed),
    ensures
        settled(check, outcome).status == Status::Skip,
        settled(check, outcome).id == check.spec_id(),
        crate::text::contains(
            settled(check, outcome).reason,
            decimal(PER_CHECK_TIMEOUT_SECS as nat),
        ),
        settled(check, outcome).reason.len() > 0,
{
    let head = "Check timed out after "@;
    let num = decimal(PER_CHECK_TIMEOUT_SECS as nat);
    let reason = timeout_reason();
    crate::text::lemma_decimal_nonempty(PER_CHECK_TIMEOUT_SECS as nat);
    assert(reason.subrange(head.len() as int, (head.len() + num.len()) as int) =~= num);
    assert(crate::text::matches_at(reason, num, head.len() as int));
}

/// Whether `results` is what a run of the checks of `plan` on `ctx` may
/// report when every check returns: one result for each check, in order, each
/// a report of its check, and the very report where the snapshot decides it.
pub open spec fn is_report_of<C: AuditCheck>(
    plan: Seq<C>,
    ctx: &Collectors,
    results: Seq<CheckResultView>,
) -> bool {
    &&& results.len() == plan.len()
    &&& forall|k: int|
        0 <= k < plan.len() ==> {
            &&& reports_for(
                (#[trigger] plan[k]).spec_id(),
                plan[k].spec_title(),
                plan[k].spec_categories(),
                results[k],
            )
            &&& (plan[k].spec_run(ctx) matches Some(v) ==> results[k] == v)
        }
}

/// Two runs of the same checks on the same snapshot report the same, in
/// order and content, where the snapshot decides what each check reports.
pub proof fn lemma_runs_agree<C: AuditCheck>(
    plan: Seq<C>,
    ctx: &Collectors,
    first: Seq<CheckResultView>,
    second: Seq<CheckResultView>,
)
    requires
        is_report_of(plan, ctx, first),
        is_report_of(plan, ctx, second),
        forall|k: int| 0 <= k < plan.len() ==> (#[trigger] plan[k]).spec_run(ctx) is Some,
    ensures
        first == second,
{
    assert forall|k: int| 0 <= k < plan.len() implies first[k] == second[k] by {
        assert(plan[k].spec_run(ctx) is Some);
    }
    assert(first =~= second);
}

/// A registry of checks and an optional category filter.
pub struct AuditEngine<C: AuditCheck> {
    categories_filter: Option<Vec<String>>,
    checks: Vec<C>,
}

/// A run of the selected checks of an engine, in progress: the checks to
/// run, in order, and the results recorded so far.
pub struct AuditRun<'a, C: AuditCheck> {
    engine: &'a AuditEngine<C>,
    order: Vec<usize>,
    results: Vec<CheckResult>,
}

/// Decides [`category_matches`] for the categories of a check.
fn matches_any(categories: &[&str], wanted: &Vec<String>) -> (r: bool)
    ensures
        r == category_matches(categories.deep_view(), views(wanted@)),
{
    let ghost cs = categories.deep_view();
    let ghost ws = views(wanted@);
    let mut i: usize = 0;
    while i < wanted.len()
        invariant
            i <= wanted@.len(),
            cs == categories.deep_view(),
            ws == views(wanted@),
            forall|a: int, b: int|
                0 <= a < i && 0 <= b < cs.len() ==> !#[trigger] eq_ignore_ascii_case(cs[b], ws[a]),
        decreases wanted@.len() - i,
    {
        let w = chars_of(wanted[i].as_str());
        let mut j: usize = 0;
        while j < categories.len()
            invariant
                i < wanted@.len(),
                j <= categories@.len(),
                cs == categories.deep_view(),
                ws == views(wanted@),
                w@ == ws[i as int],
                forall|b: int| 0 <= b < j ==> !#[trigger] eq_ignore_ascii_case(cs[b], ws[i as int]),
            decreases categories@.len() - j,
        {
            let c = chars_of(categories[j]);
            if same_ignoring_ascii_case(c.as_slice(), w.as_slice()) {
                proof {
                    assert(eq_ignore_ascii_case(cs[j as int], ws[i as int]));
                }
                return true;
            }
            j += 1;
        }
        i += 1;
    }
    false
}

impl<C: AuditCheck> AuditEngine<C> {
    /// The filter as texts.
    pub closed spec fn filter(&self) -> Option<Seq<Seq<char>>> {
        match self.categories_filter {
            Some(v) => Some(views(v@)),
            None => None,
        }
    }

    /// The registered checks, in registration order.
    pub closed spec fn registry(&self) -> Seq<C> {
        self.checks@
    }

    /// An engine without checks. With a filter it will run the checks that
    /// share a category with the filter, without one every check.
    pub fn new(categories_filter: Option<Vec<String>>) -> (e: Self)
        ensures
            e.registry() == Seq::<C>::empty(),
            e.filter() == match categories_filter {
                Some(v) => Some(views(v@)),
                None => None,
            },
    {
        Self { categories_filter, checks: Vec::new() }
    }

    /// Adds a check after those already registered.
    pub fn register(&mut self, check: C)
        ensures
            final(self).registry() == old(self).registry().push(check),
            final(self).filter() == old(self).filter(),
    {
        self.checks.push(check);
    }

    /// How many checks are registered.
    pub fn len(&self) -> (n: usize)
        ensures
            n == self.registry().len(),
    {
        self.checks.len()
    }

    /// The check registered at `index`, where there is one.
    pub fn check(&self, index: usize) -> (r: Option<&C>)
        ensures
            match r {
                Some(c) => index < self.registry().len() && *c == self.registry()[index as int],
                None => index >= self.registry().len(),
            },
    {
        if index < self.checks.len() {
            Some(&self.checks[index])
        } else {
            None
        }
    }

    /// Whether the filter lets `check` through.
    pub fn selects(&self, check: &C) -> (r: bool)
        ensures
            r == is_selected(check.spec_categories(), self.filter()),
    {
        match &self.categories_filter {
            None => true,
            Some(wanted) => matches_any(check.categories(), wanted),
        }
    }

    /// The positions of the checks that the filter lets through, in
    /// registration order.
    pub fn selected(&self) -> (r: Vec<usize>)
        ensures
            r@.len() == selected_positions(self.registry(), self.filter()).len(),
            forall|k: int|
                0 <= k < r@.len() ==> #[trigger] r@[k] as int == selected_positions(
                    self.registry(),
                    self.filter(),
                )[k],
    {
        let n = self.checks.len();
        let mut out: Vec<usize> = Vec::new();
        let mut i: usize = 0;
        let ghost reg = self.checks@;
        let ghost f = self.filter();
        proof {
            assert(reg.take(0) =~= Seq::<C>::empty());
        }
        while i < n
            invariant
                n == self.checks@.len(),
                i <= n,
                reg == self.checks@,
                f == self.filter(),
                out@.len() == selected_positions(reg.take(i as int), f).len(),
                forall|k: int|
                    0 <= k < out@.len() ==> #[trigger] out@[k] as int == selected_positions(
                        reg.take(i as int),
                        f,
                    )[k],
            decreases n - i,
        {
            proof {
                assert(reg.take(i + 1).drop_last() =~= reg.take(i as int));
                assert(reg.take(i + 1).last() == reg[i as int]);
            }
            if self.selects(&self.checks[i]) {
                out.push(i);
            }
            i += 1;
        }
        proof {
            assert(reg.take(n as int) =~= reg);
        }
        out
    }

    /// The checks that the filter lets through, in registration order.
    pub fn select(&self) -> (r: Vec<&C>)
        ensures
            r@.len() == select(self.registry(), self.filter()).len(),
            forall|k: int|
                0 <= k < r@.len() ==> *(#[trigger] r@[k]) == select(
                    self.registry(),
                    self.filter(),
                )[k],
    {
        let order = self.selected();
        let mut out: Vec<&C> = Vec::new();
        let mut k: usize = 0;
        proof {
            lemma_select_exact(self.registry(), self.filter());
        }
        while k < order.len()
            invariant
                k <= order@.len(),
                order@.len() == select(self.registry(), self.filter()).len(),
                forall|j: int|
                    0 <= j < order@.len() ==> (#[trigger] order@[j]) < self.checks@.len()
                        && self.checks@[order@[j] as int] == select(
                        self.registry(),
                        self.filter(),
                    )[j],
                out@.len() == k,
                forall|j: int|
                    0 <= j < k ==> *(#[trigger] out@[j]) == select(
                        self.registry(),
                        self.filter(),
                    )[j],
            decreases order@.len() - k,
        {
            out.push(&self.checks[order[k]]);
            k += 1;
        }
        out
    }

    /// The result that stands in for `check` when it yielded none: skipped,
    /// with the time limit as the reason.
    pub fn timeout_result(check: &C) -> (r: CheckResult)
        ensures
            r@ == timeout_view(check.spec_id(), check.spec_title(), check.spec_categories()),
    {
        let mut reason = started("Check timed out after ");
        push_decimal(&mut reason, PER_CHECK_TIMEOUT_SECS);
        push_text(&mut reason, "s");
        CheckResult {
            id: check.id().to_owned(),
            title: check.title().to_owned(),
            categories: owned_texts(check.categories()),
            status: Status::Skip,
            reason,
            remediation: Some(
                "Re-run with narrower categories or open an issue if this persists".to_owned(),
            ),
            evidence: None,
        }
    }

    /// The result to record for `check` after `outcome`.
    pub fn settle(check: &C, outcome: Outcome) -> (r: CheckResult)
        ensures
            r@ == settled(*check, outcome),
    {
        match outcome {
            Outcome::Completed(r) => r,
            _ => Self::timeout_result(check),
        }
    }

    /// Starts a run of the checks that the filter lets through.
    pub fn begin(&self) -> (run: AuditRun<'_, C>)
        ensures
            run.plan() == select(self.registry(), self.filter()),
            run.results() == Seq::<CheckResultView>::empty(),
    {
        let order = self.selected();
        proof {
            lemma_select_exact(self.registry(), self.filter());
            let ps = selected_positions(self.registry(), self.filter());
            assert forall|k: int| 0 <= k < order@.len() implies (#[trigger] order@[k])
                < self.checks@.len() by {
                assert(order@[k] as int == ps[k]);
            }
            assert(Seq::new(order@.len(), |k: int| self.checks@[order@[k] as int]) =~= select(
                self.registry(),
                self.filter(),
            )) by {
                assert forall|k: int| 0 <= k < order@.len() implies self.checks@[order@[k] as int]
                    == select(self.registry(), self.filter())[k] by {
                    assert(order@[k] as int == ps[k]);
                }
            }
        }
        let run = AuditRun { engine: self, order, results: Vec::new() };
        proof {
            assert(run.results() =~= Seq::<CheckResultView>::empty());
        }
        run
    }

    /// Runs every check that the filter lets through on `ctx`, one after the
    /// other, each to its end, and returns their results in registration
    /// order.
    pub fn run_all(&self, ctx: &Collectors) -> (results: Vec<CheckResult>)
        ensures
            is_report_of(select(self.registry(), self.filter()), ctx, result_views(results@)),
    {
        let mut run = self.begin();
        let ghost plan = run.plan();
        loop
            invariant
                run.plan() == plan,
                run.results().len() <= plan.len(),
                forall|k: int|
                    0 <= k < run.results().len() ==> {
                        &&& reports_for(
                            (#[trigger] plan[k]).spec_id(),
                            plan[k].spec_title(),
                            plan[k].spec_categories(),
                            run.results()[k],
                        )
                        &&& (plan[k].spec_run(ctx) matches Some(v) ==> run.results()[k] == v)
                    },
            ensures
                run.plan() == plan,
                run.results().len() == plan.len(),
                forall|k: int|
                    0 <= k < run.results().len() ==> {
                        &&& reports_for(
                            (#[trigger] plan[k]).spec_id(),
                            plan[k].spec_title(),
                            plan[k].spec_categories(),
                            run.results()[k],
                        )
                        &&& (plan[k].spec_run(ctx) matches Some(v) ==> run.results()[k] == v)
                    },
            decreases plan.len() - run.results().len(),
        {
            match run.next() {
                Some(check) => {
                    let result = check.run(ctx);
                    run.record(Outcome::Completed(result));
                },
                None => {
                    break ;
                },
            }
        }
        run.finish()
    }
}

impl AuditEngine<DefaultCheck> {
    /// Registers the checks that come with the crate, in their fixed order,
    /// after those already registered.
    pub fn register_default_checks(&mut self)
        ensures
            final(self).registry() == old(self).registry() + default_checks(),
            final(self).filter() == old(self).filter(),
    {
        self.register(DefaultCheck::SshRootLogin(SshRootLoginCheck));
        self.register(DefaultCheck::SshPasswordAuth(SshPasswordAuthCheck));
        self.register(DefaultCheck::SshPort(SshPortCheck));
        self.register(DefaultCheck::RebootRequired(RebootRequiredCheck));
        self.register(DefaultCheck::DiskUsage(DiskUsageCheck));
        self.register(DefaultCheck::MemoryUsage(MemoryUsageCheck));
        self.register(DefaultCheck::CpuUsage(CpuUsageCheck));
        self.register(DefaultCheck::SudoLogging(SudoLoggingCheck));
        self.register(DefaultCheck::PasswordPolicy(PasswordPolicyCheck));
        self.register(DefaultCheck::SuidFiles(SuidFilesCheck));
        self.register(DefaultCheck::ListeningPorts(ListeningPortsCheck));
        self.register(DefaultCheck::FirewallPresence(FirewallPresenceCheck));
        self.register(DefaultCheck::NftablesRules(NftablesRulesCheck));
        proof {
            assert(self.registry() =~= old(self).registry() + default_checks());
        }
    }
}

impl<'a, C: AuditCheck> AuditRun<'a, C> {
    #[verifier::type_invariant]
    spec fn sound(&self) -> bool {
        &&& self.results@.len() <= self.order@.len()
        &&& forall|k: int|
            0 <= k < self.order@.len() ==> (#[trigger] self.order@[k]) < self.engine.checks@.len()
    }

    /// The checks of this run, in the order in which they are run.
    pub closed spec fn plan(&self) -> Seq<C> {
        Seq::new(self.order@.len(), |k: int| self.engine.checks@[self.order@[k] as int])
    }

    /// The results recorded so far.
    pub closed spec fn results(&self) -> Seq<CheckResultView> {
        result_views(self.results@)
    }

    /// The check to run next; `None` when every check of the plan has its
    /// result.
    pub fn next(&self) -> (r: Option<&'a C>)
        ensures
            self.results().len() <= self.plan().len(),
            match r {
                Some(c) => self.results().len() < self.plan().len() && *c == self.plan()[self.results().len() as int],
                None => self.results().len() == self.plan().len(),
            },
    {
        proof {
            use_type_invariant(self);
        }
        let k = self.results.len();
        if k < self.order.len() {
            Some(&self.engine.checks[self.order[k]])
        } else {
            None
        }
    }

    /// Records what came of the check that [`next`](Self::next) named: its
    /// result, or the stand-in where it yielded none. A run that is complete
    /// stays as it is.
    pub fn record(&mut self, outcome: Outcome)
        ensures
            final(self).plan() == old(self).plan(),
            final(self).results() == if old(self).results().len() < old(self).plan().len() {
                old(self).results().push(
                    settled(old(self).plan()[old(self).results().len() as int], outcome),
                )
            } else {
                old(self).results()
            },
    {
        proof {
            use_type_invariant(&*self);
        }
        let k = self.results.len();
        if k < self.order.len() {
            let check = &self.engine.checks[self.order[k]];
            let r = AuditEngine::<C>::settle(check, outcome);
            let mut recorded: Vec<CheckResult> = Vec::new();
            core::mem::swap(&mut self.results, &mut recorded);
            recorded.push(r);
            core::mem::swap(&mut self.results, &mut recorded);
            proof {
                assert(result_views(self.results@) =~= result_views(old(self).results@).push(r@));
            }
        }
    }

    /// Ends the run and hands out the results recorded, in the order of the
    /// plan.
    pub fn finish(self) -> (r: Vec<CheckResult>)
        ensures
            result_views(r@) == self.results(),
    {
        self.results
    }
}

} // verus!
