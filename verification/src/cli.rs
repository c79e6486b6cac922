//! What a command-line front end decides: which categories were asked for,
//! what the interactive menu means, and how a run ends.

use crate::model::{CheckResult, CheckResultView, Status};
use crate::report::{count_of, status_label, statuses, Reporter};
use crate::text::{
    chars_of, eq_ignore_ascii_case, find, position, push_text, same_ignoring_ascii_case,
    started, string_of, trim, trimmed, views,
};
use vstd::prelude::*;
use vstd::slice::slice_subrange;

verus! {

/// The file to which a report is saved where no other is named.
pub const DEFAULT_REPORT_PATH: &'static str = "vps-audit-report.txt";

/// The categories that the menu offers, in its order.
pub open spec fn offered_categories() -> Seq<Seq<char>> {
    seq!["security"@, "performance"@, "config"@, "linux"@, "network"@]
}

/// The categories that the menu offers, in its order.
pub fn known_categories() -> (r: &'static [&'static str])
    ensures
        r.deep_view() == offered_categories(),
{
    &["security", "performance", "config", "linux", "network"]
}

/// The pieces of `s` between the characters `c`: one more piece than there
/// are such characters.
pub open spec fn pieces(s: Seq<char>, c: char) -> Seq<Seq<char>>
    decreases s.len(),
{
    if find(s, c) >= s.len() {
        seq![s]
    } else {
        seq![s.take(find(s, c))] + pieces(s.skip(find(s, c) + 1), c)
    }
}

/// Each of `items`, trimmed, but for those that are empty then.
pub open spec fn trimmed_nonempty(items: Seq<Seq<char>>) -> Seq<Seq<char>>
    decreases items.len(),
{
    if items.len() == 0 {
        Seq::empty()
    } else if trim(items.last()).len() == 0 {
        trimmed_nonempty(items.drop_last())
    } else {
        trimmed_nonempty(items.drop_last()).push(trim(items.last()))
    }
}

/// The categories that an argument names: its pieces between commas, each
/// trimmed, the empty ones left out.
pub open spec fn categories_of(arg: Seq<char>) -> Seq<Seq<char>> {
    trimmed_nonempty(pieces(arg, ','))
}

/// Computes [`categories_of`].
pub fn parse_categories(arg: &str) -> (r: Vec<String>)
    ensures
        views(r@) == categories_of(arg@),
{
    let chars = chars_of(arg);
    let s = chars.as_slice();
    let n = s.len();
    let mut out: Vec<String> = Vec::new();
    let mut pos: usize = 0;
    let ghost mut seen: Seq<Seq<char>> = Seq::empty();
    proof {
        assert(s@.skip(0) =~= s@);
        assert(seen + pieces(s@.skip(0), ',') =~= pieces(s@, ','));
        assert(views(out@) =~= trimmed_nonempty(seen));
    }
    loop
        invariant_except_break
            seen + pieces(s@.skip(pos as int), ',') == pieces(s@, ','),
        invariant
            n == s@.len(),
            pos <= n,
            s@ == arg@,
            views(out@) == trimmed_nonempty(seen),
        ensures
            views(out@) == categories_of(arg@),
        decreases n - pos,
    {
        let rest = slice_subrange(s, pos, n);
        proof {
            assert(rest@ =~= s@.skip(pos as int));
        }
        let i = position(rest, ',');
        let piece = slice_subrange(rest, 0, i);
        let t = trimmed(piece);
        let ghost before = views(out@);
        let ghost seen_before = seen;
        proof {
            seen = seen.push(piece@);
            assert(seen.drop_last() =~= seen_before);
        }
        if t.len() > 0 {
            let owned = string_of(t);
            out.push(owned);
            proof {
                assert(views(out@) =~= before.push(t@));
            }
        }
        if i >= rest.len() {
            proof {
                assert(piece@ =~= rest@);
                assert(seen_before + seq![rest@] =~= seen);
                assert(seen == pieces(s@, ','));
            }
            break ;
        }
        proof {
            assert(rest@.skip(i + 1) =~= s@.skip(pos + i + 1));
            assert(seen_before + (seq![piece@] + pieces(s@.skip(pos + i + 1), ',')) =~= seen
                + pieces(s@.skip(pos + i + 1), ','));
        }
        pos = pos + i + 1;
    }
    out
}

/// Whether `name` is among `preset`, the case of ASCII letters set aside.
pub open spec fn is_preset(preset: Seq<Seq<char>>, name: Seq<char>) -> bool {
    exists|i: int| 0 <= i < preset.len() && eq_ignore_ascii_case(#[trigger] preset[i], name)
}

/// For each category that the menu offers, whether it starts out ticked: it
/// does where it is among the categories asked for; none does where none
/// was asked for.
pub fn preselected(preset: &Option<Vec<String>>) -> (r: Vec<bool>)
    ensures
        r@.len() == offered_categories().len(),
        forall|k: int|
            0 <= k < r@.len() ==> #[trigger] r@[k] == match *preset {
                Some(p) => is_preset(views(p@), offered_categories()[k]),
                None => false,
            },
{
    let all = known_categories();
    let mut out: Vec<bool> = Vec::new();
    let mut k: usize = 0;
    while k < all.len()
        invariant
            k <= all@.len(),
            all.deep_view() == offered_categories(),
            out@.len() == k,
            forall|j: int|
                0 <= j < k ==> #[trigger] out@[j] == match *preset {
                    Some(p) => is_preset(views(p@), offered_categories()[j]),
                    None => false,
                },
        decreases all@.len() - k,
    {
        let ticked = match preset {
            None => false,
            Some(p) => {
                let name = chars_of(all[k]);
                proof {
                    assert(name@ == all.deep_view()[k as int]);
                }
                let mut found = false;
                let mut i: usize = 0;
                while i < p.len() && !found
                    invariant
                        i <= p@.len(),
                        name@ == offered_categories()[k as int],
                        found ==> is_preset(views(p@), name@),
                        !found ==> forall|j: int|
                            0 <= j < i ==> !eq_ignore_ascii_case(#[trigger] views(p@)[j], name@),
                    decreases p@.len() - i + if found { 0int } else { 1int },
                {
                    let c = chars_of(p[i].as_str());
                    if same_ignoring_ascii_case(c.as_slice(), name.as_slice()) {
                        proof {
                            assert(eq_ignore_ascii_case(views(p@)[i as int], name@));
                        }
                        found = true;
                    } else {
                        i += 1;
                    }
                }
                found
            },
        };
        out.push(ticked);
        k += 1;
    }
    out
}

/// The categories at the positions ticked, in the order of the ticks; a
/// position that names no category is passed over.
pub open spec fn ticked_categories(ticks: Seq<usize>) -> Seq<Seq<char>>
    decreases ticks.len(),
{
    if ticks.len() == 0 {
        Seq::empty()
    } else if ticks.last() < offered_categories().len() {
        ticked_categories(ticks.drop_last()).push(offered_categories()[ticks.last() as int])
    } else {
        ticked_categories(ticks.drop_last())
    }
}

/// The filter that the ticks of the menu stand for: no filter where nothing
/// is ticked, else the categories ticked.
pub fn chosen_categories(ticks: &[usize]) -> (r: Option<Vec<String>>)
    ensures
        match r {
            Some(v) => ticks@.len() > 0 && views(v@) == ticked_categories(ticks@),
            None => ticks@.len() == 0,
        },
{
    if ticks.len() == 0 {
        return None;
    }
    let all = known_categories();
    let mut out: Vec<String> = Vec::new();
    let mut i: usize = 0;
    proof {
        assert(ticks@.take(0) =~= Seq::<usize>::empty());
        assert(views(out@) =~= ticked_categories(ticks@.take(0)));
    }
    while i < ticks.len()
        invariant
            i <= ticks@.len(),
            all.deep_view() == offered_categories(),
            views(out@) == ticked_categories(ticks@.take(i as int)),
        decreases ticks@.len() - i,
    {
        let ghost before = views(out@);
        proof {
            assert(ticks@.take(i + 1).drop_last() =~= ticks@.take(i as int));
            assert(ticks@.take(i + 1).last() == ticks@[i as int]);
        }
        if ticks[i] < all.len() {
            let name = all[ticks[i]].to_owned();
            proof {
                assert(name@ == all.deep_view()[ticks@[i as int] as int]);
            }
            out.push(name);
            proof {
                assert(views(out@) =~= before.push(offered_categories()[ticks@[i as int] as int]));
            }
        }
        i += 1;
    }
    proof {
        assert(ticks@.take(ticks@.len() as int) =~= ticks@);
    }
    Some(out)
}

/// What a choice in the menu asks for.
#[derive(Debug, Clone, Copy, PartialEq, Eq, Structural)]
pub enum WizardAction {
    ViewFailures,
    ViewWarnings,
    SaveReport,
    RerunChecks,
    ChooseCategories,
    Exit,
}

/// The entries of the menu, in order.
pub open spec fn menu_entries() -> Seq<Seq<char>> {
    seq![
        "View failures"@,
        "View warnings"@,
        "Save report"@,
        "Rerun checks"@,
        "Choose categories"@,
        "Exit"@,
    ]
}

/// The entries of the menu, in order.
pub fn wizard_options() -> (r: &'static [&'static str])
    ensures
        r.deep_view() == menu_entries(),
{
    &["View failures", "View warnings", "Save report", "Rerun checks", "Choose categories", "Exit"]
}

impl WizardAction {
    /// The action of the menu entry at `choice`; leaving, for a position
    /// past the entries.
    pub fn of_choice(choice: usize) -> (r: WizardAction)
        ensures
            r == if choice == 0 {
                WizardAction::ViewFailures
            } else if choice == 1 {
                WizardAction::ViewWarnings
            } else if choice == 2 {
                WizardAction::SaveReport
            } else if choice == 3 {
                WizardAction::RerunChecks
            } else if choice == 4 {
                WizardAction::ChooseCategories
            } else {
                WizardAction::Exit
            },
    {
        if choice == 0 {
            WizardAction::ViewFailures
        } else if choice == 1 {
            WizardAction::ViewWarnings
        } else if choice == 2 {
            WizardAction::SaveReport
        } else if choice == 3 {
            WizardAction::RerunChecks
        } else if choice == 4 {
            WizardAction::ChooseCategories
        } else {
            WizardAction::Exit
        }
    }
}

/// The lines that the menu shows for one result.
pub open spec fn attention_entry(r: CheckResultView) -> Seq<char> {
    "["@ + status_label(r.status) + "] "@ + r.title + "\n  "@ + r.reason + "\n  remediation: "@
        + (match r.remediation {
        Some(x) => x,
        None => Seq::<char>::empty(),
    }) + "\n\n"@
}

/// The lines that the menu shows for the results of status `st`, in order.
pub open spec fn attention_text(rs: Seq<CheckResultView>, st: Status) -> Seq<char>
    decreases rs.len(),
{
    if rs.len() == 0 {
        Seq::<char>::empty()
    } else {
        attention_text(rs.drop_last(), st) + if rs.last().status == st {
            attention_entry(rs.last())
        } else {
            Seq::<char>::empty()
        }
    }
}

/// Computes [`attention_entry`].
fn attention_string(r: &CheckResult) -> (s: String)
    ensures
        s@ == attention_entry(r@),
{
    let mut s = started("[");
    push_text(&mut s, crate::report::label(r.status));
    push_text(&mut s, "] ");
    push_text(&mut s, r.title.as_str());
    push_text(&mut s, "\n  ");
    push_text(&mut s, r.reason.as_str());
    push_text(&mut s, "\n  remediation: ");
    match &r.remediation {
        Some(x) => {
            push_text(&mut s, x.as_str());
        },
        None => {
            proof {
                assert(s@ + Seq::<char>::empty() =~= s@);
            }
        },
    }
    push_text(&mut s, "\n\n");
    s
}

/// The results of status `st` as the menu shows them.
pub fn attention_list(results: &[CheckResult], st: Status) -> (s: String)
    ensures
        s@ == attention_text(crate::model::result_views(results@), st),
{
    let mut s = String::new();
    let ghost all = crate::model::result_views(results@);
    let mut i: usize = 0;
    proof {
        assert(all.take(0) =~= Seq::<CheckResultView>::empty());
    }
    while i < results.len()
        invariant
            i <= results@.len(),
            all == crate::model::result_views(results@),
            s@ == attention_text(all.take(i as int), st),
        decreases results@.len() - i,
    {
        proof {
            assert(all.take(i + 1).drop_last() =~= all.take(i as int));
            assert(all.take(i + 1).last() == results@[i as int]@);
        }
        let same = match (results[i].status, st) {
            (Status::Pass, Status::Pass) => true,
            (Status::Warn, Status::Warn) => true,
            (Status::Fail, Status::Fail) => true,
            (Status::Skip, Status::Skip) => true,
            _ => false,
        };
        if same {
            let entry = attention_string(&results[i]);
            push_text(&mut s, entry.as_str());
        } else {
            proof {
                assert(s@ + Seq::<char>::empty() =~= s@);
            }
        }
        i += 1;
    }
    proof {
        assert(all.take(results@.len() as int) =~= all);
    }
    s
}

/// The code with which a strict run ends: 2 where a check failed, else 1
/// where a check warned, else 0. A run that is not strict ends with 0.
pub open spec fn exit_code_of(s: Seq<Status>, strict: bool) -> u8 {
    if !strict {
        0
    } else if count_of(s, Status::Fail) > 0 {
        2
    } else if count_of(s, Status::Warn) > 0 {
        1
    } else {
        0
    }
}

/// Computes [`exit_code_of`].
pub fn exit_code(results: &[CheckResult], strict: bool) -> (code: u8)
    ensures
        code == exit_code_of(statuses(results@), strict),
{
    if !strict {
        return 0;
    }
    let (_pass, warn, fail, _skip) = Reporter::counts(results);
    if fail > 0 {
        2
    } else if warn > 0 {
        1
    } else {
        0
    }
}

} // verus!
