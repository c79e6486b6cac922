//! Sudo logging and the password policy.

use crate::collectors::Collectors;
use crate::model::{report_view, AuditCheck, CheckResult, CheckResultView, Status};
use crate::text::{
    before, chars_of, chars_or_empty, contains, has_part, has_prefix, lines, parse_u32,
    parse_unsigned, part_before, slice_views, split_at_first, split_lines, split_once,
    starts_with, text_or_empty, trim, trimmed,
};
use vstd::prelude::*;

verus! {

/// Sudo writes a log.
pub struct SudoLoggingCheck;

/// Passwords must be long.
pub struct PasswordPolicyCheck;

/// The shortest password length that counts as strong.
pub const STRONG_MINLEN: u32 = 12;

/// Whether a line of `sudoers` turns logging to a file on: it begins with
/// `Defaults`, white space before it set aside, and names `logfile`.
pub open spec fn is_logfile_line(line: Seq<char>) -> bool {
    starts_with(trim(line), "Defaults"@) && contains(line, "logfile"@)
}

/// Whether some line of `content` turns logging to a file on.
pub open spec fn sudo_logging_enabled(content: Seq<char>) -> bool {
    exists|i: int| 0 <= i < lines(content).len() && is_logfile_line(#[trigger] lines(content)[i])
}

/// What [`SudoLoggingCheck`] reports on the content of `sudoers`, taken as
/// empty where the file could not be read.
pub open spec fn sudo_logging_report(content: Seq<char>) -> CheckResultView {
    let enabled = sudo_logging_enabled(content);
    report_view(
        "policy.sudo_logging"@,
        "Sudo logging is enabled"@,
        seq!["security"@, "linux"@],
        if enabled {
            Status::Pass
        } else {
            Status::Fail
        },
        if enabled {
            "Found Defaults logfile in /etc/sudoers"@
        } else {
            "No Defaults logfile directive found in /etc/sudoers"@
        },
        Some("Add 'Defaults logfile=/var/log/sudo.log' to /etc/sudoers via visudo"@),
        None,
    )
}

/// The length that a line of `pwquality.conf` sets as the least: the line
/// up to a `#`, trimmed, begins with `minlen` and holds a `=`; what follows
/// the first `=`, trimmed, is the length, and 0 where it is no number that
/// fits 32 bits.
pub open spec fn minlen_of(line: Seq<char>) -> Option<nat> {
    let t = trim(before(line, '#'));
    if starts_with(t, "minlen"@) {
        match split_once(t, '=') {
            Some((_, v)) => Some(
                match parse_unsigned(trim(v), 10, 0xffff_ffff) {
                    Some(n) => n,
                    None => 0,
                },
            ),
            None => None,
        }
    } else {
        None
    }
}

/// Whether a line sets a least length of 12 or more.
pub open spec fn sets_strong_minlen(line: Seq<char>) -> bool {
    minlen_of(line) matches Some(n) && n >= STRONG_MINLEN
}

/// Whether some line of `content` sets a least length of 12 or more.
pub open spec fn minlen_ok(content: Seq<char>) -> bool {
    exists|i: int| 0 <= i < lines(content).len() && sets_strong_minlen(#[trigger] lines(content)[i])
}

/// What [`PasswordPolicyCheck`] reports on the content of `pwquality.conf`,
/// taken as empty where the file could not be read.
pub open spec fn password_policy_report(content: Seq<char>) -> CheckResultView {
    let ok = minlen_ok(content);
    report_view(
        "policy.password_policy"@,
        "Strong password policy is enforced"@,
        seq!["security"@, "linux"@],
        if ok {
            Status::Pass
        } else {
            Status::Fail
        },
        if ok {
            "minlen >= 12 configured"@
        } else {
            "minlen < 12 or no policy configured"@
        },
        Some("Configure /etc/security/pwquality.conf with 'minlen=12' or higher"@),
        None,
    )
}

/// Decides [`sudo_logging_enabled`].
pub fn has_sudo_logging(content: &[char]) -> (r: bool)
    ensures
        r == sudo_logging_enabled(content@),
{
    let ls = split_lines(content);
    let defaults = chars_of("Defaults");
    let logfile = chars_of("logfile");
    let ghost all = slice_views(ls@);
    let mut i: usize = 0;
    while i < ls.len()
        invariant
            i <= ls@.len(),
            all == slice_views(ls@),
            all == lines(content@),
            defaults@ == "Defaults"@,
            logfile@ == "logfile"@,
            forall|j: int| 0 <= j < i ==> !is_logfile_line(#[trigger] all[j]),
        decreases ls@.len() - i,
    {
        proof {
            assert(all[i as int] == ls@[i as int]@);
        }
        if has_prefix(trimmed(ls[i]), defaults.as_slice()) && has_part(ls[i], logfile.as_slice()) {
            proof {
                assert(is_logfile_line(lines(content@)[i as int]));
            }
            return true;
        }
        i += 1;
    }
    false
}

/// Decides [`sets_strong_minlen`].
fn line_sets_strong_minlen(line: &[char]) -> (r: bool)
    ensures
        r == sets_strong_minlen(line@),
{
    let minlen = chars_of("minlen");
    let t = trimmed(part_before(line, '#'));
    if !has_prefix(t, minlen.as_slice()) {
        return false;
    }
    match split_at_first(t, '=') {
        Some((_, v)) => {
            let n = match parse_u32(trimmed(v)) {
                Some(n) => n,
                None => 0,
            };
            n >= STRONG_MINLEN
        },
        None => false,
    }
}

/// Decides [`minlen_ok`].
pub fn has_strong_minlen(content: &[char]) -> (r: bool)
    ensures
        r == minlen_ok(content@),
{
    let ls = split_lines(content);
    let ghost all = slice_views(ls@);
    let mut i: usize = 0;
    while i < ls.len()
        invariant
            i <= ls@.len(),
            all == slice_views(ls@),
            all == lines(content@),
            forall|j: int| 0 <= j < i ==> !sets_strong_minlen(#[trigger] all[j]),
        decreases ls@.len() - i,
    {
        proof {
            assert(all[i as int] == ls@[i as int]@);
        }
        if line_sets_strong_minlen(ls[i]) {
            proof {
                assert(sets_strong_minlen(lines(content@)[i as int]));
            }
            return true;
        }
        i += 1;
    }
    false
}

impl AuditCheck for SudoLoggingCheck {
    open spec fn spec_id(&self) -> Seq<char> {
        "policy.sudo_logging"@
    }

    open spec fn spec_title(&self) -> Seq<char> {
        "Sudo logging is enabled"@
    }

    open spec fn spec_categories(&self) -> Seq<Seq<char>> {
        seq!["security"@, "linux"@]
    }

    open spec fn spec_run(&self, ctx: &Collectors) -> Option<CheckResultView> {
        Some(sudo_logging_report(text_or_empty(ctx.probes.sudoers)))
    }

    fn id(&self) -> (r: &'static str) {
        "policy.sudo_logging"
    }

    fn title(&self) -> (r: &'static str) {
        "Sudo logging is enabled"
    }

    fn categories(&self) -> (r: &'static [&'static str]) {
        &["security", "linux"]
    }

    fn run(&self, ctx: &Collectors) -> (r: CheckResult) {
        proof {
            reveal_strlit("Found Defaults logfile in /etc/sudoers");
            reveal_strlit("No Defaults logfile directive found in /etc/sudoers");
        }
        let content = chars_or_empty(&ctx.probes.sudoers);
        let enabled = has_sudo_logging(content.as_slice());
        CheckResult::of(
            self.id(),
            self.title(),
            self.categories(),
            if enabled {
                Status::Pass
            } else {
                Status::Fail
            },
            if enabled {
                "Found Defaults logfile in /etc/sudoers".to_owned()
            } else {
                "No Defaults logfile directive found in /etc/sudoers".to_owned()
            },
            Some("Add 'Defaults logfile=/var/log/sudo.log' to /etc/sudoers via visudo".to_owned()),
            None,
        )
    }
}

impl AuditCheck for PasswordPolicyCheck {
    open spec fn spec_id(&self) -> Seq<char> {
        "policy.password_policy"@
    }

    open spec fn spec_title(&self) -> Seq<char> {
        "Strong password policy is enforced"@
    }

    open spec fn spec_categories(&self) -> Seq<Seq<char>> {
        seq!["security"@, "linux"@]
    }

    open spec fn spec_run(&self, ctx: &Collectors) -> Option<CheckResultView> {
        Some(password_policy_report(text_or_empty(ctx.probes.pwquality)))
    }

    fn id(&self) -> (r: &'static str) {
        "policy.password_policy"
    }

    fn title(&self) -> (r: &'static str) {
        "Strong password policy is enforced"
    }

    fn categories(&self) -> (r: &'static [&'static str]) {
        &["security", "linux"]
    }

    fn run(&self, ctx: &Collectors) -> (r: CheckResult) {
        proof {
            reveal_strlit("minlen >= 12 configured");
            reveal_strlit("minlen < 12 or no policy configured");
        }
        let content = chars_or_empty(&ctx.probes.pwquality);
        let ok = has_strong_minlen(content.as_slice());
        CheckResult::of(
            self.id(),
            self.title(),
            self.categories(),
            if ok {
                Status::Pass
            } else {
                Status::Fail
            },
            if ok {
                "minlen >= 12 configured".to_owned()
            } else {
                "minlen < 12 or no policy configured".to_owned()
            },
            Some("Configure /etc/security/pwquality.conf with 'minlen=12' or higher".to_owned()),
            None,
        )
    }
}

} // verus!
