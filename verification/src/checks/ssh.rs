//! The settings of the SSH daemon.

use crate::collectors::{Collectors, SshdConfigDump, TextMap};
use crate::json::{json_number, json_object, json_string, number_value, object_value, string_value};
use crate::model::{report_view, AuditCheck, CheckResult, CheckResultView, Status};
use crate::text::{
    chars_of, decimal, parse_u16, parse_u32, parse_unsigned, push_decimal, push_text,
    same_text, started, text_or_empty, trim, trimmed,
};
use vstd::prelude::*;

verus! {

/// Root may not log in over SSH.
pub struct SshRootLoginCheck;

/// Nobody logs in over SSH with a password.
pub struct SshPasswordAuthCheck;

/// The SSH daemon listens on a privileged port other than 22.
pub struct SshPortCheck;

/// The port that the SSH daemon uses where nothing else is said.
pub const DEFAULT_SSH_PORT: u16 = 22;

/// The first port that needs no privilege where the kernel says nothing else.
pub const DEFAULT_UNPRIVILEGED_START: u32 = 1024;

/// The value of the setting `key`, or `default` where it is not set.
pub open spec fn setting(values: Map<Seq<char>, String>, key: Seq<char>, default: Seq<char>) -> Seq<
    char,
> {
    if values.contains_key(key) {
        values[key]@
    } else {
        default
    }
}

/// Computes [`setting`].
pub fn setting_or(values: &TextMap<String>, key: &str, default: &str) -> (r: String)
    ensures
        r@ == setting(values@, key@, default@),
{
    match values.get(key) {
        Some(v) => v.clone(),
        None => default.to_owned(),
    }
}

/// The report of an SSH check where the host has no SSH daemon
/// configuration.
pub open spec fn no_sshd_report(
    id: Seq<char>,
    title: Seq<char>,
    categories: Seq<Seq<char>>,
) -> CheckResultView {
    report_view(
        id,
        title,
        categories,
        Status::Skip,
        "OpenSSH server configuration not found"@,
        None,
        None,
    )
}

/// The categories of the SSH checks.
pub open spec fn ssh_categories() -> Seq<Seq<char>> {
    seq!["security"@, "linux"@, "config"@]
}

/// What [`SshRootLoginCheck`] reports: skipped where the configuration is
/// missing or could not be obtained; else a pass where `permitrootlogin` is
/// `no` or `prohibit-password` (which it is taken to be where it is not
/// set), and a failure otherwise.
pub open spec fn root_login_report(sshd: Option<SshdConfigDump>) -> CheckResultView {
    let id = "ssh.root_login"@;
    let title = "SSH root login is disabled"@;
    match sshd {
        None => no_sshd_report(id, title, ssh_categories()),
        Some(d) => if !d.ok {
            report_view(
                id,
                title,
                ssh_categories(),
                Status::Skip,
                "Unable to obtain sshd config: "@ + text_or_empty(d.stderr),
                Some("Ensure OpenSSH server is installed and accessible"@),
                None,
            )
        } else {
            let value = setting(d.values@, "permitrootlogin"@, "prohibit-password"@);
            let pass = value == "no"@ || value == "prohibit-password"@;
            report_view(
                id,
                title,
                ssh_categories(),
                if pass {
                    Status::Pass
                } else {
                    Status::Fail
                },
                if pass {
                    "PermitRootLogin is '"@ + value + "'"@
                } else {
                    "PermitRootLogin is '"@ + value
                        + "' (should be 'no' or 'prohibit-password')"@
                },
                Some(
                    "Edit sshd_config to set PermitRootLogin no or prohibit-password; then systemctl reload sshd"@,
                ),
                Some(json_object(seq![("permitrootlogin"@, json_string(value))])),
            )
        },
    }
}

/// What [`SshPasswordAuthCheck`] reports: skipped where the configuration is
/// missing or could not be obtained; else a pass where
/// `passwordauthentication` is `no`, and a failure otherwise, also where it
/// is not set.
pub open spec fn password_auth_report(sshd: Option<SshdConfigDump>) -> CheckResultView {
    let id = "ssh.password_auth"@;
    let title = "SSH password authentication is disabled"@;
    match sshd {
        None => no_sshd_report(id, title, ssh_categories()),
        Some(d) => if !d.ok {
            report_view(
                id,
                title,
                ssh_categories(),
                Status::Skip,
                "Unable to obtain sshd config"@,
                None,
                None,
            )
        } else {
            let value = setting(d.values@, "passwordauthentication"@, "yes"@);
            let pass = value == "no"@;
            report_view(
                id,
                title,
                ssh_categories(),
                if pass {
                    Status::Pass
                } else {
                    Status::Fail
                },
                if pass {
                    "PasswordAuthentication is 'no'"@
                } else {
                    "PasswordAuthentication is '"@ + value + "' (should be 'no')"@
                },
                Some("Set PasswordAuthentication no; enforce key-based auth"@),
                Some(json_object(seq![("passwordauthentication"@, json_string(value))])),
            )
        },
    }
}

/// The port that a `port` setting names: the number it spells, or 22 where
/// it spells none that fits 16 bits.
pub open spec fn port_of(text: Seq<char>) -> nat {
    match parse_unsigned(text, 10, 0xffff) {
        Some(p) => p,
        None => DEFAULT_SSH_PORT as nat,
    }
}

/// The first unprivileged port, from what the kernel file holds: the number
/// it spells, white space around it set aside, or 1024 where the file could
/// not be read or spells none that fits 32 bits.
pub open spec fn unprivileged_start_of(raw: Option<String>) -> nat {
    match raw {
        Some(s) => match parse_unsigned(trim(s@), 10, 0xffff_ffff) {
            Some(v) => v,
            None => DEFAULT_UNPRIVILEGED_START as nat,
        },
        None => DEFAULT_UNPRIVILEGED_START as nat,
    }
}

/// The status of a port: a warning for 22; else a failure where the port is
/// not below the first unprivileged port, taken in its 16 low bits; else a
/// pass.
pub open spec fn port_status(port: nat, unprivileged_start: nat) -> Status {
    if port == DEFAULT_SSH_PORT {
        Status::Warn
    } else if port >= unprivileged_start % 0x10000 {
        Status::Fail
    } else {
        Status::Pass
    }
}

/// The reason that goes with [`port_status`].
pub open spec fn port_reason(port: nat, unprivileged_start: nat) -> Seq<char> {
    match port_status(port, unprivileged_start) {
        Status::Pass => "Using privileged non-default port "@ + decimal(port) + " (< "@ + decimal(
            unprivileged_start,
        ) + ")"@,
        Status::Warn => "Using default SSH port 22"@,
        _ => "Using unprivileged port "@ + decimal(port) + " (>= "@ + decimal(unprivileged_start)
            + ")"@,
    }
}

/// What [`SshPortCheck`] reports on a port and a first unprivileged port.
pub open spec fn port_verdict(port: nat, unprivileged_start: nat) -> CheckResultView {
    report_view(
        "ssh.port"@,
        "SSH uses a non-default and privileged port"@,
        ssh_categories(),
        port_status(port, unprivileged_start),
        port_reason(port, unprivileged_start),
        Some(
            "Choose a port < "@ + decimal(unprivileged_start)
                + " and not 22; update sshd_config and reload"@,
        ),
        Some(json_object(seq![("port"@, json_number(port as u64))])),
    )
}

/// What [`SshPortCheck`] reports: skipped where the configuration is missing
/// or could not be obtained; else its verdict on the `port` setting, taken
/// to be 22 where it is not set.
pub open spec fn port_report(sshd: Option<SshdConfigDump>, raw_start: Option<String>) -> CheckResultView {
    let id = "ssh.port"@;
    let title = "SSH uses a non-default and privileged port"@;
    match sshd {
        None => no_sshd_report(id, title, ssh_categories()),
        Some(d) => if !d.ok {
            report_view(
                id,
                title,
                ssh_categories(),
                Status::Skip,
                "Unable to obtain sshd config"@,
                None,
                None,
            )
        } else {
            port_verdict(
                port_of(setting(d.values@, "port"@, "22"@)),
                unprivileged_start_of(raw_start),
            )
        },
    }
}

/// Computes [`unprivileged_start_of`].
pub fn read_unprivileged_start(raw: &Option<String>) -> (r: u32)
    ensures
        r == unprivileged_start_of(*raw),
{
    match raw {
        Some(s) => {
            let chars = chars_of(s.as_str());
            match parse_u32(trimmed(chars.as_slice())) {
                Some(v) => v,
                None => DEFAULT_UNPRIVILEGED_START,
            }
        },
        None => DEFAULT_UNPRIVILEGED_START,
    }
}

/// An object with the one field `name`.
fn single_field(name: &str, value: serde_json::Value) -> (v: serde_json::Value)
    ensures
        v == json_object(seq![(name@, value)]),
{
    let mut fields: Vec<(String, serde_json::Value)> = Vec::new();
    fields.push((name.to_owned(), value));
    proof {
        assert(crate::json::field_views(fields@) =~= seq![(name@, value)]);
    }
    object_value(fields)
}

impl AuditCheck for SshRootLoginCheck {
    open spec fn spec_id(&self) -> Seq<char> {
        "ssh.root_login"@
    }

    open spec fn spec_title(&self) -> Seq<char> {
        "SSH root login is disabled"@
    }

    open spec fn spec_categories(&self) -> Seq<Seq<char>> {
        ssh_categories()
    }

    open spec fn spec_run(&self, ctx: &Collectors) -> Option<CheckResultView> {
        Some(root_login_report(ctx.sshd))
    }

    fn id(&self) -> (r: &'static str) {
        "ssh.root_login"
    }

    fn title(&self) -> (r: &'static str) {
        "SSH root login is disabled"
    }

    fn categories(&self) -> (r: &'static [&'static str]) {
        &["security", "linux", "config"]
    }

    fn run(&self, ctx: &Collectors) -> (r: CheckResult) {
        proof {
            reveal_strlit("OpenSSH server configuration not found");
            reveal_strlit("Unable to obtain sshd config: ");
            reveal_strlit("PermitRootLogin is '");
        }
        match &ctx.sshd {
            None => CheckResult::of(
                self.id(),
                self.title(),
                self.categories(),
                Status::Skip,
                "OpenSSH server configuration not found".to_owned(),
                None,
                None,
            ),
            Some(sshd) => {
                if !sshd.ok {
                    let mut reason = started("Unable to obtain sshd config: ");
                    match &sshd.stderr {
                        Some(e) => {
                            push_text(&mut reason, e.as_str());
                        },
                        None => {
                            proof {
                                assert(reason@ + Seq::<char>::empty() =~= reason@);
                            }
                        },
                    }
                    return CheckResult::of(
                        self.id(),
                        self.title(),
                        self.categories(),
                        Status::Skip,
                        reason,
                        Some("Ensure OpenSSH server is installed and accessible".to_owned()),
                        None,
                    );
                }
                let value = setting_or(&sshd.values, "permitrootlogin", "prohibit-password");
                let pass = same_text(value.as_str(), "no") || same_text(
                    value.as_str(),
                    "prohibit-password",
                );
                let mut reason = started("PermitRootLogin is '");
                push_text(&mut reason, value.as_str());
                if pass {
                    push_text(&mut reason, "'");
                } else {
                    push_text(&mut reason, "' (should be 'no' or 'prohibit-password')");
                }
                let evidence = single_field("permitrootlogin", string_value(value.as_str()));
                CheckResult::of(
                    self.id(),
                    self.title(),
                    self.categories(),
                    if pass {
                        Status::Pass
                    } else {
                        Status::Fail
                    },
                    reason,
                    Some(
                        "Edit sshd_config to set PermitRootLogin no or prohibit-password; then systemctl reload sshd".to_owned(),
                    ),
                    Some(evidence),
                )
            },
        }
    }
}

impl AuditCheck for SshPasswordAuthCheck {
    open spec fn spec_id(&self) -> Seq<char> {
        "ssh.password_auth"@
    }

    open spec fn spec_title(&self) -> Seq<char> {
        "SSH password authentication is disabled"@
    }

    open spec fn spec_categories(&self) -> Seq<Seq<char>> {
        ssh_categories()
    }

    open spec fn spec_run(&self, ctx: &Collectors) -> Option<CheckResultView> {
        Some(password_auth_report(ctx.sshd))
    }

    fn id(&self) -> (r: &'static str) {
        "ssh.password_auth"
    }

    fn title(&self) -> (r: &'static str) {
        "SSH password authentication is disabled"
    }

    fn categories(&self) -> (r: &'static [&'static str]) {
        &["security", "linux", "config"]
    }

    fn run(&self, ctx: &Collectors) -> (r: CheckResult) {
        proof {
            reveal_strlit("OpenSSH server configuration not found");
            reveal_strlit("Unable to obtain sshd config");
            reveal_strlit("PasswordAuthentication is 'no'");
            reveal_strlit("PasswordAuthentication is '");
        }
        match &ctx.sshd {
            None => CheckResult::of(
                self.id(),
                self.title(),
                self.categories(),
                Status::Skip,
                "OpenSSH server configuration not found".to_owned(),
                None,
                None,
            ),
            Some(sshd) => {
                if !sshd.ok {
                    return CheckResult::of(
                        self.id(),
                        self.title(),
                        self.categories(),
                        Status::Skip,
                        "Unable to obtain sshd config".to_owned(),
                        None,
                        None,
                    );
                }
                let value = setting_or(&sshd.values, "passwordauthentication", "yes");
                let pass = same_text(value.as_str(), "no");
                let reason = if pass {
                    "PasswordAuthentication is 'no'".to_owned()
                } else {
                    let mut s = started("PasswordAuthentication is '");
                    push_text(&mut s, value.as_str());
                    push_text(&mut s, "' (should be 'no')");
                    s
                };
                let evidence = single_field("passwordauthentication", string_value(value.as_str()));
                CheckResult::of(
                    self.id(),
                    self.title(),
                    self.categories(),
                    if pass {
                        Status::Pass
                    } else {
                        Status::Fail
                    },
                    reason,
                    Some("Set PasswordAuthentication no; enforce key-based auth".to_owned()),
                    Some(evidence),
                )
            },
        }
    }
}

impl SshPortCheck {
    /// The verdict on a port, given the first port that needs no privilege.
    pub fn verdict(port: u16, unprivileged_start: u32) -> (r: CheckResult)
        ensures
            r@ == port_verdict(port as nat, unprivileged_start as nat),
            r@.reason.len() > 0,
    {
        proof {
            reveal_strlit("Using privileged non-default port ");
            reveal_strlit("Using default SSH port 22");
            reveal_strlit("Using unprivileged port ");
        }
        let low: u32 = unprivileged_start % 0x10000;
        let status = if port == DEFAULT_SSH_PORT {
            Status::Warn
        } else if port as u32 >= low {
            Status::Fail
        } else {
            Status::Pass
        };
        let reason = match status {
            Status::Pass => {
                let mut s = started("Using privileged non-default port ");
                push_decimal(&mut s, port as u64);
                push_text(&mut s, " (< ");
                push_decimal(&mut s, unprivileged_start as u64);
                push_text(&mut s, ")");
                s
            },
            Status::Warn => "Using default SSH port 22".to_owned(),
            _ => {
                let mut s = started("Using unprivileged port ");
                push_decimal(&mut s, port as u64);
                push_text(&mut s, " (>= ");
                push_decimal(&mut s, unprivileged_start as u64);
                push_text(&mut s, ")");
                s
            },
        };
        let mut remediation = started("Choose a port < ");
        push_decimal(&mut remediation, unprivileged_start as u64);
        push_text(&mut remediation, " and not 22; update sshd_config and reload");
        let evidence = single_field("port", number_value(port as u64));
        let categories: &[&str] = &["security", "linux", "config"];
        assert(categories.deep_view() =~= ssh_categories());
        CheckResult::of(
            "ssh.port",
            "SSH uses a non-default and privileged port",
            categories,
            status,
            reason,
            Some(remediation),
            Some(evidence),
        )
    }
}

impl AuditCheck for SshPortCheck {
    open spec fn spec_id(&self) -> Seq<char> {
        "ssh.port"@
    }

    open spec fn spec_title(&self) -> Seq<char> {
        "SSH uses a non-default and privileged port"@
    }

    open spec fn spec_categories(&self) -> Seq<Seq<char>> {
        ssh_categories()
    }

    open spec fn spec_run(&self, ctx: &Collectors) -> Option<CheckResultView> {
        Some(port_report(ctx.sshd, ctx.probes.unprivileged_port_start))
    }

    fn id(&self) -> (r: &'static str) {
        "ssh.port"
    }

    fn title(&self) -> (r: &'static str) {
        "SSH uses a non-default and privileged port"
    }

    fn categories(&self) -> (r: &'static [&'static str]) {
        &["security", "linux", "config"]
    }

    fn run(&self, ctx: &Collectors) -> (r: CheckResult) {
        proof {
            reveal_strlit("OpenSSH server configuration not found");
            reveal_strlit("Unable to obtain sshd config");
        }
        match &ctx.sshd {
            None => CheckResult::of(
                self.id(),
                self.title(),
                self.categories(),
                Status::Skip,
                "OpenSSH server configuration not found".to_owned(),
                None,
                None,
            ),
            Some(sshd) => {
                if !sshd.ok {
                    return CheckResult::of(
                        self.id(),
                        self.title(),
                        self.categories(),
                        Status::Skip,
                        "Unable to obtain sshd config".to_owned(),
                        None,
                        None,
                    );
                }
                let port_text = setting_or(&sshd.values, "port", "22");
                let chars = chars_of(port_text.as_str());
                let port = match parse_u16(chars.as_slice()) {
                    Some(p) => p,
                    None => DEFAULT_SSH_PORT,
                };
                let start = read_unprivileged_start(&ctx.probes.unprivileged_port_start);
                Self::verdict(port, start)
            },
        }
    }
}

} // verus!
