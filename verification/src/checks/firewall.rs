//! Firewall tooling and the nftables rules.

use crate::collectors::{found, was_found, Collectors};
use crate::json::{bool_value, field_views, json_bool, json_object, object_value};
use crate::model::{report_view, AuditCheck, CheckResult, CheckResultView, Status};
use crate::text::{
    chars_of, contains, has_part, lines, push_text, slice_views, split_lines, views,
};
use vstd::prelude::*;

verus! {

/// Some firewall tooling is installed.
pub struct FirewallPresenceCheck;

/// nftables drops inbound traffic unless a rule accepts it.
pub struct NftablesRulesCheck;

/// The paths by which firewall tooling is told.
pub open spec fn firewall_path_list() -> Seq<Seq<char>> {
    seq![
        "/etc/nftables.conf"@,
        "/etc/nftables"@,
        "/etc/ufw/ufw.conf"@,
        "/etc/iptables"@,
        "/lib/systemd/system/nftables.service"@,
        "/etc/systemd/system/nftables.service"@,
        "/lib/systemd/system/ufw.service"@,
        "/etc/systemd/system/ufw.service"@,
    ]
}

/// The paths by which firewall tooling is told.
pub fn firewall_paths() -> (r: &'static [&'static str])
    ensures
        r.deep_view() == firewall_path_list(),
{
    &[
        "/etc/nftables.conf",
        "/etc/nftables",
        "/etc/ufw/ufw.conf",
        "/etc/iptables",
        "/lib/systemd/system/nftables.service",
        "/etc/systemd/system/nftables.service",
        "/lib/systemd/system/ufw.service",
        "/etc/systemd/system/ufw.service",
    ]
}

/// Whether nftables was found: its configuration or its unit file.
pub open spec fn nftables_found(f: Map<Seq<char>, bool>) -> bool {
    found(f, "/etc/nftables.conf"@) || found(f, "/etc/nftables"@) || found(
        f,
        "/lib/systemd/system/nftables.service"@,
    ) || found(f, "/etc/systemd/system/nftables.service"@)
}

/// Whether UFW was found: its configuration or its unit file.
pub open spec fn ufw_found(f: Map<Seq<char>, bool>) -> bool {
    found(f, "/etc/ufw/ufw.conf"@) || found(f, "/lib/systemd/system/ufw.service"@) || found(
        f,
        "/etc/systemd/system/ufw.service"@,
    )
}

/// Whether iptables was found: its directory of saved rules.
pub open spec fn iptables_found(f: Map<Seq<char>, bool>) -> bool {
    found(f, "/etc/iptables"@)
}

/// An object of three named booleans.
pub open spec fn three_flags(
    a: Seq<char>,
    x: bool,
    b: Seq<char>,
    y: bool,
    c: Seq<char>,
    z: bool,
) -> serde_json::Value {
    json_object(seq![(a, json_bool(x)), (b, json_bool(y)), (c, json_bool(z))])
}

/// Computes [`three_flags`].
fn flags_value(a: &str, x: bool, b: &str, y: bool, c: &str, z: bool) -> (v: serde_json::Value)
    ensures
        v == three_flags(a@, x, b@, y, c@, z),
{
    let mut fields: Vec<(String, serde_json::Value)> = Vec::new();
    fields.push((a.to_owned(), bool_value(x)));
    fields.push((b.to_owned(), bool_value(y)));
    fields.push((c.to_owned(), bool_value(z)));
    proof {
        assert(field_views(fields@) =~= seq![
            (a@, json_bool(x)),
            (b@, json_bool(y)),
            (c@, json_bool(z)),
        ]);
    }
    object_value(fields)
}

/// What [`FirewallPresenceCheck`] reports: a warning where firewall tooling
/// was found, since that it is there does not show that it is active; a
/// failure where none was found.
pub open spec fn firewall_presence_report(f: Map<Seq<char>, bool>) -> CheckResultView {
    let any = nftables_found(f) || ufw_found(f) || iptables_found(f);
    report_view(
        "firewall.presence"@,
        "A firewall is installed and configured"@,
        seq!["security"@, "linux"@, "network"@],
        if any {
            Status::Warn
        } else {
            Status::Fail
        },
        if any {
            "Firewall tooling detected (verify active rules)"@
        } else {
            "No firewall tooling detected"@
        },
        Some(
            "Install and enable nftables (preferred) or UFW; define a default-deny inbound policy with explicit allows"@,
        ),
        Some(
            three_flags(
                "nftables"@,
                nftables_found(f),
                "ufw"@,
                ufw_found(f),
                "iptables"@,
                iptables_found(f),
            ),
        ),
    )
}

/// The configuration files in a row, a line feed after each.
pub open spec fn gathered(configs: Seq<Seq<char>>) -> Seq<char>
    decreases configs.len(),
{
    if configs.len() == 0 {
        Seq::<char>::empty()
    } else {
        gathered(configs.drop_last()) + configs.last() + "\n"@
    }
}

/// Computes [`gathered`].
pub fn gather_configs(configs: &Vec<String>) -> (r: String)
    ensures
        r@ == gathered(views(configs@)),
{
    let mut r = String::new();
    let ghost all = views(configs@);
    let mut i: usize = 0;
    proof {
        assert(all.take(0) =~= Seq::<Seq<char>>::empty());
    }
    while i < configs.len()
        invariant
            i <= configs@.len(),
            all == views(configs@),
            r@ == gathered(all.take(i as int)),
        decreases configs@.len() - i,
    {
        proof {
            assert(all.take(i + 1).drop_last() =~= all.take(i as int));
            assert(all.take(i + 1).last() == configs@[i as int]@);
        }
        push_text(&mut r, configs[i].as_str());
        push_text(&mut r, "\n");
        i += 1;
    }
    proof {
        assert(all.take(configs@.len() as int) =~= all);
    }
    r
}

/// Whether a line sets the policy of the input hook, or of the chain named
/// `input`, to drop.
pub open spec fn is_drop_policy_line(line: Seq<char>) -> bool {
    (contains(line, "type filter hook input"@) || contains(line, "chain input"@)) && contains(
        line,
        "policy drop"@,
    )
}

/// Whether some line of `content` sets a drop policy for inbound traffic.
pub open spec fn has_default_drop(content: Seq<char>) -> bool {
    exists|i: int| 0 <= i < lines(content).len() && is_drop_policy_line(#[trigger] lines(content)[i])
}

/// Whether `content` accepts SSH or established connections in so many
/// words.
pub open spec fn has_accept_examples(content: Seq<char>) -> bool {
    contains(content, "tcp dport 22 accept"@) || contains(
        content,
        "ct state established,related accept"@,
    )
}

/// What [`NftablesRulesCheck`] reports on the gathered configuration:
/// skipped where there is none; else a pass where it holds a chain named
/// `input` and a drop policy for inbound traffic, and a warning otherwise.
pub open spec fn nftables_report(content: Seq<char>) -> CheckResultView {
    let id = "firewall.nftables_rules"@;
    let title = "nftables has default-deny inbound policy with explicit allows"@;
    let categories = seq!["security"@, "linux"@, "network"@];
    if content.len() == 0 {
        report_view(
            id,
            title,
            categories,
            Status::Skip,
            "No nftables configuration files found"@,
            Some("Create /etc/nftables.conf with a default deny policy"@),
            None,
        )
    } else {
        let input_chain = contains(content, "chain input"@);
        let default_drop = has_default_drop(content);
        let pass = input_chain && default_drop;
        report_view(
            id,
            title,
            categories,
            if pass {
                Status::Pass
            } else {
                Status::Warn
            },
            if pass {
                "Found input chain with policy drop"@
            } else {
                "Default drop policy not clearly configured in nftables"@
            },
            Some(
                "Define 'chain input { type filter hook input priority 0; policy drop; ... }' with explicit allows"@,
            ),
            Some(
                three_flags(
                    "input_chain"@,
                    input_chain,
                    "default_drop"@,
                    default_drop,
                    "has_accept_examples"@,
                    has_accept_examples(content),
                ),
            ),
        )
    }
}

/// Decides [`has_default_drop`].
pub fn finds_default_drop(content: &[char]) -> (r: bool)
    ensures
        r == has_default_drop(content@),
{
    let ls = split_lines(content);
    let hook = chars_of("type filter hook input");
    let chain = chars_of("chain input");
    let policy = chars_of("policy drop");
    let ghost all = slice_views(ls@);
    let mut i: usize = 0;
    while i < ls.len()
        invariant
            i <= ls@.len(),
            all == slice_views(ls@),
            all == lines(content@),
            hook@ == "type filter hook input"@,
            chain@ == "chain input"@,
            policy@ == "policy drop"@,
            forall|j: int| 0 <= j < i ==> !is_drop_policy_line(#[trigger] all[j]),
        decreases ls@.len() - i,
    {
        proof {
            assert(all[i as int] == ls@[i as int]@);
        }
        if (has_part(ls[i], hook.as_slice()) || has_part(ls[i], chain.as_slice())) && has_part(
            ls[i],
            policy.as_slice(),
        ) {
            proof {
                assert(is_drop_policy_line(lines(content@)[i as int]));
            }
            return true;
        }
        i += 1;
    }
    false
}

impl AuditCheck for FirewallPresenceCheck {
    open spec fn spec_id(&self) -> Seq<char> {
        "firewall.presence"@
    }

    open spec fn spec_title(&self) -> Seq<char> {
        "A firewall is installed and configured"@
    }

    open spec fn spec_categories(&self) -> Seq<Seq<char>> {
        seq!["security"@, "linux"@, "network"@]
    }

    open spec fn spec_run(&self, ctx: &Collectors) -> Option<CheckResultView> {
        Some(firewall_presence_report(ctx.probes.firewall_paths@))
    }

    fn id(&self) -> (r: &'static str) {
        "firewall.presence"
    }

    fn title(&self) -> (r: &'static str) {
        "A firewall is installed and configured"
    }

    fn categories(&self) -> (r: &'static [&'static str]) {
        &["security", "linux", "network"]
    }

    fn run(&self, ctx: &Collectors) -> (r: CheckResult) {
        proof {
            reveal_strlit("Firewall tooling detected (verify active rules)");
            reveal_strlit("No firewall tooling detected");
        }
        let f = &ctx.probes.firewall_paths;
        let nft = was_found(f, "/etc/nftables.conf") || was_found(f, "/etc/nftables") || was_found(
            f,
            "/lib/systemd/system/nftables.service",
        ) || was_found(f, "/etc/systemd/system/nftables.service");
        let ufw = was_found(f, "/etc/ufw/ufw.conf") || was_found(
            f,
            "/lib/systemd/system/ufw.service",
        ) || was_found(f, "/etc/systemd/system/ufw.service");
        let ipt = was_found(f, "/etc/iptables");
        let any = nft || ufw || ipt;
        let evidence = flags_value("nftables", nft, "ufw", ufw, "iptables", ipt);
        CheckResult::of(
            self.id(),
            self.title(),
            self.categories(),
            if any {
                Status::Warn
            } else {
                Status::Fail
            },
            if any {
                "Firewall tooling detected (verify active rules)".to_owned()
            } else {
                "No firewall tooling detected".to_owned()
            },
            Some(
                "Install and enable nftables (preferred) or UFW; define a default-deny inbound policy with explicit allows".to_owned(),
            ),
            Some(evidence),
        )
    }
}

impl AuditCheck for NftablesRulesCheck {
    open spec fn spec_id(&self) -> Seq<char> {
        "firewall.nftables_rules"@
    }

    open spec fn spec_title(&self) -> Seq<char> {
        "nftables has default-deny inbound policy with explicit allows"@
    }

    open spec fn spec_categories(&self) -> Seq<Seq<char>> {
        seq!["security"@, "linux"@, "network"@]
    }

    open spec fn spec_run(&self, ctx: &Collectors) -> Option<CheckResultView> {
        Some(nftables_report(gathered(views(ctx.probes.nftables_configs@))))
    }

    fn id(&self) -> (r: &'static str) {
        "firewall.nftables_rules"
    }

    fn title(&self) -> (r: &'static str) {
        "nftables has default-deny inbound policy with explicit allows"
    }

    fn categories(&self) -> (r: &'static [&'static str]) {
        &["security", "linux", "network"]
    }

    fn run(&self, ctx: &Collectors) -> (r: CheckResult) {
        proof {
            reveal_strlit("No nftables configuration files found");
            reveal_strlit("Found input chain with policy drop");
            reveal_strlit("Default drop policy not clearly configured in nftables");
        }
        let text = gather_configs(&ctx.probes.nftables_configs);
        let chars = chars_of(text.as_str());
        let content = chars.as_slice();
        if content.len() == 0 {
            return CheckResult::of(
                self.id(),
                self.title(),
                self.categories(),
                Status::Skip,
                "No nftables configuration files found".to_owned(),
                Some("Create /etc/nftables.conf with a default deny policy".to_owned()),
                None,
            );
        }
        let chain = chars_of("chain input");
        let accept_ssh = chars_of("tcp dport 22 accept");
        let accept_established = chars_of("ct state established,related accept");
        let input_chain = has_part(content, chain.as_slice());
        let default_drop = finds_default_drop(content);
        let accepts = has_part(content, accept_ssh.as_slice()) || has_part(
            content,
            accept_established.as_slice(),
        );
        let pass = input_chain && default_drop;
        let evidence = flags_value(
            "input_chain",
            input_chain,
            "default_drop",
            default_drop,
            "has_accept_examples",
            accepts,
        );
        CheckResult::of(
            self.id(),
            self.title(),
            self.categories(),
            if pass {
                Status::Pass
            } else {
                Status::Warn
            },
            if pass {
                "Found input chain with policy drop".to_owned()
            } else {
                "Default drop policy not clearly configured in nftables".to_owned()
            },
            Some(
                "Define 'chain input { type filter hook input priority 0; policy drop; ... }' with explicit allows".to_owned(),
            ),
            Some(evidence),
        )
    }
}

} // verus!
