use vps_audit::checks::firewall::{
    finds_default_drop, firewall_paths, gather_configs, FirewallPresenceCheck, NftablesRulesCheck,
};
use vps_audit::collectors::{was_found, Collectors, HostReadings, TextMap};
use vps_audit::model::{AuditCheck, Status};

fn snapshot() -> Collectors {
    Collectors::collect(HostReadings::empty())
}

fn with_paths(paths: &[(&str, bool)]) -> Collectors {
    let mut c = snapshot();
    for (p, b) in paths {
        c.probes.firewall_paths.insert(p.to_string(), *b);
    }
    c
}

fn with_configs(configs: &[&str]) -> Collectors {
    let mut c = snapshot();
    c.probes.nftables_configs = configs.iter().map(|s| s.to_string()).collect();
    c
}

fn flags(fields: &[(&str, bool)]) -> Option<serde_json::Value> {
    let mut m = serde_json::Map::new();
    for (k, v) in fields {
        m.insert(k.to_string(), serde_json::Value::Bool(*v));
    }
    Some(serde_json::Value::Object(m))
}

fn chars(s: &str) -> Vec<char> {
    s.chars().collect()
}

#[test]
fn firewall_checks_name_themselves() {
    assert_eq!(FirewallPresenceCheck.id(), "firewall.presence");
    assert_eq!(FirewallPresenceCheck.title(), "A firewall is installed and configured");
    assert_eq!(FirewallPresenceCheck.categories(), &["security", "linux", "network"]);
    assert_eq!(NftablesRulesCheck.id(), "firewall.nftables_rules");
    assert_eq!(
        NftablesRulesCheck.title(),
        "nftables has default-deny inbound policy with explicit allows"
    );
    assert_eq!(NftablesRulesCheck.categories(), &["security", "linux", "network"]);
}

#[test]
fn was_found_needs_a_true_entry() {
    let mut m = TextMap::new();
    assert!(!was_found(&m, "/etc/ufw/ufw.conf"));
    m.insert("/etc/ufw/ufw.conf".to_string(), false);
    assert!(!was_found(&m, "/etc/ufw/ufw.conf"));
    m.insert("/etc/ufw/ufw.conf".to_string(), true);
    assert!(was_found(&m, "/etc/ufw/ufw.conf"));
    assert!(!was_found(&m, "/etc/ufw"));
}

#[test]
fn firewall_tooling_is_told_by_eight_paths() {
    assert_eq!(
        firewall_paths(),
        &[
            "/etc/nftables.conf",
            "/etc/nftables",
            "/etc/ufw/ufw.conf",
            "/etc/iptables",
            "/lib/systemd/system/nftables.service",
            "/etc/systemd/system/nftables.service",
            "/lib/systemd/system/ufw.service",
            "/etc/systemd/system/ufw.service",
        ]
    );
    for p in firewall_paths() {
        let r = FirewallPresenceCheck.run(&with_paths(&[(p, true)]));
        assert_eq!(r.status, Status::Warn, "{}", p);
    }
}

#[test]
fn firewall_presence_reads_its_own_flags_not_those_of_the_snapshot() {
    let mut c = snapshot();
    c.files_exist.insert("/etc/iptables".to_string(), true);
    assert_eq!(FirewallPresenceCheck.run(&c).status, Status::Fail);
}

#[test]
fn firewall_presence_fails_without_tooling() {
    let r = FirewallPresenceCheck.run(&with_paths(&[("/etc/nftables.conf", false), ("/etc/hosts", true)]));
    assert_eq!(r.status, Status::Fail);
    assert_eq!(r.reason, "No firewall tooling detected");
    assert_eq!(
        r.remediation.as_deref(),
        Some("Install and enable nftables (preferred) or UFW; define a default-deny inbound policy with explicit allows")
    );
    assert_eq!(r.evidence, flags(&[("nftables", false), ("ufw", false), ("iptables", false)]));
    assert_eq!(r.id, "firewall.presence");
    assert_eq!(r.categories, vec!["security", "linux", "network"]);
}

#[test]
fn firewall_presence_warns_for_each_sign_of_tooling() {
    let signs = [
        ("/etc/nftables.conf", (true, false, false)),
        ("/etc/nftables", (true, false, false)),
        ("/lib/systemd/system/nftables.service", (true, false, false)),
        ("/etc/systemd/system/nftables.service", (true, false, false)),
        ("/etc/ufw/ufw.conf", (false, true, false)),
        ("/lib/systemd/system/ufw.service", (false, true, false)),
        ("/etc/systemd/system/ufw.service", (false, true, false)),
        ("/etc/iptables", (false, false, true)),
    ];
    for (path, (nft, ufw, ipt)) in signs {
        let r = FirewallPresenceCheck.run(&with_paths(&[(path, true)]));
        assert_eq!(r.status, Status::Warn, "{}", path);
        assert_eq!(r.reason, "Firewall tooling detected (verify active rules)");
        assert_eq!(r.evidence, flags(&[("nftables", nft), ("ufw", ufw), ("iptables", ipt)]), "{}", path);
    }
}

#[test]
fn gather_configs_puts_a_line_feed_after_each_file() {
    assert_eq!(gather_configs(&vec![]), "");
    assert_eq!(gather_configs(&vec!["a".to_string()]), "a\n");
    assert_eq!(gather_configs(&vec!["a\n".to_string(), "".to_string(), "b".to_string()]), "a\n\n\nb\n");
}

#[test]
fn default_drop_is_a_drop_policy_on_the_input_hook_or_chain() {
    assert!(finds_default_drop(&chars("type filter hook input priority 0; policy drop;")));
    assert!(finds_default_drop(&chars("table inet f {\n chain input { policy drop; }\n}")));
    assert!(!finds_default_drop(&chars("chain input {\n policy drop;\n}")));
    assert!(!finds_default_drop(&chars("type filter hook output priority 0; policy drop;")));
    assert!(!finds_default_drop(&chars("type filter hook input priority 0; policy accept;")));
    assert!(!finds_default_drop(&chars("")));
}

#[test]
fn nftables_check_skips_without_configuration() {
    let r = NftablesRulesCheck.run(&with_configs(&[]));
    assert_eq!(r.status, Status::Skip);
    assert_eq!(r.reason, "No nftables configuration files found");
    assert_eq!(r.remediation.as_deref(), Some("Create /etc/nftables.conf with a default deny policy"));
    assert_eq!(r.evidence, None);
    assert_eq!(r.id, "firewall.nftables_rules");
}

#[test]
fn nftables_check_passes_on_an_input_chain_with_a_drop_policy() {
    let conf = "table inet filter {\n  chain input {\n    type filter hook input priority 0; policy drop;\n    ct state established,related accept\n    tcp dport 22 accept\n  }\n}\n";
    let r = NftablesRulesCheck.run(&with_configs(&[conf]));
    assert_eq!(r.status, Status::Pass);
    assert_eq!(r.reason, "Found input chain with policy drop");
    assert_eq!(
        r.remediation.as_deref(),
        Some("Define 'chain input { type filter hook input priority 0; policy drop; ... }' with explicit allows")
    );
    assert_eq!(
        r.evidence,
        flags(&[("input_chain", true), ("default_drop", true), ("has_accept_examples", true)])
    );
}

#[test]
fn nftables_check_warns_when_the_drop_policy_is_not_clear() {
    let r = NftablesRulesCheck.run(&with_configs(&["chain input {\n  policy accept;\n}\n"]));
    assert_eq!(r.status, Status::Warn);
    assert_eq!(r.reason, "Default drop policy not clearly configured in nftables");
    assert_eq!(
        r.evidence,
        flags(&[("input_chain", true), ("default_drop", false), ("has_accept_examples", false)])
    );
    let r = NftablesRulesCheck.run(&with_configs(&["type filter hook input priority 0; policy drop;"]));
    assert_eq!(r.status, Status::Warn);
    assert_eq!(
        r.evidence,
        flags(&[("input_chain", false), ("default_drop", true), ("has_accept_examples", false)])
    );
    let r = NftablesRulesCheck.run(&with_configs(&[""]));
    assert_eq!(r.status, Status::Warn);
}

#[test]
fn nftables_check_reads_all_files_as_one_text() {
    let r = NftablesRulesCheck.run(&with_configs(&[
        "table inet filter {",
        "chain input { policy drop; }",
        "tcp dport 22 accept",
    ]));
    assert_eq!(r.status, Status::Pass);
    assert_eq!(
        r.evidence,
        flags(&[("input_chain", true), ("default_drop", true), ("has_accept_examples", true)])
    );
}
