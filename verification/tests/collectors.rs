use vps_audit::collectors::{
    dump_sshd_config, flags_for, parse_hundredths, parse_pretty_name, parse_sshd_config,
    parse_sshd_dump, read_loadavg, snapshot_paths, sum_disks, was_found, Collectors, DiskInfo,
    HostReadings, ProbeReadings, SshdRun, TextMap,
};

fn chars(s: &str) -> Vec<char> {
    s.chars().collect()
}

fn std_pretty_name(content: &str) -> Option<String> {
    for line in content.lines() {
        let line = line.trim();
        if let Some(rest) = line.strip_prefix("PRETTY_NAME=") {
            return Some(rest.trim().trim_matches('"').to_string());
        }
    }
    None
}

#[test]
fn text_map_gives_the_last_value_set_for_a_key() {
    let mut m: TextMap<u8> = TextMap::new();
    assert_eq!(m.get("a"), None);
    m.insert("a".to_string(), 1);
    m.insert("b".to_string(), 2);
    assert_eq!(m.get("a"), Some(&1));
    assert_eq!(m.get("b"), Some(&2));
    assert_eq!(m.get("A"), None);
    assert_eq!(m.get(""), None);
    m.insert("a".to_string(), 3);
    assert_eq!(m.get("a"), Some(&3));
    assert_eq!(m.get("b"), Some(&2));
}

#[test]
fn text_map_from_entries_lets_later_entries_win() {
    let m = TextMap::from_entries(vec![
        ("/etc/sudoers".to_string(), true),
        ("/etc/ufw".to_string(), false),
        ("/etc/sudoers".to_string(), false),
    ]);
    assert_eq!(m.get("/etc/sudoers"), Some(&false));
    assert_eq!(m.get("/etc/ufw"), Some(&false));
    assert_eq!(m.get("/etc"), None);
}

#[test]
fn pretty_name_is_read_from_os_release() {
    let content = "NAME=\"Debian GNU/Linux\"\nPRETTY_NAME=\"Debian GNU/Linux 12 (bookworm)\"\nID=debian\n";
    assert_eq!(parse_pretty_name(content).as_deref(), Some("Debian GNU/Linux 12 (bookworm)"));
    assert_eq!(parse_pretty_name("ID=debian\n"), None);
    assert_eq!(parse_pretty_name(""), None);
    assert_eq!(parse_pretty_name("PRETTY_NAME=A\nPRETTY_NAME=B\n").as_deref(), Some("A"));
}

#[test]
fn pretty_name_agrees_with_the_same_reading_by_std() {
    for s in [
        "",
        "PRETTY_NAME=",
        "PRETTY_NAME=\"\"",
        "  PRETTY_NAME=  \"Alpine Linux v3.19\"  \r\n",
        "PRETTY_NAME='x'",
        "PRETTY_NAME=\"\"\"x\"\"",
        "PRETTY_NAME=\" x \"",
        "pretty_name=x",
        "X_PRETTY_NAME=x\nPRETTY_NAME=y",
        "PRETTY_NAME =x",
        "PRETTY_NAME=a\"b",
    ] {
        assert_eq!(parse_pretty_name(s), std_pretty_name(s), "{:?}", s);
    }
}

#[test]
fn load_average_is_read_in_hundredths() {
    assert_eq!(read_loadavg("0.52 0.58 0.59 1/467 12345\n"), Some(52));
    assert_eq!(read_loadavg("12.05 1.00 0.10 3/900 1\n"), Some(1205));
    assert_eq!(read_loadavg("  3 "), Some(300));
    assert_eq!(read_loadavg("0.00"), Some(0));
    assert_eq!(read_loadavg(""), None);
    assert_eq!(read_loadavg("   \n"), None);
    assert_eq!(read_loadavg("load 0.52"), None);
}

#[test]
fn hundredths_take_two_decimal_places() {
    assert_eq!(parse_hundredths(&chars("3.")), Some(300));
    assert_eq!(parse_hundredths(&chars(".5")), Some(50));
    assert_eq!(parse_hundredths(&chars("0.5")), Some(50));
    assert_eq!(parse_hundredths(&chars("0.05")), Some(5));
    assert_eq!(parse_hundredths(&chars("0.519")), Some(51));
    assert_eq!(parse_hundredths(&chars("007.250")), Some(725));
    assert_eq!(parse_hundredths(&chars("184467440737095515.99")), Some(18446744073709551599));
}

#[test]
fn hundredths_of_other_forms_are_none() {
    for s in ["", ".", "abc", "1e3", "-1.0", "+1.0", "1.2.3", "1,5", " 1", "inf", "NaN", "184467440737095516", "1.x"] {
        assert_eq!(parse_hundredths(&chars(s)), None, "{:?}", s);
    }
}

#[test]
fn hundredths_agree_with_binary_floating_point_on_what_the_kernel_prints() {
    let mut n: u64 = 0;
    while n < 30000 {
        let s = format!("{}.{:02}", n / 100, n % 100);
        assert_eq!(parse_hundredths(&chars(&s)), Some(n));
        assert_eq!((s.parse::<f64>().unwrap() * 100.0).round() as u64, n);
        n += 7;
    }
}

#[test]
fn disk_space_is_summed_and_capped() {
    assert_eq!(sum_disks(&vec![]).total_bytes, 0);
    assert_eq!(sum_disks(&vec![]).available_bytes, 0);
    let d = sum_disks(&vec![
        DiskInfo { total_bytes: 100, available_bytes: 40 },
        DiskInfo { total_bytes: 50, available_bytes: 0 },
        DiskInfo { total_bytes: 1, available_bytes: 1 },
    ]);
    assert_eq!((d.total_bytes, d.available_bytes), (151, 41));
    let d = sum_disks(&vec![
        DiskInfo { total_bytes: u64::MAX - 1, available_bytes: 5 },
        DiskInfo { total_bytes: 2, available_bytes: 5 },
        DiskInfo { total_bytes: 7, available_bytes: 5 },
    ]);
    assert_eq!((d.total_bytes, d.available_bytes), (u64::MAX, 15));
}

#[test]
fn sshd_dump_is_read_line_by_line() {
    let m = parse_sshd_dump("port 22\npermitrootlogin no\nnovalue\nhostkey /etc/ssh/a  \nport 2222\n banner  none\n");
    assert_eq!(m.get("port").map(|s| s.as_str()), Some("2222"));
    assert_eq!(m.get("permitrootlogin").map(|s| s.as_str()), Some("no"));
    assert_eq!(m.get("hostkey").map(|s| s.as_str()), Some("/etc/ssh/a"));
    assert_eq!(m.get("novalue"), None);
    assert_eq!(m.get("").map(|s| s.as_str()), Some("banner  none"));
    assert_eq!(m.get("banner"), None);
}

#[test]
fn sshd_dump_goes_by_names_in_lower_case() {
    let m = parse_sshd_dump("Port 22\nPermitRootLogin Yes\nHostKey /etc/ssh/Key\nÄ Ö\n");
    assert_eq!(m.get("port").map(|s| s.as_str()), Some("22"));
    assert_eq!(m.get("Port"), None);
    assert_eq!(m.get("permitrootlogin").map(|s| s.as_str()), Some("Yes"));
    assert_eq!(m.get("PermitRootLogin"), None);
    assert_eq!(m.get("hostkey").map(|s| s.as_str()), Some("/etc/ssh/Key"));
    assert_eq!(m.get("ä").map(|s| s.as_str()), Some("Ö"));
    assert_eq!(m.get("Ä"), None);
}

#[test]
fn sshd_dump_lets_a_later_line_replace_an_earlier_one_whatever_the_case() {
    let m = parse_sshd_dump("port 22\nPort 23\n");
    assert_eq!(m.get("port").map(|s| s.as_str()), Some("23"));
    let m = parse_sshd_dump("PORT 23\nport 22\n");
    assert_eq!(m.get("port").map(|s| s.as_str()), Some("22"));
    assert_eq!(m.get("PORT"), None);
}

#[test]
fn snapshot_records_three_paths() {
    assert_eq!(
        snapshot_paths(),
        &["/var/run/reboot-required", "/etc/sudoers", "/etc/security/pwquality.conf"]
    );
}

#[test]
fn flags_are_kept_for_the_listed_paths_only() {
    let seen = TextMap::from_entries(vec![
        ("/a".to_string(), true),
        ("/b".to_string(), false),
        ("/c".to_string(), true),
        ("/a".to_string(), false),
        ("/b".to_string(), true),
    ]);
    let m = flags_for(&["/b", "/d", "/a"], &seen);
    assert_eq!(m.get("/a"), Some(&false));
    assert_eq!(m.get("/b"), Some(&true));
    assert_eq!(m.get("/d"), Some(&false));
    assert_eq!(m.get("/c"), None);
    assert!(was_found(&m, "/b"));
    assert!(!was_found(&m, "/a"));
    assert!(!was_found(&m, "/c"));
    let none = flags_for(&[], &seen);
    assert_eq!(none.get("/a"), None);
}

#[test]
fn sshd_config_is_read_in_lower_case_without_comments() {
    let m = parse_sshd_config(
        "# Port 1\nPort 2222\n\n  PermitRootLogin   Yes\nPasswordAuthentication\tno\n#x y\nÄ Ö\n",
    );
    assert_eq!(m.get("port").map(|s| s.as_str()), Some("2222"));
    assert_eq!(m.get("permitrootlogin").map(|s| s.as_str()), Some("yes"));
    assert_eq!(m.get("PermitRootLogin"), None);
    assert_eq!(m.get("passwordauthentication"), None);
    assert_eq!(m.get("#"), None);
    assert_eq!(m.get("#x"), None);
    assert_eq!(m.get("ä").map(|s| s.as_str()), Some("ö"));
}

#[test]
fn sshd_configuration_comes_from_the_daemon_first() {
    let run = Some(SshdRun { success: true, stdout: "Port 22\n".to_string(), stderr: "warn".to_string() });
    let d = dump_sshd_config(&run, &Some("Port 2222\n".to_string())).unwrap();
    assert!(d.ok);
    assert_eq!(d.values.get("port").map(|s| s.as_str()), Some("22"));
    assert_eq!(d.values.get("Port"), None);
    assert_eq!(d.stderr, None);
}

#[test]
fn sshd_configuration_of_a_failed_run_keeps_what_the_daemon_said() {
    let run = Some(SshdRun { success: false, stdout: "port 22\n".to_string(), stderr: "no hostkeys".to_string() });
    let d = dump_sshd_config(&run, &Some("Port 2222\n".to_string())).unwrap();
    assert!(!d.ok);
    assert_eq!(d.values.get("port"), None);
    assert_eq!(d.stderr.as_deref(), Some("no hostkeys"));
}

#[test]
fn sshd_configuration_falls_back_to_the_file() {
    let d = dump_sshd_config(&None, &Some("Port 2222\n".to_string())).unwrap();
    assert!(d.ok);
    assert_eq!(d.values.get("port").map(|s| s.as_str()), Some("2222"));
    assert_eq!(d.stderr, None);
    assert!(dump_sshd_config(&None, &None).is_none());
}

#[test]
fn empty_readings_hold_nothing() {
    let p = ProbeReadings::empty();
    assert_eq!(p.meminfo, None);
    assert_eq!(p.sudoers, None);
    assert_eq!(p.pwquality, None);
    assert_eq!(p.unprivileged_port_start, None);
    assert_eq!((p.net_tcp, p.net_tcp6, p.net_udp, p.net_udp6), (None, None, None, None));
    assert!(p.nftables_configs.is_empty());
    assert_eq!(p.firewall_paths.get("/etc/iptables"), None);
    assert_eq!(p.suid_scan.visited_files(), 0);
    let r = HostReadings::empty();
    assert_eq!(r.hostname, None);
    assert!(r.disks.is_empty());
    assert!(r.paths.is_empty());
    assert!(r.sshd_run.is_none());
}

#[test]
fn snapshot_is_assembled_from_the_readings() {
    let mut raw = HostReadings::empty();
    raw.hostname = Some("vps1".to_string());
    raw.kernel_version = Some("6.1.0".to_string());
    raw.uptime_seconds = 3600;
    raw.total_memory_bytes = 8 << 30;
    raw.total_swap_bytes = 1 << 30;
    raw.os_release = Some("PRETTY_NAME=\"Debian 12\"\n".to_string());
    raw.loadavg = Some("1.25 0.50 0.10 1/100 42\n".to_string());
    raw.disks = vec![
        DiskInfo { total_bytes: 100, available_bytes: 30 },
        DiskInfo { total_bytes: 200, available_bytes: 70 },
    ];
    raw.sshd_config = Some("PermitRootLogin no\n".to_string());
    raw.paths = vec![
        ("/etc/sudoers".to_string(), true),
        ("/var/run/reboot-required".to_string(), false),
        ("/etc/passwd".to_string(), true),
    ];
    raw.probes.sudoers = Some("Defaults logfile=/x".to_string());
    let c = Collectors::collect(raw);
    assert_eq!(c.system.hostname.as_deref(), Some("vps1"));
    assert_eq!(c.system.kernel_version.as_deref(), Some("6.1.0"));
    assert_eq!(c.system.uptime_seconds, 3600);
    assert_eq!(c.system.total_memory_bytes, 8 << 30);
    assert_eq!(c.system.total_swap_bytes, 1 << 30);
    assert_eq!(c.system.os_pretty_name.as_deref(), Some("Debian 12"));
    assert_eq!(c.system.load_average_1m_hundredths, Some(125));
    assert_eq!((c.disk.total_bytes, c.disk.available_bytes), (300, 100));
    let sshd = c.sshd.unwrap();
    assert!(sshd.ok);
    assert_eq!(sshd.values.get("permitrootlogin").map(|s| s.as_str()), Some("no"));
    assert_eq!(c.files_exist.get("/etc/sudoers"), Some(&true));
    assert_eq!(c.files_exist.get("/var/run/reboot-required"), Some(&false));
    assert_eq!(c.files_exist.get("/etc/security/pwquality.conf"), Some(&false));
    assert_eq!(c.files_exist.get("/etc/passwd"), None);
    assert_eq!(c.probes.sudoers.as_deref(), Some("Defaults logfile=/x"));
}

#[test]
fn snapshot_of_empty_readings_knows_nothing() {
    let c = Collectors::collect(HostReadings::empty());
    assert_eq!(c.system.hostname, None);
    assert_eq!(c.system.os_pretty_name, None);
    assert_eq!(c.system.load_average_1m_hundredths, None);
    assert_eq!((c.disk.total_bytes, c.disk.available_bytes), (0, 0));
    assert!(c.sshd.is_none());
    for p in snapshot_paths() {
        assert_eq!(c.files_exist.get(p), Some(&false));
    }
    assert_eq!(c.files_exist.get("/etc/iptables"), None);
}
