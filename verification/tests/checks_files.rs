use vps_audit::checks::files::{is_known_suid_binary, SuidFilesCheck, SuidScan};
use vps_audit::collectors::{Collectors, HostReadings};
use vps_audit::model::{AuditCheck, Status};

fn snapshot(scan: SuidScan) -> Collectors {
    let mut c = Collectors::collect(HostReadings::empty());
    c.probes.suid_scan = scan;
    c
}

const SUID: Option<u32> = Some(0o104755);
const PLAIN: Option<u32> = Some(0o100755);

#[test]
fn suid_check_names_itself() {
    assert_eq!(SuidFilesCheck.id(), "files.suid_suspicious");
    assert_eq!(SuidFilesCheck.title(), "No suspicious SUID files exist outside standard locations");
    assert_eq!(SuidFilesCheck.categories(), &["security", "linux"]);
}

#[test]
fn known_suid_binaries_are_told_by_the_end_of_the_path() {
    for p in [
        "/usr/bin/ping",
        "/usr/bin/sudo",
        "/bin/mount",
        "/bin/umount",
        "/bin/su",
        "/usr/bin/passwd",
        "/usr/bin/chsh",
        "/usr/bin/newgrp",
        "/usr/bin/gpasswd",
        "/usr/bin/chfn",
        "/opt/chroot/usr/bin/sudo",
        "/usr/bin/chfn",
    ] {
        assert!(is_known_suid_binary(p), "{}", p);
    }
    for p in ["", "/usr/bin/pin", "/usr/bin/sudo2", "sudo", "/bin/mounts", "/usr/bin/ping/"] {
        assert!(!is_known_suid_binary(p), "{:?}", p);
    }
}

#[test]
fn fresh_scan_has_seen_nothing() {
    let s = SuidScan::new();
    assert_eq!(s.visited_files(), 0);
    assert_eq!(s.suspicious_count(), 0);
    assert!(!s.timed_out());
}

#[test]
fn scan_counts_regular_files_outside_ignored_directories() {
    let mut s = SuidScan::new();
    assert!(s.observe("/home", false, SUID, false));
    assert_eq!(s.visited_files(), 0);
    for p in [
        "/proc/1/exe",
        "/sys/x",
        "/dev/null",
        "/run/x",
        "/var/lib/docker/a",
        "/var/lib/containers/a",
        "/snap/a",
        "/boot/efi/a",
        "/mnt/a",
        "/media/a",
        "/tmp/a",
        "/tmpfile",
    ] {
        assert!(s.observe(p, true, SUID, false));
    }
    assert_eq!(s.visited_files(), 0);
    assert_eq!(s.suspicious_count(), 0);
    assert!(s.observe("/home/a", true, PLAIN, false));
    assert!(s.observe("/var/lib/dock", true, PLAIN, false));
    assert_eq!(s.visited_files(), 2);
    assert_eq!(s.suspicious_count(), 0);
}

#[test]
fn scan_counts_suid_files_outside_the_expected_places_as_suspicious() {
    let mut s = SuidScan::new();
    assert!(s.observe("/home/a/rootshell", true, SUID, false));
    assert!(s.observe("/opt/tool", true, Some(0o4000), false));
    assert_eq!(s.suspicious_count(), 2);
    for p in ["/usr/bin/x", "/bin/x", "/sbin/x", "/usr/sbin/x", "/usr/lib/x", "/usr/libexec/x"] {
        assert!(s.observe(p, true, SUID, false));
    }
    assert!(s.observe("/opt/chroot/usr/bin/sudo", true, SUID, false));
    assert!(s.observe("/home/a/unreadable", true, None, false));
    assert!(s.observe("/home/a/plain", true, PLAIN, false));
    assert_eq!(s.suspicious_count(), 2);
    assert_eq!(s.visited_files(), 11);
}

#[test]
fn scan_stops_when_the_time_is_up_and_does_not_judge_that_file() {
    let mut s = SuidScan::new();
    assert!(s.observe("/home/a", true, PLAIN, false));
    assert!(!s.observe("/home/b", true, SUID, true));
    assert_eq!(s.visited_files(), 2);
    assert_eq!(s.suspicious_count(), 0);
    assert!(!s.observe("/home/c", true, SUID, false));
    assert_eq!(s.visited_files(), 2);
    assert_eq!(s.suspicious_count(), 0);
    s.finish(false);
    assert!(s.timed_out());
}

#[test]
fn scan_goes_on_past_entries_that_do_not_count_when_the_time_is_up() {
    let mut s = SuidScan::new();
    assert!(s.observe("/proc/1", true, SUID, true));
    assert!(s.observe("/home", false, SUID, true));
    assert_eq!(s.visited_files(), 0);
    s.finish(true);
    assert!(s.timed_out());
}

#[test]
fn scan_stops_at_the_limit_of_files() {
    let mut s = SuidScan::new();
    let mut n = 0;
    while n < 99_999 {
        assert!(s.observe("/home/a", true, PLAIN, false));
        n += 1;
    }
    assert_eq!(s.visited_files(), 99_999);
    assert!(!s.observe("/home/a", true, SUID, false));
    assert_eq!(s.visited_files(), 100_000);
    assert_eq!(s.suspicious_count(), 0);
    assert!(!s.observe("/home/a", true, SUID, false));
    assert_eq!(s.visited_files(), 100_000);
    s.finish(false);
    assert!(s.timed_out());
}

#[test]
fn finished_scan_that_ran_to_the_end_in_time_is_whole() {
    let mut s = SuidScan::new();
    assert!(s.observe("/home/a", true, SUID, false));
    s.finish(false);
    assert!(!s.timed_out());
    assert!(!s.observe("/home/b", true, SUID, false));
    assert_eq!(s.visited_files(), 1);
}

#[test]
fn suid_check_passes_on_a_whole_scan_without_findings() {
    let mut s = SuidScan::new();
    s.observe("/home/a", true, PLAIN, false);
    s.finish(false);
    let r = SuidFilesCheck.run(&snapshot(s));
    assert_eq!(r.status, Status::Pass);
    assert_eq!(r.reason, "No suspicious SUID files found");
    assert_eq!(r.remediation.as_deref(), Some("Investigate SUID files; remove SUID bit if unnecessary"));
    assert_eq!(r.evidence, None);
    assert_eq!(r.id, "files.suid_suspicious");
    assert_eq!(r.title, "No suspicious SUID files exist outside standard locations");
    assert_eq!(r.categories, vec!["security", "linux"]);
    assert_eq!(SuidFilesCheck.run(&snapshot(SuidScan::new())).status, Status::Pass);
}

#[test]
fn suid_check_warns_about_findings() {
    let mut s = SuidScan::new();
    s.observe("/home/a", true, SUID, false);
    s.observe("/home/b", true, SUID, false);
    s.observe("/home/c", true, PLAIN, false);
    s.finish(false);
    let r = SuidFilesCheck.run(&snapshot(s));
    assert_eq!(r.status, Status::Warn);
    assert_eq!(r.reason, "Found 2 potential suspicious SUID files");
}

#[test]
fn suid_check_warns_about_a_scan_cut_short() {
    let mut s = SuidScan::new();
    s.observe("/home/a", true, SUID, false);
    s.observe("/home/b", true, PLAIN, false);
    s.finish(true);
    let r = SuidFilesCheck.run(&snapshot(s));
    assert_eq!(r.status, Status::Warn);
    assert_eq!(r.reason, "Partial scan (2 files, ~5s budget) found 1 potential suspicious SUID files");
    let mut s = SuidScan::new();
    s.finish(true);
    let r = SuidFilesCheck.run(&snapshot(s));
    assert_eq!(r.status, Status::Warn);
    assert_eq!(r.reason, "Partial scan (0 files, ~5s budget) found 0 potential suspicious SUID files");
}
