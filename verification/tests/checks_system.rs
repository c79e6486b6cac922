use vps_audit::checks::system::{
    human_bytes, nearest_to, parse_kib_line, read_meminfo, CpuUsageCheck, DiskUsageCheck,
    MemoryUsageCheck, RebootRequiredCheck,
};
use vps_audit::collectors::{Collectors, DiskInfo, HostReadings};
use vps_audit::model::{AuditCheck, Status};

fn snapshot() -> Collectors {
    Collectors::collect(HostReadings::empty())
}

fn with_disk(total_bytes: u64, available_bytes: u64) -> Collectors {
    let mut c = snapshot();
    c.disk = DiskInfo { total_bytes, available_bytes };
    c
}

#[test]
fn system_checks_name_themselves() {
    assert_eq!(RebootRequiredCheck.id(), "system.reboot_required");
    assert_eq!(RebootRequiredCheck.title(), "System does not require reboot");
    assert_eq!(RebootRequiredCheck.categories(), &["linux", "performance", "security"]);
    assert_eq!(DiskUsageCheck.id(), "system.disk_usage");
    assert_eq!(DiskUsageCheck.title(), "Disk usage is healthy");
    assert_eq!(DiskUsageCheck.categories(), &["performance", "linux"]);
    assert_eq!(MemoryUsageCheck.id(), "system.memory_usage");
    assert_eq!(MemoryUsageCheck.title(), "Memory usage is healthy");
    assert_eq!(MemoryUsageCheck.categories(), &["performance", "linux"]);
    assert_eq!(CpuUsageCheck.id(), "system.cpu_usage");
    assert_eq!(CpuUsageCheck.title(), "CPU usage is healthy");
    assert_eq!(CpuUsageCheck.categories(), &["performance", "linux"]);
}

#[test]
fn nearest_to_rounds_ties_to_even() {
    assert_eq!(nearest_to(0, 7), 0);
    assert_eq!(nearest_to(7, 2), 4);
    assert_eq!(nearest_to(5, 2), 2);
    assert_eq!(nearest_to(3, 2), 2);
    assert_eq!(nearest_to(1, 2), 0);
    assert_eq!(nearest_to(10, 4), 2);
    assert_eq!(nearest_to(14, 4), 4);
    assert_eq!(nearest_to(11, 4), 3);
    assert_eq!(nearest_to(9, 4), 2);
    assert_eq!(nearest_to(100, 3), 33);
    assert_eq!(nearest_to(200, 3), 67);
}

#[test]
fn human_bytes_picks_the_unit_and_one_decimal_place() {
    assert_eq!(human_bytes(0), "0.0 B");
    assert_eq!(human_bytes(1), "1.0 B");
    assert_eq!(human_bytes(1023), "1023.0 B");
    assert_eq!(human_bytes(1024), "1.0 KiB");
    assert_eq!(human_bytes(1536), "1.5 KiB");
    assert_eq!(human_bytes(1280), "1.2 KiB");
    assert_eq!(human_bytes(1408), "1.4 KiB");
    assert_eq!(human_bytes(1048575), "1024.0 KiB");
    assert_eq!(human_bytes(1048576), "1.0 MiB");
    assert_eq!(human_bytes(1073741824), "1.0 GiB");
    assert_eq!(human_bytes(1099511627776), "1.0 TiB");
    assert_eq!(human_bytes(1125899906842624), "1024.0 TiB");
    assert_eq!(human_bytes(u64::MAX), "16777216.0 TiB");
}

fn float_human_bytes(bytes: u64) -> String {
    let units = ["B", "KiB", "MiB", "GiB", "TiB"];
    let mut n = bytes as f64;
    let mut idx = 0;
    while n >= 1024.0 && idx < units.len() - 1 {
        n /= 1024.0;
        idx += 1;
    }
    format!("{:.1} {}", n, units[idx])
}

#[test]
fn human_bytes_agrees_with_binary_floating_point_below_2_to_the_53() {
    let mut n: u64 = 0;
    while n < 5000 {
        assert_eq!(human_bytes(n), float_human_bytes(n), "{}", n);
        n += 1;
    }
    let mut n: u64 = 1;
    while n < (1u64 << 53) {
        for d in [0u64, 1, 51, 52, 102, 103, 256, 512, 513, 1000] {
            let v = n.saturating_add(n / 1024 * d).min((1u64 << 53) - 1);
            assert_eq!(human_bytes(v), float_human_bytes(v), "{}", v);
        }
        n = n * 3 + 1;
    }
}

#[test]
fn reboot_check_warns_when_the_marker_file_was_found() {
    let mut c = snapshot();
    let r = RebootRequiredCheck.run(&c);
    assert_eq!(r.status, Status::Pass);
    assert_eq!(r.reason, "No reboot required");
    assert_eq!(r.remediation.as_deref(), Some("Reboot to apply pending updates"));
    assert_eq!(r.evidence, None);
    assert_eq!(r.id, "system.reboot_required");
    assert_eq!(r.categories, vec!["linux", "performance", "security"]);
    c.files_exist.insert("/var/run/reboot-required".to_string(), false);
    assert_eq!(RebootRequiredCheck.run(&c).status, Status::Pass);
    c.files_exist.insert("/var/run/reboot-required".to_string(), true);
    let r = RebootRequiredCheck.run(&c);
    assert_eq!(r.status, Status::Warn);
    assert_eq!(r.reason, "System indicates a reboot is required");
}

#[test]
fn disk_check_passes_below_half() {
    let r = DiskUsageCheck.run(&with_disk(100, 60));
    assert_eq!(r.status, Status::Pass);
    assert_eq!(r.reason, "Disk used: 40% (total: 100.0 B, available: 60.0 B)");
    assert_eq!(r.remediation.as_deref(), Some("Clean unused files, logs, images; consider expanding disk"));
    assert_eq!(r.evidence, None);
    assert_eq!(r.id, "system.disk_usage");
    assert_eq!(DiskUsageCheck.run(&with_disk(1000, 501)).status, Status::Pass);
}

#[test]
fn disk_check_warns_from_half_to_below_four_fifths() {
    let r = DiskUsageCheck.run(&with_disk(100, 50));
    assert_eq!(r.status, Status::Warn);
    assert_eq!(r.reason, "Disk used: 50% (total: 100.0 B, available: 50.0 B)");
    assert_eq!(DiskUsageCheck.run(&with_disk(1000, 201)).status, Status::Warn);
}

#[test]
fn disk_check_fails_from_four_fifths() {
    let r = DiskUsageCheck.run(&with_disk(100, 20));
    assert_eq!(r.status, Status::Fail);
    assert_eq!(r.reason, "Disk used: 80% (total: 100.0 B, available: 20.0 B)");
    let r = DiskUsageCheck.run(&with_disk(53687091200, 0));
    assert_eq!(r.status, Status::Fail);
    assert_eq!(r.reason, "Disk used: 100% (total: 50.0 GiB, available: 0.0 B)");
}

#[test]
fn disk_check_counts_nothing_as_used_on_an_empty_or_odd_reading() {
    let r = DiskUsageCheck.run(&with_disk(0, 0));
    assert_eq!(r.status, Status::Pass);
    assert_eq!(r.reason, "Disk used: 0% (total: 0.0 B, available: 0.0 B)");
    let r = DiskUsageCheck.run(&with_disk(10, 20));
    assert_eq!(r.status, Status::Pass);
    assert_eq!(r.reason, "Disk used: 0% (total: 10.0 B, available: 20.0 B)");
    let r = DiskUsageCheck.run(&with_disk(u64::MAX, 1));
    assert_eq!(r.status, Status::Fail);
    assert_eq!(r.reason, "Disk used: 100% (total: 16777216.0 TiB, available: 1.0 B)");
}

#[test]
fn disk_percent_is_rounded_to_the_nearest() {
    assert_eq!(
        DiskUsageCheck.run(&with_disk(3, 2)).reason,
        "Disk used: 33% (total: 3.0 B, available: 2.0 B)"
    );
    assert_eq!(
        DiskUsageCheck.run(&with_disk(3, 1)).reason,
        "Disk used: 67% (total: 3.0 B, available: 1.0 B)"
    );
    assert_eq!(
        DiskUsageCheck.run(&with_disk(200, 199)).reason,
        "Disk used: 0% (total: 200.0 B, available: 199.0 B)"
    );
    assert_eq!(
        DiskUsageCheck.run(&with_disk(200, 197)).reason,
        "Disk used: 2% (total: 200.0 B, available: 197.0 B)"
    );
}

#[test]
fn parse_kib_line_reads_the_second_word_as_kib() {
    assert_eq!(parse_kib_line("MemTotal:       16384 kB"), Some(16777216));
    assert_eq!(parse_kib_line("MemTotal: 0"), Some(0));
    assert_eq!(parse_kib_line("MemTotal:"), None);
    assert_eq!(parse_kib_line(""), None);
    assert_eq!(parse_kib_line("MemTotal: lots kB"), None);
    assert_eq!(parse_kib_line("MemTotal: -1 kB"), None);
    assert_eq!(parse_kib_line("MemTotal: 18014398509481983 kB"), Some(18014398509481983 * 1024));
    assert_eq!(parse_kib_line("MemTotal: 18014398509481984 kB"), None);
}

#[test]
fn read_meminfo_needs_both_lines() {
    let both = "MemTotal:       16384 kB\nMemFree:         1000 kB\nMemAvailable:    4096 kB\n";
    assert_eq!(read_meminfo(both), Some((16777216, 4194304)));
    assert_eq!(read_meminfo("MemTotal: 16384 kB\n"), None);
    assert_eq!(read_meminfo("MemAvailable: 16384 kB\n"), None);
    assert_eq!(read_meminfo(""), None);
}

#[test]
fn read_meminfo_lets_the_last_line_of_a_kind_count() {
    assert_eq!(read_meminfo("MemTotal: 1 kB\nMemAvailable: 1 kB\nMemTotal: 2 kB\n"), Some((2048, 1024)));
    assert_eq!(read_meminfo("MemTotal: 1 kB\nMemAvailable: 1 kB\nMemTotal: x kB\n"), None);
    assert_eq!(read_meminfo(" MemTotal: 1 kB\nMemAvailable: 1 kB\n"), None);
}

#[test]
fn memory_check_reads_meminfo() {
    let mut c = snapshot();
    c.system.total_memory_bytes = 1;
    c.probes.meminfo =
        Some("MemTotal:       16384 kB\nMemAvailable:    4096 kB\n".to_string());
    let r = MemoryUsageCheck.run(&c);
    assert_eq!(r.status, Status::Warn);
    assert_eq!(r.reason, "Memory used: 75% (total: 16.0 MiB, available: 4.0 MiB)");
    assert_eq!(r.remediation.as_deref(), Some("Reduce memory usage, tune services, or increase RAM/swap"));
    assert_eq!(r.evidence, None);
    assert_eq!(r.id, "system.memory_usage");
}

#[test]
fn memory_check_falls_back_to_half_of_the_total() {
    let mut c = snapshot();
    c.system.total_memory_bytes = 2048;
    let r = MemoryUsageCheck.run(&c);
    assert_eq!(r.status, Status::Warn);
    assert_eq!(r.reason, "Memory used: 50% (total: 2.0 KiB, available: 1.0 KiB)");
    c.probes.meminfo = Some("nothing of use".to_string());
    assert_eq!(MemoryUsageCheck.run(&c).reason, "Memory used: 50% (total: 2.0 KiB, available: 1.0 KiB)");
    c.system.total_memory_bytes = 3;
    assert_eq!(MemoryUsageCheck.run(&c).reason, "Memory used: 67% (total: 3.0 B, available: 1.0 B)");
}

#[test]
fn cpu_report_passes_below_half_a_load_per_processor() {
    let r = CpuUsageCheck::evaluate(Some(49), 1);
    assert_eq!(r.status, Status::Pass);
    assert_eq!(r.reason, "Load(1m): 0.49, cores: 1, ratio: 0.49");
    let r = CpuUsageCheck::evaluate(Some(199), 4);
    assert_eq!(r.status, Status::Pass);
    assert_eq!(r.reason, "Load(1m): 1.99, cores: 4, ratio: 0.50");
    assert_eq!(r.remediation.as_deref(), Some("Investigate high CPU processes, tune services, or scale resources"));
    assert_eq!(r.evidence, None);
    assert_eq!(r.id, "system.cpu_usage");
    assert_eq!(r.title, "CPU usage is healthy");
    assert_eq!(r.categories, vec!["performance", "linux"]);
}

#[test]
fn cpu_report_warns_from_half_to_below_nine_tenths() {
    let r = CpuUsageCheck::evaluate(Some(50), 1);
    assert_eq!(r.status, Status::Warn);
    assert_eq!(r.reason, "Load(1m): 0.50, cores: 1, ratio: 0.50");
    let r = CpuUsageCheck::evaluate(Some(179), 2);
    assert_eq!(r.status, Status::Warn);
    assert_eq!(r.reason, "Load(1m): 1.79, cores: 2, ratio: 0.90");
}

#[test]
fn cpu_report_fails_from_nine_tenths() {
    let r = CpuUsageCheck::evaluate(Some(90), 1);
    assert_eq!(r.status, Status::Fail);
    assert_eq!(r.reason, "Load(1m): 0.90, cores: 1, ratio: 0.90");
    let r = CpuUsageCheck::evaluate(Some(1205), 8);
    assert_eq!(r.status, Status::Fail);
    assert_eq!(r.reason, "Load(1m): 12.05, cores: 8, ratio: 1.51");
}

#[test]
fn cpu_report_takes_an_unknown_load_as_none_and_no_processor_as_no_load() {
    let r = CpuUsageCheck::evaluate(None, 4);
    assert_eq!(r.status, Status::Pass);
    assert_eq!(r.reason, "Load(1m): 0.00, cores: 4, ratio: 0.00");
    let r = CpuUsageCheck::evaluate(Some(500), 0);
    assert_eq!(r.status, Status::Pass);
    assert_eq!(r.reason, "Load(1m): 5.00, cores: 0, ratio: 0.00");
}

#[test]
fn cpu_check_reports_on_the_processors_of_this_machine() {
    let mut c = snapshot();
    c.system.load_average_1m_hundredths = Some(7);
    let r = CpuUsageCheck.run(&c);
    let cores = num_cpus::get();
    assert_eq!(r.reason, CpuUsageCheck::evaluate(Some(7), cores).reason);
    assert_eq!(r.status, CpuUsageCheck::evaluate(Some(7), cores).status);
    assert!(r.reason.starts_with("Load(1m): 0.07, cores: "));
    assert_eq!(r.id, "system.cpu_usage");
}
