//! Reboot, disk, memory and processor load.
//!
//! Shares and ratios are computed on whole numbers, exactly: a share is
//! compared with its limit by cross-multiplication, and a number is rounded
//! for display to the nearest value, a tie going to the even one.

use crate::collectors::Collectors;
use crate::model::{report_view, AuditCheck, CheckResult, CheckResultView, Status};
use crate::text::{
    as_nat, chars_of, decimal, digit_char, digit_to_char, has_prefix, lines, parse_u64,
    parse_unsigned, push_decimal, push_text, slice_views, split_lines, split_words, started,
    starts_with, words,
};
use vstd::prelude::*;

verus! {

/// The system does not wait for a reboot.
pub struct RebootRequiredCheck;

/// The disks are not too full.
pub struct DiskUsageCheck;

/// The memory is not too full.
pub struct MemoryUsageCheck;

/// The processors are not too loaded.
pub struct CpuUsageCheck;

/// The whole number nearest to `num / den`, a tie going to the even one.
pub open spec fn nearest(num: nat, den: nat) -> nat {
    let q = num / den;
    let r = num % den;
    if 2 * r > den || (2 * r == den && q % 2 == 1) {
        q + 1
    } else {
        q
    }
}

/// Computes [`nearest`].
pub fn nearest_to(num: u128, den: u128) -> (r: u128)
    requires
        den > 0,
    ensures
        r == nearest(num as nat, den as nat),
        r <= num,
        r <= num / den + 1,
{
    let q = num / den;
    let r = num % den;
    proof {
        assert(q <= num && (r > 0 ==> q < num)) by (nonlinear_arith)
            requires
                q == num / den,
                r == num % den,
                den > 0,
                num >= 0,
        ;
    }
    if r > den - r || (r == den - r && q % 2 == 1) {
        q + 1
    } else {
        q
    }
}

/// A number that is at most `k` times another is at most `k` when divided by
/// it and rounded.
pub proof fn lemma_nearest_bound(num: nat, den: nat, k: nat)
    requires
        den > 0,
        num <= k * den,
    ensures
        nearest(num, den) <= k,
{
    let q = num / den;
    let r = num % den;
    assert(num == q * den + r && 0 <= r < den) by (nonlinear_arith)
        requires
            q == num / den,
            r == num % den,
            den > 0,
    ;
    if q > k {
        assert(q * den >= k * den + den) by (nonlinear_arith)
            requires
                q >= k + 1,
                den > 0,
        ;
    } else if q == k {
        assert(r == 0);
    }
}

/// The share of `total` that is used, in percent, for display: 0 where
/// nothing is there or where more is available than there is.
pub open spec fn used_percent(total: nat, available: nat) -> nat {
    if total == 0 || available >= total {
        0
    } else {
        nearest((100 * (total - available)) as nat, total)
    }
}

/// The status of a share that is used: a pass below one half, a warning
/// below four fifths, a failure from there on. Where nothing is there, or
/// more is available than there is, nothing counts as used.
pub open spec fn usage_status(total: nat, available: nat) -> Status {
    let used: int = if total == 0 || available >= total {
        0
    } else {
        total - available
    };
    if 2 * used < total || total == 0 {
        Status::Pass
    } else if 5 * used < 4 * total {
        Status::Warn
    } else {
        Status::Fail
    }
}

/// The name of the unit that is 1024 to the power of `index` bytes.
pub open spec fn unit_name(index: nat) -> Seq<char> {
    if index == 0 {
        "B"@
    } else if index == 1 {
        "KiB"@
    } else if index == 2 {
        "MiB"@
    } else if index == 3 {
        "GiB"@
    } else {
        "TiB"@
    }
}

/// The unit in which a number of bytes is shown: the largest of B, KiB, MiB,
/// GiB and TiB that is not larger than the number; B for less than 1024.
pub open spec fn unit_index(bytes: nat) -> nat {
    if bytes < 0x400 {
        0
    } else if bytes < 0x10_0000 {
        1
    } else if bytes < 0x4000_0000 {
        2
    } else if bytes < 0x100_0000_0000 {
        3
    } else {
        4
    }
}

/// The number of bytes in the unit of this index.
pub open spec fn unit_size(index: nat) -> nat {
    if index == 0 {
        1
    } else if index == 1 {
        0x400
    } else if index == 2 {
        0x10_0000
    } else if index == 3 {
        0x4000_0000
    } else {
        0x100_0000_0000
    }
}

/// A number of tenths as a numeral with one decimal place.
pub open spec fn one_place(tenths: nat) -> Seq<char> {
    decimal(tenths / 10) + "."@ + seq![digit_char(tenths % 10)]
}

/// A number of hundredths as a numeral with two decimal places.
pub open spec fn two_places(hundredths: nat) -> Seq<char> {
    decimal(hundredths / 100) + "."@ + seq![
        digit_char((hundredths / 10) % 10),
        digit_char(hundredths % 10),
    ]
}

/// A number of bytes for people: the number in its unit, rounded to one
/// decimal place, then the unit.
pub open spec fn human_bytes_text(bytes: nat) -> Seq<char> {
    one_place(nearest(bytes * 10, unit_size(unit_index(bytes)))) + " "@ + unit_name(
        unit_index(bytes),
    )
}

/// Appends [`one_place`] of `tenths`.
fn push_one_place(out: &mut String, tenths: u64)
    ensures
        final(out)@ == old(out)@ + one_place(tenths as nat),
{
    let ghost start = out@;
    push_decimal(out, tenths / 10);
    push_text(out, ".");
    out.push(digit_to_char((tenths % 10) as u8));
    proof {
        assert(out@ =~= start + (decimal((tenths / 10) as nat) + "."@ + seq![
            digit_char((tenths % 10) as nat),
        ]));
    }
}

/// Appends [`two_places`] of `hundredths`.
fn push_two_places(out: &mut String, hundredths: u64)
    ensures
        final(out)@ == old(out)@ + two_places(hundredths as nat),
{
    let ghost start = out@;
    push_decimal(out, hundredths / 100);
    push_text(out, ".");
    out.push(digit_to_char(((hundredths / 10) % 10) as u8));
    out.push(digit_to_char((hundredths % 10) as u8));
    proof {
        assert(out@ =~= start + (decimal((hundredths / 100) as nat) + "."@ + seq![
            digit_char(((hundredths / 10) % 10) as nat),
            digit_char((hundredths % 10) as nat),
        ]));
    }
}

/// Appends [`human_bytes_text`] of `bytes`.
fn push_human_bytes(out: &mut String, bytes: u64)
    ensures
        final(out)@ == old(out)@ + human_bytes_text(bytes as nat),
{
    let ghost start = out@;
    let (size, unit): (u64, &'static str) = if bytes < 0x400 {
        (1, "B")
    } else if bytes < 0x10_0000 {
        (0x400, "KiB")
    } else if bytes < 0x4000_0000 {
        (0x10_0000, "MiB")
    } else if bytes < 0x100_0000_0000 {
        (0x4000_0000, "GiB")
    } else {
        (0x100_0000_0000, "TiB")
    };
    let tenths = nearest_to(bytes as u128 * 10, size as u128);
    push_one_place(out, tenths as u64);
    push_text(out, " ");
    push_text(out, unit);
    proof {
        assert(out@ =~= start + (one_place(tenths as nat) + " "@ + unit@));
    }
}

/// A number of bytes for people: `1536` is `1.5 KiB`.
pub fn human_bytes(bytes: u64) -> (r: String)
    ensures
        r@ == human_bytes_text(bytes as nat),
{
    let mut r = String::new();
    push_human_bytes(&mut r, bytes);
    proof {
        assert(Seq::<char>::empty() + human_bytes_text(bytes as nat) =~= human_bytes_text(
            bytes as nat,
        ));
    }
    r
}

/// The reason of a usage check: what is measured, the share used, the total
/// and what is available.
pub open spec fn usage_reason(what: Seq<char>, total: nat, available: nat) -> Seq<char> {
    what + " used: "@ + decimal(used_percent(total, available)) + "% (total: "@
        + human_bytes_text(total) + ", available: "@ + human_bytes_text(available) + ")"@
}

/// Computes [`usage_status`].
fn status_of_usage(total: u64, available: u64) -> (r: Status)
    ensures
        r == usage_status(total as nat, available as nat),
{
    let used: u128 = if total == 0 || available >= total {
        0
    } else {
        (total - available) as u128
    };
    if 2 * used < total as u128 || total == 0 {
        Status::Pass
    } else if 5 * used < 4 * (total as u128) {
        Status::Warn
    } else {
        Status::Fail
    }
}

/// Computes [`usage_reason`].
fn reason_of_usage(what: &str, total: u64, available: u64) -> (r: String)
    ensures
        r@ == usage_reason(what@, total as nat, available as nat),
{
    let percent: u128 = if total == 0 || available >= total {
        0
    } else {
        proof {
            lemma_nearest_bound((100 * (total - available)) as nat, total as nat, 100);
        }
        nearest_to(100 * ((total - available) as u128), total as u128)
    };
    let mut s = started(what);
    push_text(&mut s, " used: ");
    push_decimal(&mut s, percent as u64);
    push_text(&mut s, "% (total: ");
    push_human_bytes(&mut s, total);
    push_text(&mut s, ", available: ");
    push_human_bytes(&mut s, available);
    push_text(&mut s, ")");
    s
}

/// What [`RebootRequiredCheck`] reports: a warning where the file that asks
/// for a reboot was found, a pass where it was not.
pub open spec fn reboot_report(files_exist: Map<Seq<char>, bool>) -> CheckResultView {
    let required = files_exist.contains_key("/var/run/reboot-required"@)
        && files_exist["/var/run/reboot-required"@];
    report_view(
        "system.reboot_required"@,
        "System does not require reboot"@,
        seq!["linux"@, "performance"@, "security"@],
        if required {
            Status::Warn
        } else {
            Status::Pass
        },
        if required {
            "System indicates a reboot is required"@
        } else {
            "No reboot required"@
        },
        Some("Reboot to apply pending updates"@),
        None,
    )
}

/// What [`DiskUsageCheck`] reports on the space of the disks.
pub open spec fn disk_report(total: nat, available: nat) -> CheckResultView {
    report_view(
        "system.disk_usage"@,
        "Disk usage is healthy"@,
        seq!["performance"@, "linux"@],
        usage_status(total, available),
        usage_reason("Disk"@, total, available),
        Some("Clean unused files, logs, images; consider expanding disk"@),
        None,
    )
}

/// The number of bytes that a line of `/proc/meminfo` gives: its second
/// word, read as a number of KiB. Nothing where the line has one word only,
/// where the second is no number, or where the bytes do not fit 64 bits.
pub open spec fn kib_line_value(line: Seq<char>) -> Option<nat> {
    if words(line).len() < 2 {
        None
    } else {
        match parse_unsigned(words(line)[1], 10, 0xffff_ffff_ffff_ffff) {
            Some(kib) => if kib * 1024 <= 0xffff_ffff_ffff_ffff {
                Some(kib * 1024)
            } else {
                None
            },
            None => None,
        }
    }
}

/// Computes [`kib_line_value`].
pub fn parse_kib_line(line: &str) -> (r: Option<u64>)
    ensures
        as_nat(r) == kib_line_value(line@),
{
    let chars = chars_of(line);
    kib_of_line(chars.as_slice())
}

/// Computes [`kib_line_value`] on characters.
fn kib_of_line(line: &[char]) -> (r: Option<u64>)
    ensures
        as_nat(r) == kib_line_value(line@),
{
    let parts = split_words(line);
    if parts.len() < 2 {
        return None;
    }
    proof {
        assert(slice_views(parts@)[1] == parts@[1]@);
    }
    match parse_u64(parts[1]) {
        Some(kib) => kib.checked_mul(1024),
        None => None,
    }
}

/// Total and available memory as the lines of `/proc/meminfo` give them. A
/// line that begins with `MemTotal:` gives the total, one that begins with
/// `MemAvailable:` what is available; of several lines of a kind the last
/// counts, also where it gives nothing.
pub open spec fn meminfo_scan(ls: Seq<Seq<char>>) -> (Option<nat>, Option<nat>)
    decreases ls.len(),
{
    if ls.len() == 0 {
        (None, None)
    } else {
        let before = meminfo_scan(ls.drop_last());
        if starts_with(ls.last(), "MemTotal:"@) {
            (kib_line_value(ls.last()), before.1)
        } else if starts_with(ls.last(), "MemAvailable:"@) {
            (before.0, kib_line_value(ls.last()))
        } else {
            before
        }
    }
}

/// Total and available memory as `/proc/meminfo` gives them, where it gives
/// both.
pub open spec fn meminfo_values(content: Seq<char>) -> Option<(nat, nat)> {
    match meminfo_scan(lines(content)) {
        (Some(total), Some(available)) => Some((total, available)),
        _ => None,
    }
}

/// Computes [`meminfo_values`].
pub fn read_meminfo(content: &str) -> (r: Option<(u64, u64)>)
    ensures
        match r {
            Some((t, a)) => meminfo_values(content@) == Some((t as nat, a as nat)),
            None => meminfo_values(content@) is None,
        },
{
    let chars = chars_of(content);
    let ls = split_lines(chars.as_slice());
    let total_key = chars_of("MemTotal:");
    let available_key = chars_of("MemAvailable:");
    let mut total: Option<u64> = None;
    let mut available: Option<u64> = None;
    let ghost all = slice_views(ls@);
    let mut i: usize = 0;
    proof {
        assert(all.take(0) =~= Seq::<Seq<char>>::empty());
    }
    while i < ls.len()
        invariant
            i <= ls@.len(),
            all == slice_views(ls@),
            total_key@ == "MemTotal:"@,
            available_key@ == "MemAvailable:"@,
            meminfo_scan(all.take(i as int)) == (as_nat(total), as_nat(available)),
        decreases ls@.len() - i,
    {
        proof {
            assert(all.take(i + 1).drop_last() =~= all.take(i as int));
            assert(all.take(i + 1).last() == ls@[i as int]@);
        }
        if has_prefix(ls[i], total_key.as_slice()) {
            total = kib_of_line(ls[i]);
        } else if has_prefix(ls[i], available_key.as_slice()) {
            available = kib_of_line(ls[i]);
        }
        i += 1;
    }
    proof {
        assert(all.take(ls@.len() as int) =~= all);
    }
    match (total, available) {
        (Some(t), Some(a)) => Some((t, a)),
        _ => None,
    }
}

/// Total and available memory for the memory check: what `/proc/meminfo`
/// gives, where it could be read and gives both; else the total of the
/// snapshot, and half of it as available.
pub open spec fn memory_figures(meminfo: Option<String>, total_memory: u64) -> (nat, nat) {
    match meminfo {
        Some(content) => match meminfo_values(content@) {
            Some(f) => f,
            None => (total_memory as nat, (total_memory / 2) as nat),
        },
        None => (total_memory as nat, (total_memory / 2) as nat),
    }
}

/// What [`MemoryUsageCheck`] reports on total and available memory.
pub open spec fn memory_report(total: nat, available: nat) -> CheckResultView {
    report_view(
        "system.memory_usage"@,
        "Memory usage is healthy"@,
        seq!["performance"@, "linux"@],
        usage_status(total, available),
        usage_reason("Memory"@, total, available),
        Some("Reduce memory usage, tune services, or increase RAM/swap"@),
        None,
    )
}

/// The load for each processor, in hundredths, for display: 0 where there
/// is no processor.
pub open spec fn load_ratio(load: nat, cores: nat) -> nat {
    if cores == 0 {
        0
    } else {
        nearest(load, cores)
    }
}

/// The status of a load, given in hundredths, on a number of processors: a
/// pass below one half for each processor, a warning below nine tenths, a
/// failure from there on; a pass where there is no processor.
pub open spec fn load_status(load: nat, cores: nat) -> Status {
    if cores == 0 || load < 50 * cores {
        Status::Pass
    } else if load < 90 * cores {
        Status::Warn
    } else {
        Status::Fail
    }
}

/// What [`CpuUsageCheck`] reports on a load average, given in hundredths and
/// taken as 0 where it is not known, and a number of processors.
pub open spec fn cpu_report(load: Option<u64>, cores: nat) -> CheckResultView {
    let l: nat = match load {
        Some(v) => v as nat,
        None => 0,
    };
    report_view(
        "system.cpu_usage"@,
        "CPU usage is healthy"@,
        seq!["performance"@, "linux"@],
        load_status(l, cores),
        "Load(1m): "@ + two_places(l) + ", cores: "@ + decimal(cores) + ", ratio: "@ + two_places(
            load_ratio(l, cores),
        ),
        Some("Investigate high CPU processes, tune services, or scale resources"@),
        None,
    )
}

/// Calls `num_cpus::get`, the number of logical processors that this process
/// may use. It depends on the machine, so nothing is claimed of it.
#[verifier::external_body]
fn logical_cpus() -> (n: usize) {
    num_cpus::get()
}

impl AuditCheck for RebootRequiredCheck {
    open spec fn spec_id(&self) -> Seq<char> {
        "system.reboot_required"@
    }

    open spec fn spec_title(&self) -> Seq<char> {
        "System does not require reboot"@
    }

    open spec fn spec_categories(&self) -> Seq<Seq<char>> {
        seq!["linux"@, "performance"@, "security"@]
    }

    open spec fn spec_run(&self, ctx: &Collectors) -> Option<CheckResultView> {
        Some(reboot_report(ctx.files_exist@))
    }

    fn id(&self) -> (r: &'static str) {
        "system.reboot_required"
    }

    fn title(&self) -> (r: &'static str) {
        "System does not require reboot"
    }

    fn categories(&self) -> (r: &'static [&'static str]) {
        &["linux", "performance", "security"]
    }

    fn run(&self, ctx: &Collectors) -> (r: CheckResult) {
        proof {
            reveal_strlit("System indicates a reboot is required");
            reveal_strlit("No reboot required");
        }
        let required = match ctx.files_exist.get("/var/run/reboot-required") {
            Some(b) => *b,
            None => false,
        };
        CheckResult::of(
            self.id(),
            self.title(),
            self.categories(),
            if required {
                Status::Warn
            } else {
                Status::Pass
            },
            if required {
                "System indicates a reboot is required".to_owned()
            } else {
                "No reboot required".to_owned()
            },
            Some("Reboot to apply pending updates".to_owned()),
            None,
        )
    }
}

impl AuditCheck for DiskUsageCheck {
    open spec fn spec_id(&self) -> Seq<char> {
        "system.disk_usage"@
    }

    open spec fn spec_title(&self) -> Seq<char> {
        "Disk usage is healthy"@
    }

    open spec fn spec_categories(&self) -> Seq<Seq<char>> {
        seq!["performance"@, "linux"@]
    }

    open spec fn spec_run(&self, ctx: &Collectors) -> Option<CheckResultView> {
        Some(disk_report(ctx.disk.total_bytes as nat, ctx.disk.available_bytes as nat))
    }

    fn id(&self) -> (r: &'static str) {
        "system.disk_usage"
    }

    fn title(&self) -> (r: &'static str) {
        "Disk usage is healthy"
    }

    fn categories(&self) -> (r: &'static [&'static str]) {
        &["performance", "linux"]
    }

    fn run(&self, ctx: &Collectors) -> (r: CheckResult) {
        proof {
            reveal_strlit(" used: ");
        }
        let total = ctx.disk.total_bytes;
        let available = ctx.disk.available_bytes;
        CheckResult::of(
            self.id(),
            self.title(),
            self.categories(),
            status_of_usage(total, available),
            reason_of_usage("Disk", total, available),
            Some("Clean unused files, logs, images; consider expanding disk".to_owned()),
            None,
        )
    }
}

impl AuditCheck for MemoryUsageCheck {
    open spec fn spec_id(&self) -> Seq<char> {
        "system.memory_usage"@
    }

    open spec fn spec_title(&self) -> Seq<char> {
        "Memory usage is healthy"@
    }

    open spec fn spec_categories(&self) -> Seq<Seq<char>> {
        seq!["performance"@, "linux"@]
    }

    open spec fn spec_run(&self, ctx: &Collectors) -> Option<CheckResultView> {
        let f = memory_figures(ctx.probes.meminfo, ctx.system.total_memory_bytes);
        Some(memory_report(f.0, f.1))
    }

    fn id(&self) -> (r: &'static str) {
        "system.memory_usage"
    }

    fn title(&self) -> (r: &'static str) {
        "Memory usage is healthy"
    }

    fn categories(&self) -> (r: &'static [&'static str]) {
        &["performance", "linux"]
    }

    fn run(&self, ctx: &Collectors) -> (r: CheckResult) {
        proof {
            reveal_strlit(" used: ");
        }
        let fallback = (ctx.system.total_memory_bytes, ctx.system.total_memory_bytes / 2);
        let (total, available) = match &ctx.probes.meminfo {
            Some(content) => match read_meminfo(content.as_str()) {
                Some(f) => f,
                None => fallback,
            },
            None => fallback,
        };
        CheckResult::of(
            self.id(),
            self.title(),
            self.categories(),
            status_of_usage(total, available),
            reason_of_usage("Memory", total, available),
            Some("Reduce memory usage, tune services, or increase RAM/swap".to_owned()),
            None,
        )
    }
}

impl CpuUsageCheck {
    /// The report on a load average, in hundredths, and a number of
    /// processors.
    pub fn evaluate(load: Option<u64>, cores: usize) -> (r: CheckResult)
        ensures
            r@ == cpu_report(load, cores as nat),
            r@.reason.len() > 0,
    {
        proof {
            reveal_strlit("Load(1m): ");
        }
        let l: u64 = match load {
            Some(v) => v,
            None => 0,
        };
        let status = if cores == 0 || (l as u128) < 50 * (cores as u128) {
            Status::Pass
        } else if (l as u128) < 90 * (cores as u128) {
            Status::Warn
        } else {
            Status::Fail
        };
        let ratio: u128 = if cores == 0 {
            0
        } else {
            nearest_to(l as u128, cores as u128)
        };
        let mut reason = started("Load(1m): ");
        push_two_places(&mut reason, l);
        push_text(&mut reason, ", cores: ");
        push_decimal(&mut reason, cores as u64);
        push_text(&mut reason, ", ratio: ");
        push_two_places(&mut reason, ratio as u64);
        let categories: &[&str] = &["performance", "linux"];
        proof {
            assert(categories.deep_view() =~= seq!["performance"@, "linux"@]);
        }
        CheckResult::of(
            "system.cpu_usage",
            "CPU usage is healthy",
            categories,
            status,
            reason,
            Some("Investigate high CPU processes, tune services, or scale resources".to_owned()),
            None,
        )
    }
}

impl AuditCheck for CpuUsageCheck {
    open spec fn spec_id(&self) -> Seq<char> {
        "system.cpu_usage"@
    }

    open spec fn spec_title(&self) -> Seq<char> {
        "CPU usage is healthy"@
    }

    open spec fn spec_categories(&self) -> Seq<Seq<char>> {
        seq!["performance"@, "linux"@]
    }

    open spec fn spec_run(&self, ctx: &Collectors) -> Option<CheckResultView> {
        None
    }

    fn id(&self) -> (r: &'static str) {
        "system.cpu_usage"
    }

    fn title(&self) -> (r: &'static str) {
        "CPU usage is healthy"
    }

    fn categories(&self) -> (r: &'static [&'static str]) {
        &["performance", "linux"]
    }

    /// The report depends on the machine as well as on the snapshot: it is
    /// that of [`CpuUsageCheck::evaluate`] on the load of the snapshot and
    /// the number of processors found.
    fn run(&self, ctx: &Collectors) -> (r: CheckResult)
        ensures
            exists|cores: nat| r@ == cpu_report(ctx.system.load_average_1m_hundredths, cores),
    {
        let cores = logical_cpus();
        let r = Self::evaluate(ctx.system.load_average_1m_hundredths, cores);
        proof {
            assert(r@ == cpu_report(ctx.system.load_average_1m_hundredths, cores as nat));
        }
        r
    }
}

} // verus!
