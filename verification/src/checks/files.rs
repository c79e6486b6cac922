//! SUID files outside the standard locations.
//!
//! The walk over the file system is not made here. Whoever makes it hands
//! each entry to a [`SuidScan`], which decides what the entry counts for and
//! whether the walk goes on; the check reads the finished scan from the
//! snapshot.

use crate::collectors::Collectors;
use crate::model::{report_view, AuditCheck, CheckResult, CheckResultView, Status};
use crate::text::{
    chars_of, decimal, ends_with_any, has_prefix_among, has_suffix_among, push_decimal, push_text,
    started, starts_with_any,
};
use vstd::prelude::*;

verus! {

/// The number of files at which a scan stops.
pub const SUID_SCAN_MAX_FILES: usize = 100_000;

/// The seconds that a scan is given.
pub const SUID_SCAN_BUDGET_SECS: u64 = 5;

/// The permission bit that makes a file run as its owner.
pub const SUID_BIT: u32 = 0o4000;

/// Reports SUID files outside the standard locations.
pub struct SuidFilesCheck;

/// The state of a walk over the file system in search of SUID files.
#[derive(Debug, Clone, Copy)]
pub struct SuidScan {
    visited_files: usize,
    suspicious_count: usize,
    stopped: bool,
    timed_out: bool,
}

/// A [`SuidScan`] as plain values.
pub struct SuidScanView {
    pub visited_files: nat,
    pub suspicious_count: nat,
    pub stopped: bool,
    pub timed_out: bool,
}

/// A scan that has seen nothing yet.
pub open spec fn fresh_scan() -> SuidScanView {
    SuidScanView { visited_files: 0, suspicious_count: 0, stopped: false, timed_out: false }
}

/// The directories whose files a scan passes over.
pub open spec fn ignored_prefixes() -> Seq<Seq<char>> {
    seq![
        "/proc"@,
        "/sys"@,
        "/dev"@,
        "/run"@,
        "/var/lib/docker"@,
        "/var/lib/containers"@,
        "/snap"@,
        "/boot/efi"@,
        "/mnt"@,
        "/media"@,
        "/tmp"@,
    ]
}

/// The directories in which a SUID file is expected.
pub open spec fn allowed_prefixes() -> Seq<Seq<char>> {
    seq!["/usr/bin"@, "/bin"@, "/sbin"@, "/usr/sbin"@, "/usr/lib"@, "/usr/libexec"@]
}

/// The programs that are known to carry the SUID bit.
pub open spec fn known_suid_binaries() -> Seq<Seq<char>> {
    seq![
        "/usr/bin/ping"@,
        "/usr/bin/sudo"@,
        "/bin/mount"@,
        "/bin/umount"@,
        "/bin/su"@,
        "/usr/bin/passwd"@,
        "/usr/bin/chsh"@,
        "/usr/bin/newgrp"@,
        "/usr/bin/gpasswd"@,
        "/usr/bin/chfn"@,
    ]
}

/// Whether a file at `path` with these permissions is a SUID file where none
/// is expected. A file whose permissions could not be read is not.
pub open spec fn is_suspicious(path: Seq<char>, mode: Option<u32>) -> bool {
    match mode {
        Some(m) => m & SUID_BIT != 0 && !(starts_with_any(path, allowed_prefixes())
            || ends_with_any(path, known_suid_binaries())),
        None => false,
    }
}

/// Whether a scan counts the entry at all: a regular file outside the
/// ignored directories.
pub open spec fn is_counted(path: Seq<char>, is_file: bool) -> bool {
    is_file && !starts_with_any(path, ignored_prefixes())
}

/// The scan after one more entry of the walk. A scan that has stopped stays
/// as it is. An entry that is not counted changes nothing. A counted entry
/// is one more file visited; with it the scan stops where the limit of files
/// is reached or the time is up, and else counts the file where it is
/// suspicious.
pub open spec fn observed(
    scan: SuidScanView,
    path: Seq<char>,
    is_file: bool,
    mode: Option<u32>,
    over_budget: bool,
) -> SuidScanView {
    if scan.stopped || !is_counted(path, is_file) {
        scan
    } else if scan.visited_files + 1 >= SUID_SCAN_MAX_FILES || over_budget {
        SuidScanView { visited_files: scan.visited_files + 1, stopped: true, ..scan }
    } else if is_suspicious(path, mode) {
        SuidScanView {
            visited_files: scan.visited_files + 1,
            suspicious_count: scan.suspicious_count + 1,
            ..scan
        }
    } else {
        SuidScanView { visited_files: scan.visited_files + 1, ..scan }
    }
}

/// The report on a finished scan.
pub open spec fn suid_reason(scan: SuidScanView) -> Seq<char> {
    if scan.suspicious_count == 0 && !scan.timed_out {
        "No suspicious SUID files found"@
    } else if scan.timed_out {
        "Partial scan ("@ + decimal(scan.visited_files) + " files, ~"@ + decimal(
            SUID_SCAN_BUDGET_SECS as nat,
        ) + "s budget) found "@ + decimal(scan.suspicious_count)
            + " potential suspicious SUID files"@
    } else {
        "Found "@ + decimal(scan.suspicious_count) + " potential suspicious SUID files"@
    }
}

/// The result of the check on a finished scan: a pass where the whole walk
/// was made and nothing suspicious was found, else a warning.
pub open spec fn suid_report(scan: SuidScanView) -> CheckResultView {
    report_view(
        "files.suid_suspicious"@,
        "No suspicious SUID files exist outside standard locations"@,
        seq!["security"@, "linux"@],
        if scan.suspicious_count == 0 && !scan.timed_out {
            Status::Pass
        } else {
            Status::Warn
        },
        suid_reason(scan),
        Some("Investigate SUID files; remove SUID bit if unnecessary"@),
        None,
    )
}

/// Whether `path` ends with the path of a program that is known to carry the
/// SUID bit.
pub fn is_known_suid_binary(path: &str) -> (r: bool)
    ensures
        r == ends_with_any(path@, known_suid_binaries()),
{
    let known: &[&str] = &[
        "/usr/bin/ping",
        "/usr/bin/sudo",
        "/bin/mount",
        "/bin/umount",
        "/bin/su",
        "/usr/bin/passwd",
        "/usr/bin/chsh",
        "/usr/bin/newgrp",
        "/usr/bin/gpasswd",
        "/usr/bin/chfn",
    ];
    let p = chars_of(path);
    let r = has_suffix_among(p.as_slice(), known);
    proof {
        assert(known.deep_view() =~= known_suid_binaries());
    }
    r
}

impl View for SuidScan {
    type V = SuidScanView;

    closed spec fn view(&self) -> SuidScanView {
        SuidScanView {
            visited_files: self.visited_files as nat,
            suspicious_count: self.suspicious_count as nat,
            stopped: self.stopped,
            timed_out: self.timed_out,
        }
    }
}

impl SuidScan {
    #[verifier::type_invariant]
    spec fn sound(&self) -> bool {
        &&& self.suspicious_count <= self.visited_files
        &&& self.visited_files <= SUID_SCAN_MAX_FILES
        &&& !self.stopped ==> self.visited_files < SUID_SCAN_MAX_FILES
    }

    /// A scan that has seen nothing yet.
    pub fn new() -> (s: Self)
        ensures
            s@ == fresh_scan(),
    {
        SuidScan { visited_files: 0, suspicious_count: 0, stopped: false, timed_out: false }
    }

    /// Takes in one entry of the walk: its path, whether it is a regular
    /// file, its permission bits where they could be read, and whether the
    /// time given to the scan is up. Returns whether the walk goes on.
    pub fn observe(&mut self, path: &str, is_file: bool, mode: Option<u32>, over_budget: bool) -> (go_on: bool)
        ensures
            final(self)@ == observed(old(self)@, path@, is_file, mode, over_budget),
            go_on == !final(self)@.stopped,
    {
        proof {
            use_type_invariant(&*self);
        }
        if self.stopped {
            return false;
        }
        if !is_file {
            return true;
        }
        let ignored: &[&str] = &[
            "/proc",
            "/sys",
            "/dev",
            "/run",
            "/var/lib/docker",
            "/var/lib/containers",
            "/snap",
            "/boot/efi",
            "/mnt",
            "/media",
            "/tmp",
        ];
        let allowed: &[&str] = &["/usr/bin", "/bin", "/sbin", "/usr/sbin", "/usr/lib", "/usr/libexec"];
        proof {
            assert(ignored.deep_view() =~= ignored_prefixes());
            assert(allowed.deep_view() =~= allowed_prefixes());
        }
        let p = chars_of(path);
        if has_prefix_among(p.as_slice(), ignored) {
            return true;
        }
        let visited = self.visited_files + 1;
        if visited >= SUID_SCAN_MAX_FILES || over_budget {
            *self = SuidScan { visited_files: visited, stopped: true, ..*self };
            return false;
        }
        let suspicious = match mode {
            Some(m) => m & SUID_BIT != 0 && !(has_prefix_among(p.as_slice(), allowed)
                || is_known_suid_binary(path)),
            None => false,
        };
        if suspicious {
            *self = SuidScan {
                visited_files: visited,
                suspicious_count: self.suspicious_count + 1,
                ..*self
            };
        } else {
            *self = SuidScan { visited_files: visited, ..*self };
        }
        true
    }

    /// Ends the scan: it counts as cut short where it had stopped, or where
    /// the time given to it is up now.
    pub fn finish(&mut self, over_budget: bool)
        ensures
            final(self)@ == (SuidScanView {
                timed_out: old(self)@.stopped || over_budget,
                stopped: true,
                ..old(self)@
            }),
    {
        proof {
            use_type_invariant(&*self);
        }
        *self = SuidScan { timed_out: self.stopped || over_budget, stopped: true, ..*self };
    }

    /// How many files were visited.
    pub fn visited_files(&self) -> (n: usize)
        ensures
            n == self@.visited_files,
    {
        self.visited_files
    }

    /// How many of them were suspicious.
    pub fn suspicious_count(&self) -> (n: usize)
        ensures
            n == self@.suspicious_count,
    {
        self.suspicious_count
    }

    /// Whether the scan was cut short.
    pub fn timed_out(&self) -> (b: bool)
        ensures
            b == self@.timed_out,
    {
        self.timed_out
    }
}

impl AuditCheck for SuidFilesCheck {
    open spec fn spec_id(&self) -> Seq<char> {
        "files.suid_suspicious"@
    }

    open spec fn spec_title(&self) -> Seq<char> {
        "No suspicious SUID files exist outside standard locations"@
    }

    open spec fn spec_categories(&self) -> Seq<Seq<char>> {
        seq!["security"@, "linux"@]
    }

    open spec fn spec_run(&self, ctx: &Collectors) -> Option<CheckResultView> {
        Some(suid_report(ctx.probes.suid_scan@))
    }

    fn id(&self) -> (r: &'static str) {
        "files.suid_suspicious"
    }

    fn title(&self) -> (r: &'static str) {
        "No suspicious SUID files exist outside standard locations"
    }

    fn categories(&self) -> (r: &'static [&'static str]) {
        &["security", "linux"]
    }

    fn run(&self, ctx: &Collectors) -> (r: CheckResult) {
        let scan = &ctx.probes.suid_scan;
        let suspicious = scan.suspicious_count();
        let visited = scan.visited_files();
        let timed_out = scan.timed_out();
        let clean = suspicious == 0 && !timed_out;
        let status = if clean {
            Status::Pass
        } else {
            Status::Warn
        };
        let reason = if clean {
            "No suspicious SUID files found".to_owned()
        } else if timed_out {
            let mut s = started("Partial scan (");
            push_decimal(&mut s, visited as u64);
            push_text(&mut s, " files, ~");
            push_decimal(&mut s, SUID_SCAN_BUDGET_SECS);
            push_text(&mut s, "s budget) found ");
            push_decimal(&mut s, suspicious as u64);
            push_text(&mut s, " potential suspicious SUID files");
            s
        } else {
            let mut s = started("Found ");
            push_decimal(&mut s, suspicious as u64);
            push_text(&mut s, " potential suspicious SUID files");
            s
        };
        proof {
            reveal_strlit("No suspicious SUID files found");
            reveal_strlit("Partial scan (");
            reveal_strlit("Found ");
        }
        CheckResult::of(
            self.id(),
            self.title(),
            self.categories(),
            status,
            reason,
            Some("Investigate SUID files; remove SUID bit if unnecessary".to_owned()),
            None,
        )
    }
}

} // verus!
