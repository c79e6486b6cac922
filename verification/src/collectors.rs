//! The snapshot of a host that every check reads.

use crate::checks::files::{fresh_scan, SuidScan};
use crate::text::{
    all_digits, as_nat, before, chars_of, digit_of, digit_value, digits_value, lines,
    opt_view, read_digits, slice_views, split_at_first, split_lines, split_once, split_words,
    string_of, strip_prefix, to_lowercase, trim, trim_matches, trimmed, trimmed_of,
    unicode_lowercase, without_prefix, words,
};
use vstd::prelude::*;

verus! {

/// A map from texts to values.
#[derive(Debug, Clone)]
pub struct TextMap<V> {
    entries: Vec<(String, V)>,
}

/// The map that a list of entries stands for: a later entry replaces an
/// earlier one of the same key.
pub open spec fn entries_map<V>(s: Seq<(String, V)>) -> Map<Seq<char>, V>
    decreases s.len(),
{
    if s.len() == 0 {
        Map::empty()
    } else {
        entries_map(s.drop_last()).insert(s.last().0@, s.last().1)
    }
}

proof fn lemma_entries_map_absent<V>(s: Seq<(String, V)>, key: Seq<char>)
    requires
        forall|j: int| 0 <= j < s.len() ==> (#[trigger] s[j]).0@ != key,
    ensures
        !entries_map(s).contains_key(key),
    decreases s.len(),
{
    if s.len() > 0 {
        let t = s.drop_last();
        assert forall|j: int| 0 <= j < t.len() implies (#[trigger] t[j]).0@ != key by {
            assert(t[j] == s[j]);
        }
        lemma_entries_map_absent(t, key);
        assert(s.last() == s[s.len() - 1]);
    }
}

proof fn lemma_entries_map_found<V>(s: Seq<(String, V)>, key: Seq<char>, i: int)
    requires
        0 <= i < s.len(),
        s[i].0@ == key,
        forall|j: int| i < j < s.len() ==> (#[trigger] s[j]).0@ != key,
    ensures
        entries_map(s).contains_key(key),
        entries_map(s)[key] == s[i].1,
    decreases s.len(),
{
    if i < s.len() - 1 {
        let t = s.drop_last();
        assert forall|j: int| i < j < t.len() implies (#[trigger] t[j]).0@ != key by {
            assert(t[j] == s[j]);
        }
        assert(t[i] == s[i]);
        lemma_entries_map_found(t, key, i);
        assert(s.last() == s[s.len() - 1]);
    }
}

impl<V> View for TextMap<V> {
    type V = Map<Seq<char>, V>;

    closed spec fn view(&self) -> Map<Seq<char>, V> {
        entries_map(self.entries@)
    }
}

impl<V> TextMap<V> {
    /// A map without entries.
    pub fn new() -> (m: Self)
        ensures
            m@ == Map::<Seq<char>, V>::empty(),
    {
        TextMap { entries: Vec::new() }
    }

    /// The map that `entries` stand for: a later entry replaces an earlier
    /// one of the same key.
    pub fn from_entries(entries: Vec<(String, V)>) -> (m: Self)
        ensures
            m@ == entries_map(entries@),
    {
        TextMap { entries }
    }

    /// Sets the value of `key`.
    pub fn insert(&mut self, key: String, value: V)
        ensures
            final(self)@ == old(self)@.insert(key@, value),
    {
        self.entries.push((key, value));
        proof {
            assert(self.entries@.drop_last() =~= old(self).entries@);
        }
    }

    /// The value of `key`, where it has one.
    pub fn get(&self, key: &str) -> (r: Option<&V>)
        ensures
            match r {
                Some(v) => self@.contains_key(key@) && *v == self@[key@],
                None => !self@.contains_key(key@),
            },
    {
        let wanted = crate::text::chars_of(key);
        let mut i: usize = self.entries.len();
        while i > 0
            invariant
                i <= self.entries@.len(),
                wanted@ == key@,
                forall|j: int| i <= j < self.entries@.len() ==> (#[trigger] self.entries@[j]).0@ != key@,
            decreases i,
        {
            i -= 1;
            let name = crate::text::chars_of(self.entries[i].0.as_str());
            if crate::text::same_chars(name.as_slice(), wanted.as_slice()) {
                proof {
                    lemma_entries_map_found(self.entries@, key@, i as int);
                }
                return Some(&self.entries[i].1);
            }
        }
        proof {
            lemma_entries_map_absent(self.entries@, key@);
        }
        None
    }
}

/// Whether something was found at `path`, by the flags `files`: a path
/// without a flag counts as not found.
pub open spec fn found(files: Map<Seq<char>, bool>, path: Seq<char>) -> bool {
    files.contains_key(path) && files[path]
}

/// Decides [`found`].
pub fn was_found(files: &TextMap<bool>, path: &str) -> (r: bool)
    ensures
        r == found(files@, path@),
{
    match files.get(path) {
        Some(b) => *b,
        None => false,
    }
}

/// The flags of exactly the paths of `list`: each says whether `seen` found
/// something there.
pub open spec fn flags_of(list: Seq<Seq<char>>, seen: Map<Seq<char>, bool>) -> Map<
    Seq<char>,
    bool,
> {
    Map::new(|p: Seq<char>| list.contains(p), |p: Seq<char>| found(seen, p))
}

/// Computes [`flags_of`].
pub fn flags_for(list: &[&str], seen: &TextMap<bool>) -> (m: TextMap<bool>)
    ensures
        m@ == flags_of(list.deep_view(), seen@),
{
    let mut m: TextMap<bool> = TextMap::new();
    let ghost all = list.deep_view();
    let mut i: usize = 0;
    proof {
        assert(m@ =~= flags_of(all.take(0), seen@));
    }
    while i < list.len()
        invariant
            i <= list@.len(),
            all == list.deep_view(),
            m@ == flags_of(all.take(i as int), seen@),
        decreases list@.len() - i,
    {
        let ghost before = m@;
        let flag = was_found(seen, list[i]);
        m.insert(list[i].to_owned(), flag);
        proof {
            let p = all[i as int];
            let done = all.take(i as int);
            let next = all.take(i + 1);
            assert(p == list@[i as int]@);
            assert forall|q: Seq<char>| next.contains(q) <==> (done.contains(q) || q == p) by {
                if next.contains(q) {
                    let j = choose|j: int| 0 <= j < next.len() && next[j] == q;
                    if j < i {
                        assert(done[j] == q);
                    }
                }
                if done.contains(q) {
                    let j = choose|j: int| 0 <= j < done.len() && done[j] == q;
                    assert(next[j] == q);
                }
                if q == p {
                    assert(next[i as int] == q);
                }
            }
            assert(before.insert(p, flag) =~= flags_of(next, seen@));
        }
        i += 1;
    }
    proof {
        assert(all.take(list@.len() as int) =~= all);
    }
    m
}

/// The paths whose existence every snapshot records.
pub open spec fn snapshot_path_list() -> Seq<Seq<char>> {
    seq!["/var/run/reboot-required"@, "/etc/sudoers"@, "/etc/security/pwquality.conf"@]
}

/// The paths whose existence every snapshot records.
pub fn snapshot_paths() -> (r: &'static [&'static str])
    ensures
        r.deep_view() == snapshot_path_list(),
{
    &["/var/run/reboot-required", "/etc/sudoers", "/etc/security/pwquality.conf"]
}

/// Who the host is and how loaded.
#[derive(Debug, Clone)]
pub struct SystemInfo {
    pub hostname: Option<String>,
    pub os_pretty_name: Option<String>,
    pub kernel_version: Option<String>,
    pub uptime_seconds: u64,
    pub total_memory_bytes: u64,
    pub total_swap_bytes: u64,
    /// The load average over one minute, in hundredths.
    pub load_average_1m_hundredths: Option<u64>,
}

/// Disk space over all mounted file systems.
#[derive(Debug, Clone, Copy)]
pub struct DiskInfo {
    pub total_bytes: u64,
    pub available_bytes: u64,
}

/// The effective configuration of the SSH daemon: whether it could be had,
/// its settings by lower-case name, and what the daemon said where it could
/// not.
#[derive(Debug, Clone)]
pub struct SshdConfigDump {
    pub ok: bool,
    pub values: TextMap<String>,
    pub stderr: Option<String>,
}

/// What was read for single checks: file contents as they were found, each
/// `None` where the file could not be read.
#[derive(Debug, Clone)]
pub struct ProbeReadings {
    /// `/proc/sys/net/ipv4/ip_unprivileged_port_start`
    pub unprivileged_port_start: Option<String>,
    /// `/proc/meminfo`
    pub meminfo: Option<String>,
    /// `/etc/sudoers`
    pub sudoers: Option<String>,
    /// `/etc/security/pwquality.conf`
    pub pwquality: Option<String>,
    /// `/proc/net/tcp`
    pub net_tcp: Option<String>,
    /// `/proc/net/tcp6`
    pub net_tcp6: Option<String>,
    /// `/proc/net/udp`
    pub net_udp: Option<String>,
    /// `/proc/net/udp6`
    pub net_udp6: Option<String>,
    /// The paths by which firewall tooling is told, and whether something
    /// was found at each.
    pub firewall_paths: TextMap<bool>,
    /// The nftables configuration files that could be read, in reading order.
    pub nftables_configs: Vec<String>,
    /// The walk over the file system in search of SUID files.
    pub suid_scan: SuidScan,
}

/// One snapshot of the host. It is made once, before any check runs, and
/// only read afterwards.
#[derive(Debug, Clone)]
pub struct Collectors {
    pub system: SystemInfo,
    pub disk: DiskInfo,
    pub sshd: Option<SshdConfigDump>,
    pub files_exist: TextMap<bool>,
    pub probes: ProbeReadings,
}

/// What came of running `sshd -T`: whether it succeeded, and what it wrote.
#[derive(Debug, Clone)]
pub struct SshdRun {
    pub success: bool,
    pub stdout: String,
    pub stderr: String,
}

/// What was read from the host, as it was found, before any of it is
/// interpreted.
#[derive(Debug, Clone)]
pub struct HostReadings {
    pub hostname: Option<String>,
    pub kernel_version: Option<String>,
    pub uptime_seconds: u64,
    pub total_memory_bytes: u64,
    pub total_swap_bytes: u64,
    /// `/etc/os-release`, where it could be read.
    pub os_release: Option<String>,
    /// `/proc/loadavg`, where it could be read.
    pub loadavg: Option<String>,
    /// The space of each mounted file system.
    pub disks: Vec<DiskInfo>,
    /// The run of `sshd -T`, where the daemon could be started.
    pub sshd_run: Option<SshdRun>,
    /// `/etc/ssh/sshd_config`, where it could be read.
    pub sshd_config: Option<String>,
    /// Paths, and whether something was found at each. Of these the
    /// snapshot keeps the flags of [`snapshot_paths`]; a later entry replaces
    /// an earlier one of the same path.
    pub paths: Vec<(String, bool)>,
    pub probes: ProbeReadings,
}

/// Whether `p` holds the readings of a host on which nothing could be read
/// and no file was visited.
pub open spec fn nothing_read(p: ProbeReadings) -> bool {
    &&& p.unprivileged_port_start is None
    &&& p.meminfo is None
    &&& p.sudoers is None
    &&& p.pwquality is None
    &&& p.net_tcp is None
    &&& p.net_tcp6 is None
    &&& p.net_udp is None
    &&& p.net_udp6 is None
    &&& p.firewall_paths@ == Map::<Seq<char>, bool>::empty()
    &&& p.nftables_configs@.len() == 0
    &&& p.suid_scan@ == fresh_scan()
}

impl ProbeReadings {
    /// The readings of a host on which nothing could be read and no file
    /// was visited.
    pub fn empty() -> (p: Self)
        ensures
            nothing_read(p),
    {
        ProbeReadings {
            unprivileged_port_start: None,
            meminfo: None,
            sudoers: None,
            pwquality: None,
            net_tcp: None,
            net_tcp6: None,
            net_udp: None,
            net_udp6: None,
            firewall_paths: TextMap::new(),
            nftables_configs: Vec::new(),
            suid_scan: SuidScan::new(),
        }
    }
}

impl HostReadings {
    /// The readings of a host of which nothing is known.
    pub fn empty() -> (r: Self)
        ensures
            r.hostname is None,
            r.kernel_version is None,
            r.uptime_seconds == 0,
            r.total_memory_bytes == 0,
            r.total_swap_bytes == 0,
            r.os_release is None,
            r.loadavg is None,
            r.disks@.len() == 0,
            r.sshd_run is None,
            r.sshd_config is None,
            r.paths@.len() == 0,
            nothing_read(r.probes),
    {
        HostReadings {
            hostname: None,
            kernel_version: None,
            uptime_seconds: 0,
            total_memory_bytes: 0,
            total_swap_bytes: 0,
            os_release: None,
            loadavg: None,
            disks: Vec::new(),
            sshd_run: None,
            sshd_config: None,
            paths: Vec::new(),
            probes: ProbeReadings::empty(),
        }
    }
}

/// The values of a map of strings as texts.
pub open spec fn texts(m: Map<Seq<char>, String>) -> Map<Seq<char>, Seq<char>> {
    Map::new(|k: Seq<char>| m.contains_key(k), |k: Seq<char>| m[k]@)
}

/// The name that a line of `os-release` gives: the line, trimmed, begins
/// with `PRETTY_NAME=`; the name is what follows, trimmed and without the
/// quotation marks around it.
pub open spec fn pretty_name_of_line(line: Seq<char>) -> Option<Seq<char>> {
    match strip_prefix(trim(line), "PRETTY_NAME="@) {
        Some(rest) => Some(trim_matches(trim(rest), '"')),
        None => None,
    }
}

/// The name that the first of the lines that give one gives.
pub open spec fn first_pretty_name(ls: Seq<Seq<char>>) -> Option<Seq<char>>
    decreases ls.len(),
{
    if ls.len() == 0 {
        None
    } else {
        match pretty_name_of_line(ls[0]) {
            Some(name) => Some(name),
            None => first_pretty_name(ls.drop_first()),
        }
    }
}

/// The pretty name of the operating system, as `os-release` gives it.
pub open spec fn pretty_name(content: Seq<char>) -> Option<Seq<char>> {
    first_pretty_name(lines(content))
}

/// Computes [`pretty_name`].
pub fn parse_pretty_name(content: &str) -> (r: Option<String>)
    ensures
        opt_view(r) == pretty_name(content@),
{
    let chars = chars_of(content);
    let ls = split_lines(chars.as_slice());
    let key = chars_of("PRETTY_NAME=");
    let ghost all = slice_views(ls@);
    let mut i: usize = 0;
    proof {
        assert(all.skip(0) =~= all);
    }
    while i < ls.len()
        invariant
            i <= ls@.len(),
            all == slice_views(ls@),
            all == lines(content@),
            key@ == "PRETTY_NAME="@,
            first_pretty_name(all) == first_pretty_name(all.skip(i as int)),
        decreases ls@.len() - i,
    {
        proof {
            assert(all.skip(i as int)[0] == ls@[i as int]@);
            assert(all.skip(i as int).drop_first() =~= all.skip(i + 1));
        }
        match without_prefix(trimmed(ls[i]), key.as_slice()) {
            Some(rest) => {
                return Some(string_of(trimmed_of(trimmed(rest), '"')));
            },
            None => {},
        }
        i += 1;
    }
    None
}

/// The largest whole part of a load average whose hundredths fit 64 bits.
pub const MAX_WHOLE_LOAD: u64 = 184467440737095515;

/// The value of the decimal place `i` of `frac`: 0 where it has none.
pub open spec fn place(frac: Seq<char>, i: int) -> nat {
    if i < frac.len() {
        match digit_value(frac[i], 10) {
            Some(d) => d,
            None => 0,
        }
    } else {
        0
    }
}

/// The hundredths that a decimal numeral spells: digits, then optionally a
/// point and more digits, with a digit somewhere. Of the decimal places the
/// first two count. A numeral in another form, or one too large for 64 bits,
/// spells nothing.
pub open spec fn hundredths_of(s: Seq<char>) -> Option<nat> {
    let whole = before(s, '.');
    let frac = match split_once(s, '.') {
        Some((_, f)) => f,
        None => Seq::<char>::empty(),
    };
    if whole.len() + frac.len() == 0 {
        None
    } else {
        match (digits_value(whole, 10), digits_value(frac, 10)) {
            (Some(w), Some(_)) => if w <= MAX_WHOLE_LOAD {
                Some(w * 100 + place(frac, 0) * 10 + place(frac, 1))
            } else {
                None
            },
            _ => None,
        }
    }
}

/// The load average over one minute, in hundredths, as `/proc/loadavg`
/// gives it: what its first word spells.
pub open spec fn loadavg_of(content: Seq<char>) -> Option<nat> {
    if words(content).len() == 0 {
        None
    } else {
        hundredths_of(words(content)[0])
    }
}

/// The decimal place `i` of `frac`.
fn place_of(frac: &[char], i: usize) -> (r: u64)
    ensures
        r == place(frac@, i as int),
        r < 10,
{
    if i < frac.len() {
        match digit_of(frac[i], 10) {
            Some(d) => d as u64,
            None => 0,
        }
    } else {
        0
    }
}

/// Computes [`hundredths_of`].
pub fn parse_hundredths(s: &[char]) -> (r: Option<u64>)
    ensures
        as_nat(r) == hundredths_of(s@),
{
    let (whole, frac): (&[char], &[char]) = match split_at_first(s, '.') {
        Some((w, f)) => (w, f),
        None => (s, vstd::slice::slice_subrange(s, 0, 0)),
    };
    proof {
        if split_once(s@, '.') is None {
            crate::text::lemma_prefix_len_bound(s@, crate::text::other_than('.'));
            assert(whole@ =~= before(s@, '.'));
            assert(frac@ =~= Seq::<char>::empty());
        }
    }
    if whole.len() == 0 && frac.len() == 0 {
        return None;
    }
    if !all_digits(frac) {
        return None;
    }
    match read_digits(whole, 10, MAX_WHOLE_LOAD) {
        Some(w) => Some(w * 100 + place_of(frac, 0) * 10 + place_of(frac, 1)),
        None => None,
    }
}

/// Computes [`loadavg_of`].
pub fn read_loadavg(content: &str) -> (r: Option<u64>)
    ensures
        as_nat(r) == loadavg_of(content@),
{
    let chars = chars_of(content);
    let parts = split_words(chars.as_slice());
    if parts.len() == 0 {
        return None;
    }
    proof {
        assert(slice_views(parts@)[0] == parts@[0]@);
    }
    parse_hundredths(parts[0])
}

/// The sum of two numbers, or the largest number of 64 bits where the sum
/// is larger.
pub open spec fn capped_sum(a: u64, b: u64) -> u64 {
    if a + b > u64::MAX {
        u64::MAX
    } else {
        (a + b) as u64
    }
}

/// The space of all file systems together: the sums of their totals and of
/// what is available, each capped at the largest number of 64 bits.
pub open spec fn disk_totals(disks: Seq<DiskInfo>) -> DiskInfo
    decreases disks.len(),
{
    if disks.len() == 0 {
        DiskInfo { total_bytes: 0, available_bytes: 0 }
    } else {
        let before = disk_totals(disks.drop_last());
        DiskInfo {
            total_bytes: capped_sum(before.total_bytes, disks.last().total_bytes),
            available_bytes: capped_sum(before.available_bytes, disks.last().available_bytes),
        }
    }
}

/// Computes [`disk_totals`].
pub fn sum_disks(disks: &Vec<DiskInfo>) -> (r: DiskInfo)
    ensures
        r == disk_totals(disks@),
{
    let mut total: u64 = 0;
    let mut available: u64 = 0;
    let mut i: usize = 0;
    proof {
        assert(disks@.take(0) =~= Seq::<DiskInfo>::empty());
    }
    while i < disks.len()
        invariant
            i <= disks@.len(),
            disk_totals(disks@.take(i as int)) == (DiskInfo {
                total_bytes: total,
                available_bytes: available,
            }),
        decreases disks@.len() - i,
    {
        proof {
            assert(disks@.take(i + 1).drop_last() =~= disks@.take(i as int));
            assert(disks@.take(i + 1).last() == disks@[i as int]);
        }
        total = total.saturating_add(disks[i].total_bytes);
        available = available.saturating_add(disks[i].available_bytes);
        i += 1;
    }
    proof {
        assert(disks@.take(disks@.len() as int) =~= disks@);
    }
    DiskInfo { total_bytes: total, available_bytes: available }
}

/// Whether `name` is a text in lower case: what some text becomes when put
/// in lower case.
pub open spec fn is_lowercased(name: Seq<char>) -> bool {
    exists|t: Seq<char>| name == #[trigger] unicode_lowercase(t)
}

/// Whether every name of `m` is in lower case.
pub open spec fn names_lowercased<V>(m: Map<Seq<char>, V>) -> bool {
    forall|k: Seq<char>| m.contains_key(k) ==> is_lowercased(k)
}

/// The setting that a line gives: the name before the first space, trimmed
/// and put in lower case, and the value after it, trimmed. A line without a
/// space gives none.
pub open spec fn setting_of_line(line: Seq<char>) -> Option<(Seq<char>, Seq<char>)> {
    match split_once(line, ' ') {
        Some((k, v)) => Some((unicode_lowercase(trim(k)), trim(v))),
        None => None,
    }
}

/// The setting that a line of `sshd_config` gives: the line is trimmed, and
/// gives none where it is empty or begins with `#`; else it is put in lower
/// case as a whole, the value with the name, and read as by
/// [`setting_of_line`].
pub open spec fn config_setting_of_line(line: Seq<char>) -> Option<(Seq<char>, Seq<char>)> {
    let t = trim(line);
    if t.len() == 0 || t[0] == '#' {
        None
    } else {
        setting_of_line(unicode_lowercase(t))
    }
}

/// The settings that lines give, by name in lower case, a later line
/// replacing an earlier one of the same name. `config` says whether the
/// lines are those of `sshd_config` or those that the daemon prints.
pub open spec fn settings_of(ls: Seq<Seq<char>>, config: bool) -> Map<Seq<char>, Seq<char>>
    decreases ls.len(),
{
    if ls.len() == 0 {
        Map::empty()
    } else {
        let before = settings_of(ls.drop_last(), config);
        let setting = if config {
            config_setting_of_line(ls.last())
        } else {
            setting_of_line(ls.last())
        };
        match setting {
            Some((k, v)) => before.insert(k, v),
            None => before,
        }
    }
}

/// The names of the settings that lines give are all in lower case.
pub proof fn lemma_setting_names_lowercased(ls: Seq<Seq<char>>, config: bool)
    ensures
        names_lowercased(settings_of(ls, config)),
    decreases ls.len(),
{
    if ls.len() > 0 {
        lemma_setting_names_lowercased(ls.drop_last(), config);
        let line = if config {
            unicode_lowercase(trim(ls.last()))
        } else {
            ls.last()
        };
        match split_once(line, ' ') {
            Some((k, v)) => {
                assert(is_lowercased(unicode_lowercase(trim(k))));
            },
            None => {},
        }
    }
}

/// Takes the setting of `line` into `map`, where the line gives one.
fn add_setting(map: &mut TextMap<String>, line: &[char])
    ensures
        texts(final(map)@) == match setting_of_line(line@) {
            Some((k, v)) => texts(old(map)@).insert(k, v),
            None => texts(old(map)@),
        },
{
    match split_at_first(line, ' ') {
        Some((k, v)) => {
            let name = string_of(trimmed(k));
            let key = to_lowercase(name.as_str());
            let value = string_of(trimmed(v));
            map.insert(key, value);
            proof {
                assert(texts(map@) =~= texts(old(map)@).insert(key@, value@));
            }
        },
        None => {},
    }
}

/// The settings that the output of `sshd -T` gives, by name in lower case.
pub fn parse_sshd_dump(stdout: &str) -> (map: TextMap<String>)
    ensures
        texts(map@) == settings_of(lines(stdout@), false),
        names_lowercased(map@),
{
    let chars = chars_of(stdout);
    let ls = split_lines(chars.as_slice());
    let mut map: TextMap<String> = TextMap::new();
    let ghost all = slice_views(ls@);
    let mut i: usize = 0;
    proof {
        assert(all.take(0) =~= Seq::<Seq<char>>::empty());
        assert(texts(map@) =~= Map::<Seq<char>, Seq<char>>::empty());
    }
    while i < ls.len()
        invariant
            i <= ls@.len(),
            all == slice_views(ls@),
            texts(map@) == settings_of(all.take(i as int), false),
        decreases ls@.len() - i,
    {
        proof {
            assert(all.take(i + 1).drop_last() =~= all.take(i as int));
            assert(all.take(i + 1).last() == ls@[i as int]@);
        }
        add_setting(&mut map, ls[i]);
        i += 1;
    }
    proof {
        assert(all.take(ls@.len() as int) =~= all);
        lemma_setting_names_lowercased(all, false);
        assert forall|k: Seq<char>| map@.contains_key(k) implies is_lowercased(k) by {
            assert(texts(map@).contains_key(k));
        }
    }
    map
}

/// The settings that the content of `sshd_config` gives, by name in lower
/// case.
pub fn parse_sshd_config(content: &str) -> (map: TextMap<String>)
    ensures
        texts(map@) == settings_of(lines(content@), true),
        names_lowercased(map@),
{
    let chars = chars_of(content);
    let ls = split_lines(chars.as_slice());
    let mut map: TextMap<String> = TextMap::new();
    let ghost all = slice_views(ls@);
    let mut i: usize = 0;
    proof {
        assert(all.take(0) =~= Seq::<Seq<char>>::empty());
        assert(texts(map@) =~= Map::<Seq<char>, Seq<char>>::empty());
    }
    while i < ls.len()
        invariant
            i <= ls@.len(),
            all == slice_views(ls@),
            texts(map@) == settings_of(all.take(i as int), true),
        decreases ls@.len() - i,
    {
        proof {
            assert(all.take(i + 1).drop_last() =~= all.take(i as int));
            assert(all.take(i + 1).last() == ls@[i as int]@);
        }
        let t = trimmed(ls[i]);
        if t.len() > 0 && t[0] != '#' {
            let line = string_of(t);
            let lower = to_lowercase(line.as_str());
            let lower_chars = chars_of(lower.as_str());
            add_setting(&mut map, lower_chars.as_slice());
        }
        i += 1;
    }
    proof {
        assert(all.take(ls@.len() as int) =~= all);
        lemma_setting_names_lowercased(all, true);
        assert forall|k: Seq<char>| map@.contains_key(k) implies is_lowercased(k) by {
            assert(texts(map@).contains_key(k));
        }
    }
    map
}

/// Whether `dump` is the configuration of the SSH daemon that the readings
/// give: that of the run of `sshd -T` where the daemon could be started,
/// with its settings where the run succeeded and with what it wrote to
/// standard error where it failed; else that of `sshd_config` where the file
/// could be read; else none. The settings go by name in lower case.
pub open spec fn is_sshd_dump_of(
    run: Option<SshdRun>,
    config: Option<String>,
    dump: Option<SshdConfigDump>,
) -> bool {
    match run {
        Some(out) => dump matches Some(d) && d.ok == out.success && names_lowercased(d.values@)
            && if out.success {
            texts(d.values@) == settings_of(lines(out.stdout@), false) && d.stderr is None
        } else {
            d.values@ == Map::<Seq<char>, String>::empty() && opt_view(d.stderr) == Some(
                out.stderr@,
            )
        },
        None => match config {
            Some(c) => dump matches Some(d) && d.ok && names_lowercased(d.values@) && texts(
                d.values@,
            ) == settings_of(lines(c@), true) && d.stderr is None,
            None => dump is None,
        },
    }
}

/// The configuration of the SSH daemon that the readings give.
pub fn dump_sshd_config(run: &Option<SshdRun>, config: &Option<String>) -> (dump: Option<
    SshdConfigDump,
>)
    ensures
        is_sshd_dump_of(*run, *config, dump),
{
    match run {
        Some(out) => {
            if out.success {
                Some(
                    SshdConfigDump {
                        ok: true,
                        values: parse_sshd_dump(out.stdout.as_str()),
                        stderr: None,
                    },
                )
            } else {
                Some(
                    SshdConfigDump {
                        ok: false,
                        values: TextMap::new(),
                        stderr: Some(out.stderr.clone()),
                    },
                )
            }
        },
        None => match config {
            Some(c) => Some(
                SshdConfigDump { ok: true, values: parse_sshd_config(c.as_str()), stderr: None },
            ),
            None => None,
        },
    }
}

/// The pretty name that an optional reading of `os-release` gives.
pub open spec fn pretty_name_of(os_release: Option<String>) -> Option<Seq<char>> {
    match os_release {
        Some(c) => pretty_name(c@),
        None => None,
    }
}

/// The load average that an optional reading of `/proc/loadavg` gives.
pub open spec fn load_of(loadavg: Option<String>) -> Option<nat> {
    match loadavg {
        Some(c) => loadavg_of(c@),
        None => None,
    }
}

impl Collectors {
    /// The snapshot that the readings give. The identity of the host, its
    /// uptime and memory and the readings for single checks are taken as
    /// they are; the name of the operating system, the load average, the
    /// disk space and the configuration of the SSH daemon are read out of
    /// what was found. The snapshot holds a flag for each of
    /// [`snapshot_paths`] and for no other path: whether the readings found
    /// something there.
    pub fn collect(raw: HostReadings) -> (c: Self)
        ensures
            c.system.hostname == raw.hostname,
            c.system.kernel_version == raw.kernel_version,
            c.system.uptime_seconds == raw.uptime_seconds,
            c.system.total_memory_bytes == raw.total_memory_bytes,
            c.system.total_swap_bytes == raw.total_swap_bytes,
            opt_view(c.system.os_pretty_name) == pretty_name_of(raw.os_release),
            as_nat(c.system.load_average_1m_hundredths) == load_of(
                raw.loadavg,
            ),
            c.disk == disk_totals(raw.disks@),
            is_sshd_dump_of(raw.sshd_run, raw.sshd_config, c.sshd),
            c.files_exist@ == flags_of(snapshot_path_list(), entries_map(raw.paths@)),
            c.probes == raw.probes,
    {
        let os_pretty_name = match &raw.os_release {
            Some(content) => parse_pretty_name(content.as_str()),
            None => None,
        };
        let load_average_1m_hundredths = match &raw.loadavg {
            Some(content) => read_loadavg(content.as_str()),
            None => None,
        };
        let disk = sum_disks(&raw.disks);
        let sshd = dump_sshd_config(&raw.sshd_run, &raw.sshd_config);
        let seen = TextMap::from_entries(raw.paths);
        let files_exist = flags_for(snapshot_paths(), &seen);
        Collectors {
            system: SystemInfo {
                hostname: raw.hostname,
                os_pretty_name,
                kernel_version: raw.kernel_version,
                uptime_seconds: raw.uptime_seconds,
                total_memory_bytes: raw.total_memory_bytes,
                total_swap_bytes: raw.total_swap_bytes,
                load_average_1m_hundredths,
            },
            disk,
            sshd,
            files_exist,
            probes: raw.probes,
        }
    }
}

} // verus!
