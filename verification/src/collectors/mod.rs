//! Reading the `key=value` report that the fixed collector script prints,
//! and the decisions around a collection: which servers are collected, by
//! which route, and what a failed command reports.
pub mod local;
pub mod proxmox;
pub mod ssh;
pub mod truenas;

use vstd::prelude::*;
use crate::config::{AppConfig, ServerConfig, ServerView};
use crate::config::opt_text;
use crate::model::{
    DiskMetrics, DiskView, Freshness, HostFacts, HostSource, HostStatus, NetworkMetrics, RamMetrics,
    SourceView, StorageMetrics, disk_views, endpoint_of, source_text,
};
use crate::text::{
    chars_of, eq_str, parse_u16, parse_u64, parse_unsigned, split_chars, split_on, string_of,
    sub_chars, trim, trim_chars, find_first, find_char, views, lemma_split_on_nonempty, decimal,
    u64_text, string_views, debug_quoted, lemma_decimal_round_trip, lemma_first_index_unique, is_first_index,
    is_ws, is_ascii_digit, trim_start,
};

verus! {

/// How long collected metrics stay fresh: 15 seconds, in nanoseconds.
pub const DEFAULT_STALE_AFTER_NANOS: u128 = 15_000_000_000;

/// Why collecting a host failed.
#[derive(Clone, Debug, PartialEq, Eq)]
pub enum CollectorError {
    DisabledHost(String),
    UnsupportedSource(String),
    /// An I/O error, by its message.
    Io(String),
    /// Output that was not UTF-8, by the decoder's message.
    Utf8(String),
    CommandFailed { code: Option<i32>, stderr: String },
}

/// An `i32` as `{:?}` prints it: its decimal digits, after `-` when negative.
pub open spec fn signed_text(n: i32) -> Seq<char> {
    if n < 0 {
        "-"@ + decimal((-(n as int)) as nat)
    } else {
        decimal(n as nat)
    }
}

/// The message of a collector error, as it is shown to users.
pub open spec fn collector_error_text(e: CollectorError) -> Seq<char> {
    match e {
        CollectorError::DisabledHost(id) => "host '"@ + id@ + "' is disabled"@,
        CollectorError::UnsupportedSource(s) => "unsupported source for MVP: "@ + s@,
        CollectorError::Io(m) => "collector I/O error: "@ + m@,
        CollectorError::Utf8(m) => "collector output was not UTF-8: "@ + m@,
        CollectorError::CommandFailed { code, stderr } => "collector command failed (code "@
            + match code {
            Some(c) => "Some("@ + signed_text(c) + ")"@,
            None => "None"@,
        } + "): "@ + stderr@,
    }
}

fn signed_string(n: i32) -> (r: String)
    ensures
        r@ == signed_text(n),
{
    if n < 0 {
        let m: u64 = (-(n as i64)) as u64;
        let s = String::from_str("-");
        s.concat(u64_text(m).as_str())
    } else {
        u64_text(n as u64)
    }
}

impl CollectorError {
    /// The message shown to users (see `collector_error_text`).
    pub fn message(&self) -> (r: String)
        ensures
            r@ == collector_error_text(*self),
    {
        match self {
            CollectorError::DisabledHost(id) => {
                let mut s = String::from_str("host '");
                s.append(id.as_str());
                s.append("' is disabled");
                s
            },
            CollectorError::UnsupportedSource(m) => {
                let s = String::from_str("unsupported source for MVP: ");
                s.concat(m.as_str())
            },
            CollectorError::Io(m) => {
                let s = String::from_str("collector I/O error: ");
                s.concat(m.as_str())
            },
            CollectorError::Utf8(m) => {
                let s = String::from_str("collector output was not UTF-8: ");
                s.concat(m.as_str())
            },
            CollectorError::CommandFailed { code, stderr } => {
                let mut s = String::from_str("collector command failed (code ");
                match code {
                    Some(c) => {
                        s.append("Some(");
                        s.append(signed_string(*c).as_str());
                        s.append(")");
                    },
                    None => {
                        s.append("None");
                    },
                }
                s.append("): ");
                s.append(stderr.as_str());
                s
            },
        }
    }
}

/// The collector's report as plain fields; absent or unreadable values are `None`.
#[derive(Clone, Debug, PartialEq, Eq)]
pub struct RawHostSnapshot {
    pub hostname: Option<String>,
    pub kernel: Option<String>,
    pub uptime_seconds: Option<u64>,
    pub loadavg: Option<String>,
    pub cpu_cores: Option<u16>,
    pub cpu_temp_millicelsius: Option<u64>,
    pub mem_total_kib: Option<u64>,
    pub mem_available_kib: Option<u64>,
    pub net_rx_bytes: Option<u64>,
    pub net_tx_bytes: Option<u64>,
    pub root_total_kib: Option<u64>,
    pub root_used_kib: Option<u64>,
    pub root_available_kib: Option<u64>,
    pub disks: Vec<DiskMetrics>,
}

pub struct RawView {
    pub hostname: Option<Seq<char>>,
    pub kernel: Option<Seq<char>>,
    pub uptime_seconds: Option<u64>,
    pub loadavg: Option<Seq<char>>,
    pub cpu_cores: Option<u16>,
    pub cpu_temp_millicelsius: Option<u64>,
    pub mem_total_kib: Option<u64>,
    pub mem_available_kib: Option<u64>,
    pub net_rx_bytes: Option<u64>,
    pub net_tx_bytes: Option<u64>,
    pub root_total_kib: Option<u64>,
    pub root_used_kib: Option<u64>,
    pub root_available_kib: Option<u64>,
    pub disks: Seq<DiskView>,
}

pub open spec fn opt_view(o: Option<String>) -> Option<Seq<char>> {
    match o {
        Some(s) => Some(s@),
        None => None,
    }
}

impl View for RawHostSnapshot {
    type V = RawView;

    open spec fn view(&self) -> RawView {
        RawView {
            hostname: opt_view(self.hostname),
            kernel: opt_view(self.kernel),
            uptime_seconds: self.uptime_seconds,
            loadavg: opt_view(self.loadavg),
            cpu_cores: self.cpu_cores,
            cpu_temp_millicelsius: self.cpu_temp_millicelsius,
            mem_total_kib: self.mem_total_kib,
            mem_available_kib: self.mem_available_kib,
            net_rx_bytes: self.net_rx_bytes,
            net_tx_bytes: self.net_tx_bytes,
            root_total_kib: self.root_total_kib,
            root_used_kib: self.root_used_kib,
            root_available_kib: self.root_available_kib,
            disks: disk_views(self.disks@),
        }
    }
}

pub open spec fn empty_raw() -> RawView {
    RawView {
        hostname: None,
        kernel: None,
        uptime_seconds: None,
        loadavg: None,
        cpu_cores: None,
        cpu_temp_millicelsius: None,
        mem_total_kib: None,
        mem_available_kib: None,
        net_rx_bytes: None,
        net_tx_bytes: None,
        root_total_kib: None,
        root_used_kib: None,
        root_available_kib: None,
        disks: Seq::empty(),
    }
}

impl Default for RawHostSnapshot {
    fn default() -> (r: Self)
        ensures
            r@ == empty_raw(),
    {
        let r = RawHostSnapshot {
            hostname: None,
            kernel: None,
            uptime_seconds: None,
            loadavg: None,
            cpu_cores: None,
            cpu_temp_millicelsius: None,
            mem_total_kib: None,
            mem_available_kib: None,
            net_rx_bytes: None,
            net_tx_bytes: None,
            root_total_kib: None,
            root_used_kib: None,
            root_available_kib: None,
            disks: Vec::new(),
        };
        assert(disk_views(r.disks@) =~= Seq::<DiskView>::empty());
        r
    }
}

/// `l` without one trailing carriage return.
pub open spec fn strip_cr(l: Seq<char>) -> Seq<char> {
    if l.len() > 0 && l.last() == '\r' {
        l.drop_last()
    } else {
        l
    }
}

/// The lines of `s` as `str::lines` gives them: split at `\n`, a `\r` before
/// each `\n` dropped, and no empty line after a final `\n`.
pub open spec fn lines(s: Seq<char>) -> Seq<Seq<char>> {
    let p = split_on(s, '\n');
    let body = p.drop_last().map_values(|l: Seq<char>| strip_cr(l));
    if p.last().len() == 0 {
        body
    } else {
        body.push(p.last())
    }
}

/// The text before and after the first `sep` in `s`, as `str::split_once`.
pub open spec fn split_once(s: Seq<char>, sep: char) -> Option<(Seq<char>, Seq<char>)> {
    match find_char(s, sep) {
        Some(i) => Some((s.take(i), s.skip(i + 1))),
        None => None,
    }
}

/// `Some(v)` when `v` is not empty.
pub open spec fn non_empty_spec(v: Seq<char>) -> Option<Seq<char>> {
    if v.len() == 0 {
        None
    } else {
        Some(v)
    }
}

/// The value that the table gives for the text `v`: that of its first entry
/// for `v`, none when it has no entry.
pub open spec fn table_value(table: Seq<(Seq<char>, Option<u64>)>, v: Seq<char>) -> Option<u64>
    decreases table.len(),
{
    if table.len() == 0 {
        None
    } else if table[0].0 == v {
        table[0].1
    } else {
        table_value(table.drop_first(), v)
    }
}

/// A counter's value: a plain unsigned integer, or else what `fallback` gives
/// for the text (the collector's `awk` may print `3.2e+12`, which the program
/// reads as a fraction and rounds).
pub open spec fn u64_value(v: Seq<char>, fallback: Seq<(Seq<char>, Option<u64>)>) -> Option<u64> {
    match parse_unsigned(v, u64::MAX as nat) {
        Some(n) => Some(n as u64),
        None => table_value(fallback, v),
    }
}

/// A `mount|total|used|available` disk line (sizes in KiB; fields trimmed, any
/// further fields ignored); none for an empty mount or a zero total.
pub open spec fn disk_value(v: Seq<char>, fallback: Seq<(Seq<char>, Option<u64>)>) -> Option<DiskView> {
    let p = split_on(v, '|');
    if p.len() < 4 {
        None
    } else {
        match (u64_value(trim(p[1]), fallback), u64_value(trim(p[2]), fallback), u64_value(trim(p[3]), fallback)) {
            (Some(total), Some(used), Some(avail)) => {
                let mount = trim(p[0]);
                if mount.len() == 0 || total == 0 {
                    None
                } else {
                    Some(DiskView { mount, total_kib: total, used_kib: used, available_kib: avail })
                }
            },
            _ => None,
        }
    }
}

/// What one report line does to the snapshot: `key=value` with a known key
/// (both trimmed) sets that field; `disk=` lines that read add a disk; any other
/// line leaves the snapshot as it is.
pub open spec fn apply_line(s: RawView, line: Seq<char>, fallback: Seq<(Seq<char>, Option<u64>)>) -> RawView {
    match split_once(line, '=') {
        None => s,
        Some((k, v0)) => {
            let key = trim(k);
            let v = trim(v0);
            if key == "hostname"@ {
                RawView { hostname: non_empty_spec(v), ..s }
            } else if key == "kernel"@ {
                RawView { kernel: non_empty_spec(v), ..s }
            } else if key == "uptime_seconds"@ {
                RawView { uptime_seconds: u64_value(v, fallback), ..s }
            } else if key == "loadavg"@ {
                RawView { loadavg: non_empty_spec(v), ..s }
            } else if key == "cpu_cores"@ {
                RawView {
                    cpu_cores: match parse_unsigned(v, u16::MAX as nat) {
                        Some(n) => Some(n as u16),
                        None => None,
                    },
                    ..s
                }
            } else if key == "cpu_temp_millicelsius"@ {
                RawView { cpu_temp_millicelsius: u64_value(v, fallback), ..s }
            } else if key == "mem_total_kib"@ {
                RawView { mem_total_kib: u64_value(v, fallback), ..s }
            } else if key == "mem_available_kib"@ {
                RawView { mem_available_kib: u64_value(v, fallback), ..s }
            } else if key == "net_rx_bytes"@ {
                RawView { net_rx_bytes: u64_value(v, fallback), ..s }
            } else if key == "net_tx_bytes"@ {
                RawView { net_tx_bytes: u64_value(v, fallback), ..s }
            } else if key == "root_total_kib"@ {
                RawView { root_total_kib: u64_value(v, fallback), ..s }
            } else if key == "root_used_kib"@ {
                RawView { root_used_kib: u64_value(v, fallback), ..s }
            } else if key == "root_available_kib"@ {
                RawView { root_available_kib: u64_value(v, fallback), ..s }
            } else if key == "disk"@ {
                match disk_value(v, fallback) {
                    Some(d) => RawView { disks: s.disks.push(d), ..s },
                    None => s,
                }
            } else {
                s
            }
        },
    }
}

/// The snapshot that a sequence of report lines builds, line by line.
pub open spec fn apply_lines(ls: Seq<Seq<char>>, fallback: Seq<(Seq<char>, Option<u64>)>) -> RawView
    decreases ls.len(),
{
    if ls.len() == 0 {
        empty_raw()
    } else {
        apply_line(apply_lines(ls.drop_last(), fallback), ls.last(), fallback)
    }
}

/// The snapshot that a collector report describes, with `fallback` giving the
/// values of counters that are not plain integers.
pub open spec fn parse_report(s: Seq<char>, fallback: Seq<(Seq<char>, Option<u64>)>) -> RawView {
    apply_lines(lines(s), fallback)
}

/// The value texts of one line that may be read as counters: the trimmed
/// value of a `key=value` line, and for a `disk` line with four fields also
/// its trimmed size fields.
pub open spec fn line_value_texts(line: Seq<char>) -> Seq<Seq<char>> {
    match split_once(line, '=') {
        None => Seq::empty(),
        Some((k, v0)) => {
            let v = trim(v0);
            let p = split_on(v, '|');
            if trim(k) == "disk"@ && p.len() >= 4 {
                seq![v, trim(p[1]), trim(p[2]), trim(p[3])]
            } else {
                seq![v]
            }
        },
    }
}

pub open spec fn lines_value_texts(ls: Seq<Seq<char>>) -> Seq<Seq<char>>
    decreases ls.len(),
{
    if ls.len() == 0 {
        Seq::empty()
    } else {
        lines_value_texts(ls.drop_last()) + line_value_texts(ls.last())
    }
}

/// Every value text of a report, line by line (see `line_value_texts`).
pub open spec fn report_value_texts_spec(s: Seq<char>) -> Seq<Seq<char>> {
    lines_value_texts(lines(s))
}

/// The lines of `v` (see `lines`).
pub fn lines_of(v: &Vec<char>) -> (r: Vec<Vec<char>>)
    ensures
        views(r@) == lines(v@),
{
    let pieces = split_chars(v, '\n');
    proof {
        lemma_split_on_nonempty(v@, '\n');
    }
    let ghost p = split_on(v@, '\n');
    let n = pieces.len();
    assert(views(pieces@).len() == p.len());
    let mut out: Vec<Vec<char>> = Vec::new();
    let mut i: usize = 0;
    while i + 1 < n
        invariant
            1 <= n == pieces.len() == p.len(),
            views(pieces@) == p,
            i + 1 <= n,
            views(out@) == p.take(i as int).map_values(|l: Seq<char>| strip_cr(l)),
        decreases n - i,
    {
        let piece = &pieces[i];
        assert(piece@ == p[i as int]);
        let len = piece.len();
        let line = if len > 0 && piece[len - 1] == '\r' {
            sub_chars(piece, 0, len - 1)
        } else {
            sub_chars(piece, 0, len)
        };
        assert(line@ == strip_cr(p[i as int]));
        let ghost before = views(out@);
        out.push(line);
        assert(views(out@) == before.push(line@));
        i = i + 1;
        assert(p.take(i as int).map_values(|l: Seq<char>| strip_cr(l)) =~= p.take(i - 1).map_values(
            |l: Seq<char>| strip_cr(l),
        ).push(strip_cr(p[i - 1])));
    }
    assert(i == n - 1);
    assert(p.take(i as int) =~= p.drop_last());
    let ghost body = p.drop_last().map_values(|l: Seq<char>| strip_cr(l));
    assert(views(out@) == body);
    let last = &pieces[n - 1];
    assert(last@ == p.last());
    if last.len() > 0 {
        let l2 = sub_chars(last, 0, last.len());
        assert(last@.subrange(0, last@.len() as int) =~= last@);
        let ghost before = views(out@);
        out.push(l2);
        assert(views(out@) == before.push(l2@));
        assert(views(out@) == lines(v@));
    } else {
        assert(views(out@) == lines(v@));
    }
    out
}

/// `Some(value)` when `value` is not empty.
pub fn non_empty(value: &Vec<char>) -> (r: Option<String>)
    ensures
        opt_view(r) == non_empty_spec(value@),
{
    if value.len() == 0 {
        None
    } else {
        Some(string_of(value))
    }
}

pub open spec fn table_view(table: Seq<(String, Option<u64>)>) -> Seq<(Seq<char>, Option<u64>)> {
    table.map_values(|e: (String, Option<u64>)| (e.0@, e.1))
}

/// The value the table gives for `value` (see `table_value`).
fn lookup_value(table: &Vec<(String, Option<u64>)>, value: &Vec<char>) -> (r: Option<u64>)
    ensures
        r == table_value(table_view(table@), value@),
{
    let ghost tv = table_view(table@);
    let mut i: usize = 0;
    assert(tv.skip(0) =~= tv);
    while i < table.len()
        invariant
            i <= table@.len() == tv.len(),
            tv == table_view(table@),
            table_value(tv, value@) == table_value(tv.skip(i as int), value@),
        decreases table.len() - i,
    {
        let k = chars_of(table[i].0.as_str());
        assert(tv.skip(i as int)[0] == tv[i as int]);
        assert(tv[i as int] == (table@[i as int].0@, table@[i as int].1));
        if crate::text::chars_eq(&k, value) {
            return table[i].1;
        }
        assert(tv.skip(i as int).drop_first() =~= tv.skip(i + 1));
        i = i + 1;
    }
    None
}

/// Reads a counter value (see `u64_value`).
pub fn parse_u64_value(value: &Vec<char>, fallback: &Vec<(String, Option<u64>)>) -> (r: Option<u64>)
    ensures
        r == u64_value(value@, table_view(fallback@)),
{
    match parse_u64(value) {
        Some(n) => Some(n),
        None => lookup_value(fallback, value),
    }
}

/// Reads a `mount|total|used|available` disk line (see `disk_value`).
pub fn parse_disk_value(value: &Vec<char>, fallback: &Vec<(String, Option<u64>)>) -> (r: Option<DiskMetrics>)
    ensures
        match disk_value(value@, table_view(fallback@)) {
            Some(d) => r matches Some(x) && x@ == d,
            None => r is None,
        },
{
    let p = split_chars(value, '|');
    let ghost ps = split_on(value@, '|');
    assert(views(p@) == ps);
    if p.len() < 4 {
        return None;
    }
    assert(p[1]@ == ps[1] && p[2]@ == ps[2] && p[3]@ == ps[3] && p[0]@ == ps[0]);
    let mount = trim_chars(&p[0]);
    let total = parse_u64_value(&trim_chars(&p[1]), fallback);
    let used = parse_u64_value(&trim_chars(&p[2]), fallback);
    let avail = parse_u64_value(&trim_chars(&p[3]), fallback);
    match (total, used, avail) {
        (Some(total_kib), Some(used_kib), Some(available_kib)) => {
            if mount.len() == 0 || total_kib == 0 {
                None
            } else {
                Some(DiskMetrics { mount: string_of(&mount), total_kib, used_kib, available_kib })
            }
        },
        _ => None,
    }
}

/// Applies one report line to `snap` (see `apply_line`).
fn apply_report_line(snap: &mut RawHostSnapshot, line: &Vec<char>, fallback: &Vec<(String, Option<u64>)>)
    ensures
        final(snap)@ == apply_line(old(snap)@, line@, table_view(fallback@)),
{
    let eq = find_first(line, '=');
    let i = match eq {
        None => {
            return ;
        },
        Some(i) => i,
    };
    let key = trim_chars(&sub_chars(line, 0, i));
    let value = trim_chars(&sub_chars(line, i + 1, line.len()));
    assert(line@.skip(i + 1) == line@.subrange(i + 1, line@.len() as int));
    assert(line@.take(i as int) == line@.subrange(0, i as int));
    if eq_str(&key, "hostname") {
        snap.hostname = non_empty(&value);
    } else if eq_str(&key, "kernel") {
        snap.kernel = non_empty(&value);
    } else if eq_str(&key, "uptime_seconds") {
        snap.uptime_seconds = parse_u64_value(&value, fallback);
    } else if eq_str(&key, "loadavg") {
        snap.loadavg = non_empty(&value);
    } else if eq_str(&key, "cpu_cores") {
        snap.cpu_cores = parse_u16(&value);
    } else if eq_str(&key, "cpu_temp_millicelsius") {
        snap.cpu_temp_millicelsius = parse_u64_value(&value, fallback);
    } else if eq_str(&key, "mem_total_kib") {
        snap.mem_total_kib = parse_u64_value(&value, fallback);
    } else if eq_str(&key, "mem_available_kib") {
        snap.mem_available_kib = parse_u64_value(&value, fallback);
    } else if eq_str(&key, "net_rx_bytes") {
        snap.net_rx_bytes = parse_u64_value(&value, fallback);
    } else if eq_str(&key, "net_tx_bytes") {
        snap.net_tx_bytes = parse_u64_value(&value, fallback);
    } else if eq_str(&key, "root_total_kib") {
        snap.root_total_kib = parse_u64_value(&value, fallback);
    } else if eq_str(&key, "root_used_kib") {
        snap.root_used_kib = parse_u64_value(&value, fallback);
    } else if eq_str(&key, "root_available_kib") {
        snap.root_available_kib = parse_u64_value(&value, fallback);
    } else if eq_str(&key, "disk") {
        match parse_disk_value(&value, fallback) {
            Some(d) => {
                let ghost before = snap.disks@;
                snap.disks.push(d);
                assert(disk_views(snap.disks@) =~= disk_views(before).push(d@));
            },
            None => {},
        }
    }
}

/// Reads a collector report: one `key=value` per line (see `parse_report`);
/// `fallback` gives the values of counter texts that are not plain integers.
pub fn parse_key_values(output: &str, fallback: &Vec<(String, Option<u64>)>) -> (r: RawHostSnapshot)
    ensures
        r@ == parse_report(output@, table_view(fallback@)),
{
    let text = chars_of(output);
    let ls = lines_of(&text);
    let ghost lv = lines(output@);
    let mut snap = RawHostSnapshot::default();
    let mut i: usize = 0;
    assert(lv.take(0).len() == 0);
    while i < ls.len()
        invariant
            i <= ls.len(),
            views(ls@) == lv,
            snap@ == apply_lines(lv.take(i as int), table_view(fallback@)),
        decreases ls.len() - i,
    {
        assert(ls[i as int]@ == lv[i as int]);
        apply_report_line(&mut snap, &ls[i], fallback);
        assert(lv.take(i + 1).drop_last() == lv.take(i as int));
        i = i + 1;
    }
    assert(lv.take(ls.len() as int) == lv);
    snap
}

/// The value texts of one line (see `line_value_texts`).
fn line_texts(line: &Vec<char>, out: &mut Vec<String>)
    ensures
        string_views(final(out)@) == string_views(old(out)@) + line_value_texts(line@),
{
    proof {
        reveal_strlit("disk");
    }
    let eq = find_first(line, '=');
    let i = match eq {
        None => {
            assert(string_views(out@) =~= string_views(out@) + Seq::<Seq<char>>::empty());
            return ;
        },
        Some(i) => i,
    };
    let key = trim_chars(&sub_chars(line, 0, i));
    let value = trim_chars(&sub_chars(line, i + 1, line.len()));
    assert(line@.skip(i + 1) == line@.subrange(i + 1, line@.len() as int));
    assert(line@.take(i as int) == line@.subrange(0, i as int));
    let ghost before = string_views(out@);
    out.push(string_of(&value));
    let p = split_chars(&value, '|');
    let ghost ps = split_on(value@, '|');
    if eq_str(&key, "disk") && p.len() >= 4 {
        assert(p[1]@ == ps[1] && p[2]@ == ps[2] && p[3]@ == ps[3]);
        out.push(string_of(&trim_chars(&p[1])));
        out.push(string_of(&trim_chars(&p[2])));
        out.push(string_of(&trim_chars(&p[3])));
        assert(string_views(out@) =~= before + seq![value@, trim(ps[1]), trim(ps[2]), trim(ps[3])]);
    } else {
        assert(string_views(out@) =~= before + seq![value@]);
    }
}

/// Every value text of a report (see `report_value_texts_spec`): the texts
/// whose counter values the program may need to read as fractions.
pub fn report_value_texts(output: &str) -> (r: Vec<String>)
    ensures
        string_views(r@) == report_value_texts_spec(output@),
{
    let text = chars_of(output);
    let ls = lines_of(&text);
    let ghost lv = lines(output@);
    let mut out: Vec<String> = Vec::new();
    let mut i: usize = 0;
    assert(string_views(out@) =~= lines_value_texts(lv.take(0)));
    while i < ls.len()
        invariant
            i <= ls.len(),
            views(ls@) == lv,
            string_views(out@) == lines_value_texts(lv.take(i as int)),
        decreases ls.len() - i,
    {
        assert(ls[i as int]@ == lv[i as int]);
        line_texts(&ls[i], &mut out);
        assert(lv.take(i + 1).drop_last() == lv.take(i as int));
        i = i + 1;
    }
    assert(lv.take(ls.len() as int) == lv);
    out
}

/// The report keys whose values are counters.
pub open spec fn counter_key(key: Seq<char>) -> bool {
    ||| key == "uptime_seconds"@ || key == "cpu_temp_millicelsius"@ || key == "mem_total_kib"@
    ||| key == "mem_available_kib"@ || key == "net_rx_bytes"@ || key == "net_tx_bytes"@
    ||| key == "root_total_kib"@ || key == "root_used_kib"@ || key == "root_available_kib"@
}

/// The field of the snapshot that a counter key fills.
pub open spec fn counter_field(r: RawView, key: Seq<char>) -> Option<u64> {
    if key == "uptime_seconds"@ {
        r.uptime_seconds
    } else if key == "cpu_temp_millicelsius"@ {
        r.cpu_temp_millicelsius
    } else if key == "mem_total_kib"@ {
        r.mem_total_kib
    } else if key == "mem_available_kib"@ {
        r.mem_available_kib
    } else if key == "net_rx_bytes"@ {
        r.net_rx_bytes
    } else if key == "net_tx_bytes"@ {
        r.net_tx_bytes
    } else if key == "root_total_kib"@ {
        r.root_total_kib
    } else if key == "root_used_kib"@ {
        r.root_used_kib
    } else {
        r.root_available_kib
    }
}

/// The trimmed key of a report line, when it has an `=`.
pub open spec fn line_key(line: Seq<char>) -> Option<Seq<char>> {
    match split_once(line, '=') {
        Some((k, _)) => Some(trim(k)),
        None => None,
    }
}

/// What tells the report keys apart.
proof fn lemma_report_keys_known()
    ensures
        "hostname"@.len() == 8,
        "kernel"@.len() == 6,
        "uptime_seconds"@.len() == 14 && "uptime_seconds"@[0] == 'u',
        "loadavg"@.len() == 7,
        "cpu_cores"@.len() == 9,
        "cpu_temp_millicelsius"@.len() == 21,
        "mem_total_kib"@.len() == 13 && "mem_total_kib"@[0] == 'm',
        "mem_available_kib"@.len() == 17,
        "net_rx_bytes"@.len() == 12 && "net_rx_bytes"@[4] == 'r',
        "net_tx_bytes"@.len() == 12 && "net_tx_bytes"@[4] == 't',
        "root_total_kib"@.len() == 14 && "root_total_kib"@[0] == 'r',
        "root_used_kib"@.len() == 13 && "root_used_kib"@[0] == 'r',
        "root_available_kib"@.len() == 18,
        "disk"@.len() == 4,
        "="@ == seq!['='],
{
    reveal_strlit("hostname");
    reveal_strlit("kernel");
    reveal_strlit("uptime_seconds");
    reveal_strlit("loadavg");
    reveal_strlit("cpu_cores");
    reveal_strlit("cpu_temp_millicelsius");
    reveal_strlit("mem_total_kib");
    reveal_strlit("mem_available_kib");
    reveal_strlit("net_rx_bytes");
    reveal_strlit("net_tx_bytes");
    reveal_strlit("root_total_kib");
    reveal_strlit("root_used_kib");
    reveal_strlit("root_available_kib");
    reveal_strlit("disk");
    reveal_strlit("=");
}

/// A counter key is made of lower-case letters and `_`: no `=`, and no
/// whitespace at its ends.
proof fn lemma_counter_key_plain(key: Seq<char>)
    requires
        counter_key(key),
    ensures
        key.len() > 0,
        forall|j: int| 0 <= j < key.len() ==> #[trigger] key[j] != '=',
        !is_ws(key[0]),
        !is_ws(key.last()),
{
    reveal_strlit("uptime_seconds");
    reveal_strlit("cpu_temp_millicelsius");
    reveal_strlit("mem_total_kib");
    reveal_strlit("mem_available_kib");
    reveal_strlit("net_rx_bytes");
    reveal_strlit("net_tx_bytes");
    reveal_strlit("root_total_kib");
    reveal_strlit("root_used_kib");
    reveal_strlit("root_available_kib");
    assert forall|j: int| 0 <= j < key.len() implies #[trigger] key[j] != '=' by {
        assert(('a' <= key[j] && key[j] <= 'z') || key[j] == '_');
    }
}

proof fn lemma_trim_plain(s: Seq<char>)
    requires
        s.len() > 0,
        !is_ws(s[0]),
        !is_ws(s.last()),
    ensures
        trim(s) == s,
{
    assert(trim_start(s) == s);
}

/// A line `key=n` splits at its `=` into the key and the digits of `n`,
/// both already trimmed.
proof fn lemma_counter_line_parts(key: Seq<char>, n: nat)
    requires
        counter_key(key),
    ensures
        split_once(key + "="@ + decimal(n), '=') == Some((key, decimal(n))),
        trim(key) == key,
        trim(decimal(n)) == decimal(n),
        line_key(key + "="@ + decimal(n)) == Some(key),
{
    lemma_report_keys_known();
    lemma_counter_key_plain(key);
    let d = decimal(n);
    lemma_decimal_round_trip(n, 0);
    let x = key + "="@ + d;
    assert(x[key.len() as int] == '=');
    assert forall|j: int| 0 <= j < key.len() implies x[j] != '=' by {
        assert(x[j] == key[j]);
    }
    assert(is_first_index(x, '=', key.len() as int));
    lemma_first_index_unique(x, '=', key.len() as int);
    assert(x.take(key.len() as int) =~= key);
    assert(x.skip(key.len() + 1 as int) =~= d);
    lemma_trim_plain(key);
    assert(is_ascii_digit(d[0]) && is_ascii_digit(d[d.len() - 1]));
    lemma_trim_plain(d);
}

/// A counter line `key=n` sets that counter to `n`, whatever the snapshot
/// held before.
pub proof fn lemma_counter_line_sets(s: RawView, key: Seq<char>, n: nat, fallback: Seq<(Seq<char>, Option<u64>)>)
    requires
        counter_key(key),
        n <= u64::MAX,
    ensures
        counter_field(apply_line(s, key + "="@ + decimal(n), fallback), key) == Some(n as u64),
{
    lemma_report_keys_known();
    lemma_counter_line_parts(key, n);
    lemma_decimal_round_trip(n, u64::MAX as nat);
}

/// A line whose key is not `key` leaves that counter as it was.
pub proof fn lemma_other_line_keeps_counter(
    s: RawView,
    line: Seq<char>,
    key: Seq<char>,
    fallback: Seq<(Seq<char>, Option<u64>)>,
)
    requires
        counter_key(key),
        line_key(line) != Some(key),
    ensures
        counter_field(apply_line(s, line, fallback), key) == counter_field(s, key),
{
    lemma_report_keys_known();
}

/// In a report, a counter holds the value of the last line that names its
/// key, when that line is `key=n` with `n` a plain decimal that fits a `u64`.
pub proof fn lemma_last_counter_line_wins(
    ls: Seq<Seq<char>>,
    key: Seq<char>,
    n: nat,
    i: int,
    fallback: Seq<(Seq<char>, Option<u64>)>,
)
    requires
        counter_key(key),
        n <= u64::MAX,
        0 <= i < ls.len(),
        ls[i] == key + "="@ + decimal(n),
        forall|j: int| i < j < ls.len() ==> line_key(#[trigger] ls[j]) != Some(key),
    ensures
        counter_field(apply_lines(ls, fallback), key) == Some(n as u64),
    decreases ls.len(),
{
    let t = ls.drop_last();
    if i == ls.len() - 1 {
        lemma_counter_line_sets(apply_lines(t, fallback), key, n, fallback);
    } else {
        assert forall|j: int| i < j < t.len() implies line_key(#[trigger] t[j]) != Some(key) by {
            assert(t[j] == ls[j]);
        }
        lemma_last_counter_line_wins(t, key, n, i, fallback);
        lemma_other_line_keeps_counter(apply_lines(t, fallback), ls.last(), key, fallback);
    }
}

/// Parsing a report: a counter holds the value of its last line `key=n`
/// (see `lemma_last_counter_line_wins`), the report read line by line.
pub proof fn lemma_report_counter(
    output: Seq<char>,
    key: Seq<char>,
    n: nat,
    i: int,
    fallback: Seq<(Seq<char>, Option<u64>)>,
)
    requires
        counter_key(key),
        n <= u64::MAX,
        0 <= i < lines(output).len(),
        lines(output)[i] == key + "="@ + decimal(n),
        forall|j: int| i < j < lines(output).len() ==> line_key(#[trigger] lines(output)[j]) != Some(key),
    ensures
        counter_field(parse_report(output, fallback), key) == Some(n as u64),
{
    lemma_last_counter_line_wins(lines(output), key, n, i, fallback);
}

/// How a server is collected: on this machine, or over SSH to a host.
#[derive(Clone, Debug, PartialEq, Eq)]
pub enum CollectRoute {
    Local,
    Ssh(String),
}

/// The route of a server, or why it cannot be collected: it is disabled,
/// its source has no collector (reported as the source's text), or its SSH
/// target could be read as an option (see `validate_ssh_host`). Nothing is
/// run before these checks pass.
pub fn collect_route(server: &ServerConfig) -> (r: Result<CollectRoute, CollectorError>)
    ensures
        !server.enabled ==> (r matches Err(CollectorError::DisabledHost(id)) && id@ == server.id@),
        server.enabled ==> match server.source@ {
            SourceView::Local => r matches Ok(CollectRoute::Local),
            SourceView::Ssh(h) => if ssh::valid_ssh_host(h) {
                r matches Ok(CollectRoute::Ssh(x)) && x@ == h
            } else {
                r matches Err(CollectorError::UnsupportedSource(m)) && m@ == "invalid SSH host alias: "@
                    + debug_quoted(h)
            },
            other => r matches Err(CollectorError::UnsupportedSource(m)) && m@ == source_text(other),
        },
{
    if !server.enabled {
        return Err(CollectorError::DisabledHost(server.id.clone()));
    }
    match &server.source {
        HostSource::Local => Ok(CollectRoute::Local),
        HostSource::Ssh { host } => {
            match ssh::validate_ssh_host(host.as_str()) {
                Ok(()) => Ok(CollectRoute::Ssh(host.clone())),
                Err(e) => Err(e),
            }
        },
        source => Err(CollectorError::UnsupportedSource(source.to_display_string())),
    }
}

pub open spec fn ram_metrics_spec(total_kib: Option<u64>, available_kib: Option<u64>) -> RamMetrics {
    RamMetrics {
        total_kib,
        available_kib,
        used_kib: match (total_kib, available_kib) {
            (Some(t), Some(a)) => Some(if t >= a { (t - a) as u64 } else { 0u64 }),
            _ => None::<u64>,
        },
    }
}

/// The memory figures of a report; used memory is the total less the
/// available memory (0 when more is available than the total), known only
/// when both are.
pub fn ram_metrics(total_kib: Option<u64>, available_kib: Option<u64>) -> (r: RamMetrics)
    ensures
        r == ram_metrics_spec(total_kib, available_kib),
{
    let used_kib = match (total_kib, available_kib) {
        (Some(t), Some(a)) => Some(if t >= a {
            t - a
        } else {
            0
        }),
        _ => None,
    };
    RamMetrics { total_kib, available_kib, used_kib }
}

/// A command that ended unsuccessfully: its exit code and its standard
/// error, trimmed.
pub fn failed_command(code: Option<i32>, stderr: &str) -> (r: CollectorError)
    ensures
        r == (CollectorError::CommandFailed { code, stderr: r->stderr }),
        r->stderr@ == trim(stderr@),
{
    let t = trim_chars(&chars_of(stderr));
    CollectorError::CommandFailed { code, stderr: string_of(&t) }
}

/// The message of a command stopped after `timeout_secs`: the timeout, then
/// what it wrote to standard error (trimmed) after `: ` when anything.
pub open spec fn timeout_text(timeout_secs: u64, stderr: Seq<char>) -> Seq<char> {
    let base = "SSH command timed out after "@ + decimal(timeout_secs as nat) + "s"@;
    if trim(stderr).len() == 0 {
        base
    } else {
        base + ": "@ + trim(stderr)
    }
}

pub fn timed_out_command(code: Option<i32>, timeout_secs: u64, stderr: &str) -> (r: CollectorError)
    ensures
        r == (CollectorError::CommandFailed { code, stderr: r->stderr }),
        r->stderr@ == timeout_text(timeout_secs, stderr@),
{
    let mut m = String::from_str("SSH command timed out after ");
    m.append(u64_text(timeout_secs).as_str());
    m.append("s");
    let t = trim_chars(&chars_of(stderr));
    if t.len() > 0 {
        m.append(": ");
        m.append(string_of(&t).as_str());
    }
    CollectorError::CommandFailed { code, stderr: m }
}

/// A server is collected when it is enabled, unless it is optional and
/// waiting for a retry (its id is in `skipped`).
pub open spec fn collected(v: ServerView, skipped: Seq<Seq<char>>) -> bool {
    v.enabled && !(v.optional && skipped.contains(v.id))
}

fn holds_id(ids: &Vec<String>, id: &String) -> (r: bool)
    ensures
        r == string_views(ids@).contains(id@),
{
    let target = chars_of(id.as_str());
    let mut i: usize = 0;
    while i < ids.len()
        invariant
            i <= ids.len(),
            target@ == id@,
            forall|j: int| 0 <= j < i ==> #[trigger] ids@[j]@ != id@,
        decreases ids.len() - i,
    {
        if crate::text::chars_eq(&chars_of(ids[i].as_str()), &target) {
            assert(string_views(ids@)[i as int] == id@);
            return true;
        }
        i = i + 1;
    }
    assert forall|j: int| 0 <= j < string_views(ids@).len() implies string_views(ids@)[j] != id@ by {
        assert(string_views(ids@)[j] == ids@[j]@);
    }
    false
}

/// Copies of the servers to collect this round, in configuration order.
pub fn servers_to_collect(config: &AppConfig, skipped: &Vec<String>) -> (r: Vec<ServerConfig>)
    ensures
        crate::config::server_views(r@) == config@.servers.filter(
            |v: ServerView| collected(v, string_views(skipped@)),
        ),
{
    let ghost all = config@.servers;
    let ghost sk = string_views(skipped@);
    let mut out: Vec<ServerConfig> = Vec::new();
    let mut i: usize = 0;
    proof {
        reveal_with_fuel(Seq::<ServerView>::filter, 1);
    }
    assert(all.take(0).filter(|v: ServerView| collected(v, sk)) =~= Seq::<ServerView>::empty());
    while i < config.servers.len()
        invariant
            i <= config.servers@.len(),
            all == config@.servers,
            all.len() == config.servers@.len(),
            sk == string_views(skipped@),
            crate::config::server_views(out@) == all.take(i as int).filter(|v: ServerView| collected(v, sk)),
        decreases config.servers.len() - i,
    {
        let ghost before = crate::config::server_views(out@);
        proof {
            reveal_with_fuel(Seq::<ServerView>::filter, 1);
        }
        assert(all.take(i + 1).drop_last() == all.take(i as int));
        assert(all[i as int] == config.servers@[i as int]@);
        let server = &config.servers[i];
        let take = server.enabled && !(server.optional && holds_id(skipped, &server.id));
        if take {
            out.push(server.duplicate());
            assert(crate::config::server_views(out@) =~= before.push(all[i as int]));
        }
        i = i + 1;
    }
    assert(all.take(config.servers@.len() as int) == all);
    out
}

/// The figures of a server whose collection failed: none measured, status
/// `Offline`, the source's host as host name, and the error.
pub fn unavailable_facts(server: &ServerConfig, error: String) -> (r: HostFacts)
    ensures
        r.id@ == server.id@ && r.name@ == server.name@ && r.source@ == server.source@,
        opt_text(r.group) == opt_text(server.group) && opt_text(r.role) == opt_text(server.role),
        opt_text(r.hostname) == endpoint_of(server.source@),
        r.kernel is None && r.uptime_seconds is None && r.cores is None,
        r.status == HostStatus::Offline,
        r.error == Some(error),
        r.freshness.stale_after_nanos == DEFAULT_STALE_AFTER_NANOS,
        r.ram == RamMetrics::empty_spec() && r.network == NetworkMetrics::empty_spec(),
        r.storage.root_total_kib is None && r.storage.root_used_kib is None
            && r.storage.root_available_kib is None && r.storage.disks@.len() == 0,
{
    let hostname = match server.source.endpoint() {
        Some(h) => Some(String::from_str(h)),
        None => None,
    };
    HostFacts {
        id: server.id.clone(),
        name: server.name.clone(),
        hostname,
        kernel: None,
        uptime_seconds: None,
        group: server.group.clone(),
        role: server.role.clone(),
        source: server.source.duplicate(),
        status: HostStatus::Offline,
        error: Some(error),
        freshness: Freshness::now(DEFAULT_STALE_AFTER_NANOS),
        cores: None,
        ram: RamMetrics::empty(),
        network: NetworkMetrics::empty(),
        storage: StorageMetrics::empty(),
    }
}

/// What becomes of a server whose collection failed.
#[derive(Clone, Debug, PartialEq, Eq)]
pub enum FailedCollection {
    /// An optional server is left off the dashboard; its id is noted so
    /// that it can wait before the next attempt.
    Hidden(String),
    /// Any other server shows as unavailable, with the error.
    Unavailable(HostFacts),
}

/// An optional server that failed is hidden; a required one is shown
/// unavailable (see `unavailable_facts`), its error given as the error's
/// message.
pub fn failed_collection(server: &ServerConfig, error: &CollectorError) -> (r: FailedCollection)
    ensures
        server.optional ==> (r matches FailedCollection::Hidden(id) && id@ == server.id@),
        !server.optional ==> (r matches FailedCollection::Unavailable(f) && {
            &&& f.id@ == server.id@ && f.name@ == server.name@ && f.source@ == server.source@
            &&& opt_text(f.group) == opt_text(server.group) && opt_text(f.role) == opt_text(server.role)
            &&& opt_text(f.hostname) == endpoint_of(server.source@)
            &&& f.status == HostStatus::Offline
            &&& (f.error matches Some(e) && e@ == collector_error_text(*error))
            &&& f.kernel is None && f.uptime_seconds is None && f.cores is None
            &&& f.freshness.stale_after_nanos == DEFAULT_STALE_AFTER_NANOS
            &&& f.ram == RamMetrics::empty_spec() && f.network == NetworkMetrics::empty_spec()
            &&& f.storage.root_total_kib is None && f.storage.root_used_kib is None
            &&& f.storage.root_available_kib is None && f.storage.disks@.len() == 0
        }),
{
    if server.optional {
        FailedCollection::Hidden(server.id.clone())
    } else {
        FailedCollection::Unavailable(unavailable_facts(server, error.message()))
    }
}

/// The figures of a collected report: the server's identity, the report's
/// host name, kernel, uptime, cores and integer metrics, status `Online`.
pub fn facts_from_snapshot(server: &ServerConfig, source: HostSource, snapshot: RawHostSnapshot) -> (r: HostFacts)
    ensures
        r.id@ == server.id@ && r.name@ == server.name@ && r.source == source,
        opt_text(r.group) == opt_text(server.group) && opt_text(r.role) == opt_text(server.role),
        r.hostname == snapshot.hostname && r.kernel == snapshot.kernel,
        r.uptime_seconds == snapshot.uptime_seconds && r.cores == snapshot.cpu_cores,
        r.status == HostStatus::Online && r.error is None,
        r.freshness.stale_after_nanos == DEFAULT_STALE_AFTER_NANOS,
        r.ram == ram_metrics_spec(snapshot.mem_total_kib, snapshot.mem_available_kib),
        r.network == (NetworkMetrics { rx_bytes_total: snapshot.net_rx_bytes, tx_bytes_total: snapshot.net_tx_bytes }),
        r.storage == (StorageMetrics {
            root_total_kib: snapshot.root_total_kib,
            root_used_kib: snapshot.root_used_kib,
            root_available_kib: snapshot.root_available_kib,
            disks: snapshot.disks,
        }),
{
    let ram = ram_metrics(snapshot.mem_total_kib, snapshot.mem_available_kib);
    HostFacts {
        id: server.id.clone(),
        name: server.name.clone(),
        hostname: snapshot.hostname,
        kernel: snapshot.kernel,
        uptime_seconds: snapshot.uptime_seconds,
        group: server.group.clone(),
        role: server.role.clone(),
        source,
        status: HostStatus::Online,
        error: None,
        freshness: Freshness::now(DEFAULT_STALE_AFTER_NANOS),
        cores: snapshot.cpu_cores,
        ram,
        network: NetworkMetrics { rx_bytes_total: snapshot.net_rx_bytes, tx_bytes_total: snapshot.net_tx_bytes },
        storage: StorageMetrics {
            root_total_kib: snapshot.root_total_kib,
            root_used_kib: snapshot.root_used_kib,
            root_available_kib: snapshot.root_available_kib,
            disks: snapshot.disks,
        },
    }
}

} // verus!
