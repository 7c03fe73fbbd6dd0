//! The text on the dashboard: the header, sizes with one decimal, uptime,
//! kernel, bars, padded and shortened labels, and the disk columns.
use vstd::prelude::*;
use crate::disks::{DiskRow, DiskSnapshot, rows};
use crate::layout::{HostLayout, MAX_DISK_MOUNT_LABEL_WIDTH, MAX_DISK_ROWS};
use crate::naming::last_piece;
use crate::text::{
    chars_of, decimal, digit_char, split_chars, split_on, split_words, string_of, string_views,
    u128_text, u64_text, views, words,
};
use crate::theme::Status;

verus! {

/// `<ms>ms`.
pub open spec fn refresh_text(ms: u64) -> Seq<char> {
    decimal(ms as nat) + "ms"@
}

pub fn format_refresh_ms(ms: u64) -> (r: String)
    ensures
        r@ == refresh_text(ms),
{
    let s = u64_text(ms);
    s.concat("ms")
}

/// The overview line: host count, refresh interval, and the keys.
pub open spec fn header_text(host_count: usize, refresh_ms: u64) -> Seq<char> {
    decimal(host_count as nat) + " hosts \u{b7} refresh "@ + refresh_text(refresh_ms)
        + " \u{b7} +/- 100ms \u{b7} q/ctrl-c/esc exits"@
}

pub fn header_detail_text(host_count: usize, refresh_interval_ms: u64) -> (r: String)
    ensures
        r@ == header_text(host_count, refresh_interval_ms),
{
    let mut s = u64_text(host_count as u64);
    s.append(" hosts \u{b7} refresh ");
    s.append(format_refresh_ms(refresh_interval_ms).as_str());
    s.append(" \u{b7} +/- 100ms \u{b7} q/ctrl-c/esc exits");
    s
}

/// `n / d` in tenths, rounded to the nearest tenth with ties to the even
/// tenth (as Rust prints an exact binary value with `{:.1}`).
pub open spec fn tenths(n: nat, d: nat) -> nat {
    let q = (10 * n) / d;
    let r = (10 * n) % d;
    if 2 * r > d {
        q + 1
    } else if 2 * r < d {
        q
    } else if q % 2 == 0 {
        q
    } else {
        q + 1
    }
}

/// A number of tenths written with one decimal.
pub open spec fn one_decimal(t: nat) -> Seq<char> {
    decimal(t / 10) + "."@ + seq![digit_char(t % 10)]
}

pub const KIB_PER_GIB: u64 = 1_048_576;

pub const KIB_PER_TIB: u64 = 1_073_741_824;

fn tenths_of(n: u64, d: u64) -> (r: u128)
    requires
        d > 0,
    ensures
        r == tenths(n as nat, d as nat),
{
    let num: u128 = 10 * (n as u128);
    let den: u128 = d as u128;
    let q = num / den;
    let rem = num % den;
    if 2 * rem > den {
        q + 1
    } else if 2 * rem < den {
        q
    } else if q % 2 == 0 {
        q
    } else {
        q + 1
    }
}

fn one_decimal_text(t: u128) -> (r: String)
    ensures
        r@ == one_decimal(t as nat),
{
    let mut s = u128_text(t / 10);
    s.append(".");
    let d = (t % 10) as u8;
    let c = (d + 48) as char;
    assert(c == digit_char((t % 10) as nat));
    s.push(c);
    s
}

/// A size in KiB as the cards show it: tebibytes with one decimal and `T`
/// from 1024 GiB up, else gibibytes with one decimal and `G`. (Exact for
/// every size below 2^53 KiB, where a 64-bit float holds the size exactly.)
pub open spec fn compact_text(kib: u64) -> Seq<char> {
    if kib >= KIB_PER_TIB {
        one_decimal(tenths(kib as nat, KIB_PER_TIB as nat)) + "T"@
    } else {
        one_decimal(tenths(kib as nat, KIB_PER_GIB as nat)) + "G"@
    }
}

pub fn kib_to_compact(kib: u64) -> (r: String)
    ensures
        r@ == compact_text(kib),
{
    if kib >= KIB_PER_TIB {
        let s = one_decimal_text(tenths_of(kib, KIB_PER_TIB));
        s.concat("T")
    } else {
        let s = one_decimal_text(tenths_of(kib, KIB_PER_GIB));
        s.concat("G")
    }
}

pub open spec fn compact_opt(kib: Option<u64>) -> Seq<char> {
    match kib {
        Some(k) => compact_text(k),
        None => "-"@,
    }
}

pub fn compact_size_text(kib: Option<u64>) -> (r: String)
    ensures
        r@ == compact_opt(kib),
{
    match kib {
        Some(k) => kib_to_compact(k),
        None => String::from_str("-"),
    }
}

/// `<used>/<total>` in the compact form.
pub fn size_pair_text(used: Option<u64>, total: Option<u64>) -> (r: String)
    ensures
        r@ == compact_opt(used) + "/"@ + compact_opt(total),
{
    let mut s = compact_size_text(used);
    s.append("/");
    s.append(compact_size_text(total).as_str());
    s
}

/// Gibibytes with one decimal and the given unit text.
pub open spec fn gib_text(kib: u64, unit: Seq<char>) -> Seq<char> {
    one_decimal(tenths(kib as nat, KIB_PER_GIB as nat)) + unit
}

/// `<n.n>GiB`.
pub fn kib_to_gib(kib: u64) -> (r: String)
    ensures
        r@ == gib_text(kib, "GiB"@),
{
    let s = one_decimal_text(tenths_of(kib, KIB_PER_GIB));
    s.concat("GiB")
}

/// `<n.n>G`.
pub fn kib_to_gib_short(kib: u64) -> (r: String)
    ensures
        r@ == gib_text(kib, "G"@),
{
    let s = one_decimal_text(tenths_of(kib, KIB_PER_GIB));
    s.concat("G")
}

/// `<used> / <total>` in GiB, or `-` without both.
pub fn kib_pair(used: Option<u64>, total: Option<u64>) -> (r: String)
    ensures
        r@ == match (used, total) {
            (Some(u), Some(t)) => gib_text(u, "GiB"@) + " / "@ + gib_text(t, "GiB"@),
            _ => "-"@,
        },
{
    match (used, total) {
        (Some(u), Some(t)) => {
            let mut s = kib_to_gib(u);
            s.append(" / ");
            s.append(kib_to_gib(t).as_str());
            s
        },
        _ => String::from_str("-"),
    }
}

/// Two digits, with a leading zero below ten.
pub open spec fn two_digits(n: nat) -> Seq<char> {
    if n < 10 {
        "0"@ + decimal(n)
    } else {
        decimal(n)
    }
}

/// `up <d>d <h>:<mm>` with days, else `up <h>:<mm>`; `up -` when unknown.
pub open spec fn uptime_text(seconds: Option<u64>) -> Seq<char> {
    match seconds {
        None => "up -"@,
        Some(s) => {
            let minutes = s as nat / 60;
            let days = minutes / 1440;
            let hours = (minutes / 60) % 24;
            let mins = minutes % 60;
            if days > 0 {
                "up "@ + decimal(days as nat) + "d "@ + decimal(hours as nat) + ":"@ + two_digits(
                    mins as nat,
                )
            } else {
                "up "@ + decimal(hours as nat) + ":"@ + two_digits(mins as nat)
            }
        },
    }
}

pub(crate) fn two_digit_text(n: u64) -> (r: String)
    ensures
        r@ == two_digits(n as nat),
{
    if n < 10 {
        let s = String::from_str("0");
        s.concat(u64_text(n).as_str())
    } else {
        u64_text(n)
    }
}

pub fn format_uptime(seconds: Option<u64>) -> (r: String)
    ensures
        r@ == uptime_text(seconds),
{
    match seconds {
        None => String::from_str("up -"),
        Some(s) => {
            let minutes = s / 60;
            let days = minutes / 1440;
            let hours = (minutes / 60) % 24;
            let mins = minutes % 60;
            let mut out = String::from_str("up ");
            if days > 0 {
                out.append(u64_text(days).as_str());
                out.append("d ");
            }
            out.append(u64_text(hours).as_str());
            out.append(":");
            out.append(two_digit_text(mins).as_str());
            out
        },
    }
}

/// The first two words of the kernel text, or `-` when there are none.
pub open spec fn kernel_text(kernel: Option<Seq<char>>) -> Seq<char> {
    match kernel {
        None => "-"@,
        Some(k) => {
            let ws = words(k);
            if ws.len() == 0 {
                "-"@
            } else if ws.len() == 1 {
                ws[0]
            } else {
                ws[0] + " "@ + ws[1]
            }
        },
    }
}

pub fn short_kernel(kernel: Option<&str>) -> (r: String)
    ensures
        r@ == kernel_text(
            match kernel {
                Some(k) => Some(k@),
                None => None,
            },
        ),
{
    match kernel {
        None => String::from_str("-"),
        Some(k) => {
            let ws = split_words(&chars_of(k));
            assert(views(ws@) == words(k@));
            if ws.len() == 0 {
                String::from_str("-")
            } else if ws.len() == 1 {
                assert(views(ws@)[0] == ws@[0]@);
                string_of(&ws[0])
            } else {
                assert(views(ws@)[0] == ws@[0]@);
                assert(views(ws@)[1] == ws@[1]@);
                let mut s = string_of(&ws[0]);
                s.append(" ");
                s.append(string_of(&ws[1]).as_str());
                s
            }
        },
    }
}

/// `c` repeated `n` times.
pub open spec fn repeated(c: char, n: nat) -> Seq<char> {
    Seq::new(n, |i: int| c)
}

pub(crate) fn push_repeated(s: &mut String, c: char, n: usize)
    ensures
        final(s)@ == old(s)@ + repeated(c, n as nat),
{
    let mut i: usize = 0;
    while i < n
        invariant
            i <= n,
            s@ == old(s)@ + repeated(c, i as nat),
        decreases n - i,
    {
        s.push(c);
        i = i + 1;
        assert(s@ =~= old(s)@ + repeated(c, i as nat));
    }
}

/// The filled cells of a bar of `width` cells at `percent` (capped at
/// 100), rounded to the nearest cell.
pub open spec fn filled_cells(percent: u16, width: nat) -> nat {
    let p: nat = if percent > 100 {
        100
    } else {
        percent as nat
    };
    (p * width + 50) / 100
}

/// A bar between `▕` and `▏`: filled cells `█`, the rest `░`.
pub open spec fn bar_text(percent: u16, width: nat) -> Seq<char> {
    let f = filled_cells(percent, width);
    "\u{2595}"@ + repeated('\u{2588}', f) + repeated(
        '\u{2591}',
        if width > f {
            (width - f) as nat
        } else {
            0
        },
    ) + "\u{258f}"@
}

pub fn progress_bar(percent: u16, width: usize) -> (r: String)
    requires
        100 * width + 50 <= usize::MAX,
    ensures
        r@ == bar_text(percent, width as nat),
{
    let p: usize = if percent > 100 {
        100
    } else {
        percent as usize
    };
    proof {
        assert(p * width <= 100 * width) by (nonlinear_arith)
            requires
                p <= 100,
        ;
    }
    let filled = (p * width + 50) / 100;
    let mut bar = String::from_str("\u{2595}");
    push_repeated(&mut bar, '\u{2588}', filled);
    let rest: usize = if width > filled {
        width - filled
    } else {
        0
    };
    push_repeated(&mut bar, '\u{2591}', rest);
    bar.append("\u{258f}");
    bar
}

/// `value` cut to `width` characters with `…` as the last one, or padded
/// with spaces to `width`.
pub open spec fn fit_spec(value: Seq<char>, width: nat) -> Seq<char> {
    if value.len() > width {
        value.take(if width > 0 {
            width - 1
        } else {
            0
        }) + "\u{2026}"@
    } else {
        value + repeated(' ', (width - value.len()) as nat)
    }
}

/// A fitted label takes exactly its column's width (one cell at width 0,
/// for the ellipsis of a cut label).
pub proof fn lemma_fit_fills_width(value: Seq<char>, width: nat)
    ensures
        width > 0 ==> fit_spec(value, width).len() == width,
        width == 0 ==> fit_spec(value, width).len() == if value.len() > 0 { 1nat } else { 0nat },
{
    reveal_strlit("\u{2026}");
}

pub fn fit_text(value: &str, width: usize) -> (r: String)
    ensures
        r@ == fit_spec(value@, width as nat),
{
    let v = chars_of(value);
    if v.len() > width {
        let take: usize = if width > 0 {
            width - 1
        } else {
            0
        };
        let head = crate::text::sub_chars(&v, 0, take);
        assert(head@ =~= value@.take(take as int));
        let s = string_of(&head);
        s.concat("\u{2026}")
    } else {
        let mut s = String::from_str(value);
        push_repeated(&mut s, ' ', width - v.len());
        s
    }
}

/// `value` right-aligned in `width` characters.
pub open spec fn pad_left(value: Seq<char>, width: nat) -> Seq<char> {
    if value.len() >= width {
        value
    } else {
        repeated(' ', (width - value.len()) as nat) + value
    }
}

pub(crate) fn pad_left_text(value: &String, width: usize) -> (r: String)
    ensures
        r@ == pad_left(value@, width as nat),
{
    let n = chars_of(value.as_str()).len();
    if n >= width {
        value.clone()
    } else {
        let mut s = String::new();
        push_repeated(&mut s, ' ', width - n);
        s.append(value.as_str());
        s
    }
}

/// The last path component that is not empty (all of `m` when there is
/// none).
pub open spec fn last_component(pieces: Seq<Seq<char>>, m: Seq<char>) -> Seq<char>
    decreases pieces.len(),
{
    if pieces.len() == 0 {
        m
    } else if pieces.last().len() > 0 {
        pieces.last()
    } else {
        last_component(pieces.drop_last(), m)
    }
}

/// A mount's label: `/` itself, else its last path component, at most 12
/// characters.
pub open spec fn mount_label(m: Seq<char>) -> Seq<char> {
    if m == "/"@ {
        "/"@
    } else {
        let c = last_component(split_on(m, '/'), m);
        if c.len() > 12 {
            c.take(12)
        } else {
            c
        }
    }
}

pub fn short_mount(mount: &str) -> (r: String)
    ensures
        r@ == mount_label(mount@),
{
    let m = chars_of(mount);
    if crate::text::eq_str(&m, "/") {
        return String::from_str("/");
    }
    let pieces = split_chars(&m, '/');
    let ghost ps = views(pieces@);
    let mut i: usize = pieces.len();
    assert(ps.take(i as int) =~= ps);
    loop
        invariant
            i <= pieces.len(),
            ps == views(pieces@),
            last_component(ps, m@) == last_component(ps.take(i as int), m@),
        ensures
            last_component(ps, m@) == last_component(ps.take(i as int), m@),
            i > 0 ==> pieces@[i - 1]@.len() > 0,
            i <= pieces.len(),
        decreases i,
    {
        if i == 0 {
            break;
        }
        assert(ps.take(i as int).last() == pieces@[i - 1]@);
        if pieces[i - 1].len() > 0 {
            break;
        }
        assert(ps.take(i as int).drop_last() =~= ps.take(i - 1));
        i = i - 1;
    }
    let comp: &Vec<char> = if i > 0 {
        assert(ps.take(i as int).last() == pieces@[i - 1]@);
        &pieces[i - 1]
    } else {
        assert(ps.take(0) =~= Seq::<Seq<char>>::empty());
        &m
    };
    if comp.len() > 12 {
        let head = crate::text::sub_chars(comp, 0, 12);
        assert(head@ =~= comp@.take(12));
        string_of(&head)
    } else {
        string_of(comp)
    }
}

/// The widths of the disk detail columns: percent, used and total.
#[derive(Clone, Copy, Debug, PartialEq, Eq, Structural)]
pub struct DiskDetailWidths {
    pub percent: usize,
    pub used: usize,
    pub total: usize,
}

pub open spec fn max_nat(a: nat, b: nat) -> nat {
    if a >= b {
        a
    } else {
        b
    }
}

/// The widest percent (at least 2), used size and total size (at least 1)
/// among the rows shown.
pub open spec fn detail_widths(ds: Seq<DiskRow>) -> (nat, nat, nat)
    decreases ds.len(),
{
    if ds.len() == 0 {
        (2, 1, 1)
    } else {
        let (p, u, t) = detail_widths(ds.drop_last());
        let d = ds.last();
        (
            max_nat(p, decimal(d.percent as nat).len()),
            max_nat(u, compact_text(d.used).len()),
            max_nat(t, compact_text(d.total).len()),
        )
    }
}

pub open spec fn shown_rows(ds: Seq<DiskRow>, max_lines: nat) -> Seq<DiskRow> {
    if ds.len() <= max_lines {
        ds
    } else {
        ds.take(max_lines as int)
    }
}

fn text_len(s: &String) -> (r: usize)
    ensures
        r == s@.len(),
{
    chars_of(s.as_str()).len()
}

pub fn disk_detail_widths(disks: &Vec<DiskSnapshot>, max_lines: usize) -> (r: DiskDetailWidths)
    ensures
        (r.percent as nat, r.used as nat, r.total as nat) == detail_widths(shown_rows(rows(disks@), max_lines as nat)),
{
    let ghost all = rows(disks@);
    let n: usize = if disks.len() <= max_lines {
        disks.len()
    } else {
        max_lines
    };
    let ghost sh = shown_rows(all, max_lines as nat);
    assert(sh =~= all.take(n as int));
    let mut w = DiskDetailWidths { percent: 2, used: 1, total: 1 };
    let mut i: usize = 0;
    assert(all.take(0) =~= Seq::<DiskRow>::empty());
    while i < n
        invariant
            i <= n <= disks.len(),
            all == rows(disks@),
            (w.percent as nat, w.used as nat, w.total as nat) == detail_widths(all.take(i as int)),
        decreases n - i,
    {
        assert(all.take(i + 1).drop_last() =~= all.take(i as int));
        assert(all.take(i + 1).last() == disks@[i as int]@);
        let p = text_len(&u64_text(disks[i].percent as u64));
        let u = text_len(&kib_to_compact(disks[i].used_kib));
        let t = text_len(&kib_to_compact(disks[i].total_kib));
        if p > w.percent {
            w.percent = p;
        }
        if u > w.used {
            w.used = u;
        }
        if t > w.total {
            w.total = t;
        }
        i = i + 1;
    }
    w
}

/// ` <percent>% <used>/<total> `, each right-aligned to its column.
pub open spec fn detail_text(percent: u16, used: Option<u64>, total: Option<u64>, w: DiskDetailWidths) -> Seq<char> {
    " "@ + pad_left(decimal(percent as nat), w.percent as nat) + "% "@ + pad_left(
        compact_opt(used),
        w.used as nat,
    ) + "/"@ + pad_left(compact_opt(total), w.total as nat) + " "@
}

pub fn disk_detail_text(percent: u16, used: Option<u64>, total: Option<u64>, widths: DiskDetailWidths) -> (r: String)
    ensures
        r@ == detail_text(percent, used, total, widths),
{
    let mut s = String::from_str(" ");
    s.append(pad_left_text(&u64_text(percent as u64), widths.percent).as_str());
    s.append("% ");
    s.append(pad_left_text(&compact_size_text(used), widths.used).as_str());
    s.append("/");
    s.append(pad_left_text(&compact_size_text(total), widths.total).as_str());
    s.append(" ");
    s
}

/// The bar fills what the mount, the separators and the details leave of
/// the card's width, at least 12 cells.
pub open spec fn bar_width_spec(inner_width: u16, mount_width: usize, detail_width: usize) -> nat {
    let used = 6 + mount_width + detail_width;
    let left: int = if inner_width > used {
        inner_width - used
    } else {
        0
    };
    if left > 12 {
        left as nat
    } else {
        12
    }
}

pub fn disk_bar_width(inner_width: u16, mount_width: usize, detail_width: usize) -> (r: usize)
    requires
        6 + mount_width + detail_width <= usize::MAX,
    ensures
        r == bar_width_spec(inner_width, mount_width, detail_width),
{
    let used = 6 + mount_width + detail_width;
    let w = inner_width as usize;
    let left = if w > used {
        w - used
    } else {
        0
    };
    if left > 12 {
        left
    } else {
        12
    }
}

/// `<mount>:<percent>%:<used>/<total>` per disk (sizes in `G`), joined
/// by commas; `-` without disks.
pub open spec fn disk_entry_text(d: DiskRow) -> Seq<char> {
    d.mount + ":"@ + decimal(d.percent as nat) + "%:"@ + gib_text(d.used, "G"@) + "/"@ + gib_text(
        d.total,
        "G"@,
    )
}

pub open spec fn disk_entries_text(ds: Seq<DiskRow>) -> Seq<char>
    decreases ds.len(),
{
    if ds.len() == 0 {
        Seq::empty()
    } else if ds.len() == 1 {
        disk_entry_text(ds[0])
    } else {
        disk_entries_text(ds.drop_last()) + ","@ + disk_entry_text(ds.last())
    }
}

pub fn disk_snapshot_text(disks: &Vec<DiskSnapshot>) -> (r: String)
    ensures
        r@ == if disks@.len() == 0 {
            "-"@
        } else {
            disk_entries_text(rows(disks@))
        },
{
    if disks.len() == 0 {
        return String::from_str("-");
    }
    let ghost all = rows(disks@);
    let mut out = String::new();
    let mut i: usize = 0;
    assert(all.take(0) =~= Seq::<DiskRow>::empty());
    while i < disks.len()
        invariant
            i <= disks.len(),
            all == rows(disks@),
            out@ == disk_entries_text(all.take(i as int)),
        decreases disks.len() - i,
    {
        assert(all.take(i + 1).drop_last() =~= all.take(i as int));
        assert(all.take(i + 1).last() == disks@[i as int]@);
        let d = &disks[i];
        if i > 0 {
            out.append(",");
        }
        out.append(d.mount.as_str());
        out.append(":");
        out.append(u64_text(d.percent as u64).as_str());
        out.append("%:");
        out.append(kib_to_gib_short(d.used_kib).as_str());
        out.append("/");
        out.append(kib_to_gib_short(d.total_kib).as_str());
        if i == 0 {
            assert(all.take(1)[0] == all[0]);
            assert(out@ =~= disk_entries_text(all.take(1)));
        } else {
            assert(out@ =~= disk_entries_text(all.take(i + 1)));
        }
        i = i + 1;
    }
    assert(all.take(disks.len() as int) =~= all);
    out
}

/// The RAM details: `<used>/<total>` and `<percent>%`, or `no data`
/// without either size.
pub fn ram_detail(used_kib: Option<u64>, total_kib: Option<u64>, percent: u16) -> (r: Vec<String>)
    ensures
        used_kib is None && total_kib is None ==> r@.len() == 1 && r@[0]@ == "no data"@,
        !(used_kib is None && total_kib is None) ==> r@.len() == 2 && r@[0]@ == compact_opt(used_kib)
            + "/"@ + compact_opt(total_kib) && r@[1]@ == decimal(percent as nat) + "%"@,
{
    let mut v: Vec<String> = Vec::new();
    if used_kib.is_none() && total_kib.is_none() {
        v.push(String::from_str("no data"));
        return v;
    }
    v.push(size_pair_text(used_kib, total_kib));
    let p = u64_text(percent as u64);
    v.push(p.concat("%"));
    v
}

/// Each grid column's mount label width: the longest label of the first
/// disk rows of its available cards, between 1 and 12.
pub open spec fn label_width_step(w: nat, m: Seq<char>) -> nat {
    let x = max_nat(w, mount_label(m).len());
    if x > MAX_DISK_MOUNT_LABEL_WIDTH {
        MAX_DISK_MOUNT_LABEL_WIDTH as nat
    } else {
        x
    }
}

pub open spec fn widths_after_mounts(w: nat, ms: Seq<Seq<char>>) -> nat
    decreases ms.len(),
{
    if ms.len() == 0 {
        w
    } else {
        label_width_step(widths_after_mounts(w, ms.drop_last()), ms.last())
    }
}

pub open spec fn first_mounts(h: HostLayout) -> Seq<Seq<char>> {
    let ms = h.mounts@.map_values(|s: String| s@);
    if ms.len() <= MAX_DISK_ROWS {
        ms
    } else {
        ms.take(MAX_DISK_ROWS as int)
    }
}

pub open spec fn column_widths_spec(hs: Seq<HostLayout>, columns: nat) -> Seq<nat>
    decreases hs.len(),
{
    if hs.len() == 0 {
        Seq::new(columns, |i: int| 1nat)
    } else {
        let w = column_widths_spec(hs.drop_last(), columns);
        let idx = hs.len() - 1;
        let h = hs.last();
        if h.status == Status::Unavailable {
            w
        } else {
            let c = idx % (columns as int);
            w.update(c, widths_after_mounts(w[c], first_mounts(h)))
        }
    }
}

pub fn column_disk_mount_widths(hosts: &Vec<HostLayout>, columns: usize) -> (r: Vec<usize>)
    ensures
        r@.map_values(|x: usize| x as nat) == column_widths_spec(
            hosts@,
            if columns > 1 {
                columns as nat
            } else {
                1
            },
        ),
{
    let cols: usize = if columns > 1 {
        columns
    } else {
        1
    };
    let mut widths: Vec<usize> = Vec::new();
    let mut k: usize = 0;
    while k < cols
        invariant
            k <= cols,
            widths@.len() == k,
            forall|j: int| 0 <= j < k ==> widths@[j] == 1,
        decreases cols - k,
    {
        widths.push(1);
        k = k + 1;
    }
    assert(widths@.map_values(|x: usize| x as nat) =~= column_widths_spec(hosts@.take(0), cols as nat));
    let mut i: usize = 0;
    while i < hosts.len()
        invariant
            i <= hosts.len(),
            cols >= 1,
            widths@.len() == cols,
            widths@.map_values(|x: usize| x as nat) == column_widths_spec(hosts@.take(i as int), cols as nat),
            forall|j: int| 0 <= j < cols ==> #[trigger] widths@[j] <= MAX_DISK_MOUNT_LABEL_WIDTH,
        decreases hosts.len() - i,
    {
        assert(hosts@.take(i + 1).drop_last() =~= hosts@.take(i as int));
        assert(hosts@.take(i + 1).last() == hosts@[i as int]);
        let h = &hosts[i];
        if h.status != Status::Unavailable {
            let c = i % cols;
            let ghost ms = first_mounts(*h);
            let n: usize = if h.mounts.len() <= MAX_DISK_ROWS {
                h.mounts.len()
            } else {
                MAX_DISK_ROWS
            };
            let mut w = widths[c];
            let ghost w0 = w as nat;
            let mut j: usize = 0;
            assert(ms.take(0) =~= Seq::<Seq<char>>::empty());
            while j < n
                invariant
                    j <= n <= h.mounts.len(),
                    ms == first_mounts(*h),
                    ms.len() == n,
                    w as nat == widths_after_mounts(w0, ms.take(j as int)),
                    w <= MAX_DISK_MOUNT_LABEL_WIDTH || j == 0,
                decreases n - j,
            {
                assert(ms.take(j + 1).drop_last() =~= ms.take(j as int));
                assert(ms.take(j + 1).last() == h.mounts@[j as int]@);
                let label = short_mount(h.mounts[j].as_str());
                let l = text_len(&label);
                let x = if w >= l {
                    w
                } else {
                    l
                };
                w = if x > MAX_DISK_MOUNT_LABEL_WIDTH {
                    MAX_DISK_MOUNT_LABEL_WIDTH
                } else {
                    x
                };
                j = j + 1;
            }
            assert(ms.take(n as int) =~= ms);
            let ghost before = widths@;
            widths.set(c, w);
            assert(widths@.map_values(|x: usize| x as nat) =~= column_widths_spec(hosts@.take(i + 1), cols as nat));
        }
        i = i + 1;
    }
    assert(hosts@.take(hosts.len() as int) =~= hosts@);
    widths
}

/// The total length of a section's details.
pub open spec fn parts_len(parts: Seq<Seq<char>>) -> nat
    decreases parts.len(),
{
    if parts.len() == 0 {
        0
    } else {
        parts_len(parts.drop_last()) + parts.last().len()
    }
}

/// The rule after a section's label: what the card's width leaves after
/// `─`, the label, the details and one `─` per detail; at least one cell.
pub open spec fn rule_len_spec(label: Seq<char>, parts: Seq<Seq<char>>, inner_width: u16) -> nat {
    let used = 1 + label.len() + parts_len(parts) + parts.len();
    if inner_width > used + 1 {
        (inner_width - used) as nat
    } else {
        1
    }
}

/// The room a section line needs fits a `usize`.
pub open spec fn section_fits(label: Seq<char>, parts: Seq<Seq<char>>) -> bool {
    1 + label.len() + parts_len(parts) + parts.len() <= usize::MAX
}

pub fn section_rule_len(label: &str, parts: &Vec<String>, inner_width: u16) -> (r: usize)
    requires
        section_fits(label@, string_views(parts@)),
    ensures
        r == rule_len_spec(label@, string_views(parts@), inner_width),
{
    let ghost ps = string_views(parts@);
    let mut total: usize = 0;
    let mut i: usize = 0;
    assert(ps.take(0) =~= Seq::<Seq<char>>::empty());
    while i < parts.len()
        invariant
            i <= parts.len(),
            ps == string_views(parts@),
            section_fits(label@, ps),
            total == parts_len(ps.take(i as int)),
        decreases parts.len() - i,
    {
        proof {
            lemma_parts_len_prefix(ps, i as int + 1);
        }
        assert(ps.take(i + 1).drop_last() =~= ps.take(i as int));
        assert(ps.take(i + 1).last() == parts@[i as int]@);
        total = total + text_len(&parts[i]);
        i = i + 1;
    }
    assert(ps.take(parts.len() as int) =~= ps);
    let used = 1 + chars_of(label).len() + total + parts.len();
    let w = inner_width as usize;
    if w > used && w - used > 1 {
        w - used
    } else {
        1
    }
}

proof fn lemma_parts_len_prefix(ps: Seq<Seq<char>>, k: int)
    requires
        0 <= k <= ps.len(),
    ensures
        parts_len(ps.take(k)) <= parts_len(ps),
    decreases ps.len(),
{
    if k < ps.len() {
        lemma_parts_len_prefix(ps.drop_last(), k);
        assert(ps.drop_last().take(k) =~= ps.take(k));
    } else {
        assert(ps.take(k) =~= ps);
    }
}

/// The details joined by `─`.
pub open spec fn joined_parts(parts: Seq<Seq<char>>) -> Seq<char>
    decreases parts.len(),
{
    if parts.len() == 0 {
        Seq::empty()
    } else if parts.len() == 1 {
        parts[0]
    } else {
        joined_parts(parts.drop_last()) + "\u{2500}"@ + parts.last()
    }
}

/// A section line: `─`, the label, the rule, the details separated by `─`,
/// and a closing `─`.
pub open spec fn section_text_spec(label: Seq<char>, parts: Seq<Seq<char>>, inner_width: u16) -> Seq<char> {
    "\u{2500}"@ + label + repeated('\u{2500}', rule_len_spec(label, parts, inner_width)) + joined_parts(parts)
        + "\u{2500}"@
}

pub fn section_text(label: &str, parts: &Vec<String>, inner_width: u16) -> (r: String)
    requires
        section_fits(label@, string_views(parts@)),
    ensures
        r@ == section_text_spec(label@, string_views(parts@), inner_width),
{
    let ghost ps = string_views(parts@);
    let rule = section_rule_len(label, parts, inner_width);
    let mut s = String::from_str("\u{2500}");
    s.append(label);
    push_repeated(&mut s, '\u{2500}', rule);
    let ghost head = s@;
    let mut i: usize = 0;
    assert(ps.take(0) =~= Seq::<Seq<char>>::empty());
    while i < parts.len()
        invariant
            i <= parts.len(),
            ps == string_views(parts@),
            s@ == head + joined_parts(ps.take(i as int)),
        decreases parts.len() - i,
    {
        assert(ps.take(i + 1).drop_last() =~= ps.take(i as int));
        assert(ps.take(i + 1).last() == parts@[i as int]@);
        if i > 0 {
            s.append("\u{2500}");
        } else {
            assert(ps.take(0) =~= Seq::<Seq<char>>::empty());
        }
        s.append(parts[i].as_str());
        i = i + 1;
    }
    assert(ps.take(parts.len() as int) =~= ps);
    s.append("\u{2500}");
    s
}

/// The three texts of a disk row: the mount label fitted to its column,
/// the usage bar, and the details.
pub struct DiskLineText {
    pub mount: String,
    pub bar: String,
    pub detail: String,
}

pub fn disk_line_text(disk: &DiskSnapshot, inner_width: u16, mount_width: usize, widths: DiskDetailWidths) -> (r: DiskLineText)
    requires
        6 + mount_width + detail_text(disk.percent, Some(disk.used_kib), Some(disk.total_kib), widths).len()
            <= usize::MAX,
    ensures
        r.mount@ == fit_spec(mount_label(disk.mount@), mount_width as nat),
        r.detail@ == detail_text(disk.percent, Some(disk.used_kib), Some(disk.total_kib), widths),
        r.bar@ == bar_text(disk.percent, bar_width_spec(inner_width, mount_width, r.detail@.len() as usize)),
{
    let mount = fit_text(short_mount(disk.mount.as_str()).as_str(), mount_width);
    let detail = disk_detail_text(disk.percent, Some(disk.used_kib), Some(disk.total_kib), widths);
    let detail_width = text_len(&detail);
    let bar_width = disk_bar_width(inner_width, mount_width, detail_width);
    let bar = progress_bar(disk.percent, bar_width);
    DiskLineText { mount, bar, detail }
}

} // verus!
