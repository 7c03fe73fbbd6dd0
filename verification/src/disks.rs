//! Which disks a host card shows: the mounts worth showing, one row per
//! mount, child datasets folded into their pool, the display order, the
//! configured labels and the row limit.
use vstd::prelude::*;
use vstd::relations::{sorted_by, total_ordering};
use crate::aliases::{
    DiskAliases, alias_lookup, lemma_text_lt_asym, lemma_text_lt_irreflexive,
    lemma_text_lt_total, lemma_text_lt_trans, text_lt, chars_less,
};
use crate::config::{DEFAULT_DISK_MAX_ROWS, ServerConfig, ServerView};
use crate::model::{DiskMetrics, DiskView, StorageMetrics, disk_views};
use crate::text::{chars_eq, chars_of, chars_start_with, eq_str, starts_with, string_of};

verus! {

/// One GiB in KiB: a parent mount hides its children only when it holds at
/// least this much, and other mounts than `/` are shown only from this size.
pub const ONE_GIB_KIB: u64 = 1_048_576;

/// A disk row of a host card.
#[derive(Clone, Debug, PartialEq, Eq)]
pub struct DiskSnapshot {
    pub mount: String,
    pub used_kib: u64,
    pub total_kib: u64,
    pub percent: u16,
}

pub struct DiskRow {
    pub mount: Seq<char>,
    pub used: u64,
    pub total: u64,
    pub percent: u16,
}

impl View for DiskSnapshot {
    type V = DiskRow;

    open spec fn view(&self) -> DiskRow {
        DiskRow { mount: self.mount@, used: self.used_kib, total: self.total_kib, percent: self.percent }
    }
}

pub open spec fn rows(v: Seq<DiskSnapshot>) -> Seq<DiskRow> {
    v.map_values(|d: DiskSnapshot| d@)
}

/// The number of path components of a mount: the maximal runs of characters
/// other than `/`.
pub open spec fn mount_depth(m: Seq<char>) -> nat
    decreases m.len(),
{
    if m.len() == 0 {
        0
    } else {
        let n = m.len() - 1;
        mount_depth(m.drop_last()) + if m[n] != '/' && (n == 0 || m[n - 1] == '/') {
            1nat
        } else {
            0nat
        }
    }
}

pub fn depth_of(mount: &Vec<char>) -> (r: usize)
    ensures
        r == mount_depth(mount@),
{
    let mut count: usize = 0;
    let mut i: usize = 0;
    assert(mount@.take(0) =~= Seq::<char>::empty());
    while i < mount.len()
        invariant
            i <= mount.len(),
            count == mount_depth(mount@.take(i as int)),
            count <= i,
        decreases mount.len() - i,
    {
        let ghost t = mount@.take(i + 1);
        assert(t.drop_last() =~= mount@.take(i as int));
        if mount[i] != '/' && (i == 0 || mount[i - 1] == '/') {
            count = count + 1;
        }
        i = i + 1;
    }
    assert(mount@.take(mount.len() as int) =~= mount@);
    count
}

/// `parent` is a mount above `child`: not `/`, and `child` continues it
/// after a `/`.
pub open spec fn is_parent_mount(parent: Seq<char>, child: Seq<char>) -> bool {
    &&& parent != "/"@
    &&& parent != child
    &&& child.len() > parent.len()
    &&& starts_with(child, parent)
    &&& child[parent.len() as int] == '/'
}

pub fn parent_mount(parent: &Vec<char>, child: &Vec<char>) -> (r: bool)
    ensures
        r == is_parent_mount(parent@, child@),
{
    if eq_str(parent, "/") || chars_eq(parent, child) {
        return false;
    }
    if child.len() <= parent.len() || !chars_start_with(child, parent) {
        return false;
    }
    child[parent.len()] == '/'
}

/// A mount under `/mnt/` is shown when its first component after `/mnt/` is
/// there and is not hidden (does not start with a dot).
pub open spec fn visible_mnt_mount(m: Seq<char>) -> bool {
    m.len() > 5 && m[5] != '/' && m[5] != '.'
}

/// The mounts worth a row: `/` always; others from one GiB up, under
/// `/mnt/` (visible ones), `/media/`, `/srv/` or `/home/`.
pub open spec fn meaningful_mount(m: Seq<char>, total: u64) -> bool {
    if m == "/"@ {
        true
    } else if total < ONE_GIB_KIB {
        false
    } else if starts_with(m, "/mnt/"@) {
        visible_mnt_mount(m)
    } else {
        starts_with(m, "/media/"@) || starts_with(m, "/srv/"@) || starts_with(m, "/home/"@)
    }
}

/// A mount under `/mnt/` is under none of `/media/`, `/srv/` and `/home/`,
/// and is not `/`.
proof fn lemma_mount_prefixes_exclusive(m: Seq<char>)
    ensures
        starts_with(m, "/mnt/"@) ==> !starts_with(m, "/media/"@) && !starts_with(m, "/srv/"@) && !starts_with(
            m,
            "/home/"@,
        ) && m != "/"@,
        (starts_with(m, "/media/"@) || starts_with(m, "/srv/"@) || starts_with(m, "/home/"@)) ==> m != "/"@,
{
    reveal_strlit("/");
    reveal_strlit("/mnt/");
    reveal_strlit("/media/");
    reveal_strlit("/srv/");
    reveal_strlit("/home/");
    if starts_with(m, "/mnt/"@) {
        assert(m.take(5)[1] == m[1] && m.take(5)[2] == m[2]);
        assert(m[1] == 'm' && m[2] == 'n');
        if starts_with(m, "/media/"@) {
            assert(m.take(7)[2] == m[2]);
        }
        if starts_with(m, "/srv/"@) {
            assert(m.take(5)[1] == m[1]);
        }
        if starts_with(m, "/home/"@) {
            assert(m.take(6)[1] == m[1]);
        }
    }
    if starts_with(m, "/media/"@) || starts_with(m, "/srv/"@) || starts_with(m, "/home/"@) {
        assert(m.len() >= 5);
    }
}

pub fn meaningful_disk_mount(mount: &Vec<char>, total_kib: u64) -> (r: bool)
    ensures
        r == meaningful_mount(mount@, total_kib),
        mount@ == "/"@ ==> r,
        mount@ != "/"@ && total_kib < ONE_GIB_KIB ==> !r,
        total_kib >= ONE_GIB_KIB && (starts_with(mount@, "/media/"@) || starts_with(mount@, "/srv/"@)
            || starts_with(mount@, "/home/"@)) ==> r,
        total_kib >= ONE_GIB_KIB && starts_with(mount@, "/mnt/"@) ==> (r <==> (mount@.len() > 5 && mount@[5]
            != '/' && mount@[5] != '.')),
        mount@ != "/"@ && !starts_with(mount@, "/mnt/"@) && !starts_with(mount@, "/media/"@) && !starts_with(
            mount@,
            "/srv/"@,
        ) && !starts_with(mount@, "/home/"@) ==> !r,
{
    proof {
        lemma_mount_prefixes_exclusive(mount@);
    }
    proof {
        reveal_strlit("/");
        reveal_strlit("/mnt/");
        reveal_strlit("/media/");
        reveal_strlit("/srv/");
        reveal_strlit("/home/");
    }
    if eq_str(mount, "/") {
        return true;
    }
    if total_kib < ONE_GIB_KIB {
        return false;
    }
    if chars_start_with(mount, &chars_of("/mnt/")) {
        return mount.len() > 5 && mount[5] != '/' && mount[5] != '.';
    }
    chars_start_with(mount, &chars_of("/media/")) || chars_start_with(mount, &chars_of("/srv/"))
        || chars_start_with(mount, &chars_of("/home/"))
}

/// The two orders of disk rows: by mount depth (parents before children),
/// and the display order (`/` first, then the largest disks).
#[derive(Clone, Copy, Debug, PartialEq, Eq, Structural)]
pub enum RowOrder {
    ByDepth,
    ForDisplay,
}

/// Ties after the leading keys: mount in lexicographic order, then used,
/// total and percent (rows with one mount each never reach these last three).
pub open spec fn tail_before(a: DiskRow, b: DiskRow) -> bool {
    ||| text_lt(a.mount, b.mount)
    ||| a.mount == b.mount && a.used < b.used
    ||| a.mount == b.mount && a.used == b.used && a.total < b.total
    ||| a.mount == b.mount && a.used == b.used && a.total == b.total && a.percent < b.percent
}

pub open spec fn root_rank(m: Seq<char>) -> nat {
    if m == "/"@ {
        0
    } else {
        1
    }
}

/// `a` strictly before `b` in `order`.
pub open spec fn row_before(order: RowOrder, a: DiskRow, b: DiskRow) -> bool {
    match order {
        RowOrder::ByDepth => {
            ||| mount_depth(a.mount) < mount_depth(b.mount)
            ||| mount_depth(a.mount) == mount_depth(b.mount) && tail_before(a, b)
        },
        RowOrder::ForDisplay => {
            ||| root_rank(a.mount) < root_rank(b.mount)
            ||| root_rank(a.mount) == root_rank(b.mount) && a.total > b.total
            ||| root_rank(a.mount) == root_rank(b.mount) && a.total == b.total && tail_before(a, b)
        },
    }
}

/// `a` equal to or before `b` in `order`.
pub open spec fn order_leq(order: RowOrder) -> spec_fn(DiskRow, DiskRow) -> bool {
    |a: DiskRow, b: DiskRow| a == b || row_before(order, a, b)
}

proof fn lemma_tail_total(a: DiskRow, b: DiskRow)
    ensures
        a == b || tail_before(a, b) || tail_before(b, a),
{
    lemma_text_lt_total(a.mount, b.mount);
}

proof fn lemma_tail_asym(a: DiskRow, b: DiskRow)
    requires
        tail_before(a, b),
    ensures
        !tail_before(b, a),
{
    if text_lt(a.mount, b.mount) {
        lemma_text_lt_asym(a.mount, b.mount);
        lemma_text_lt_irreflexive(a.mount);
    } else {
        lemma_text_lt_irreflexive(a.mount);
    }
}

proof fn lemma_tail_trans(a: DiskRow, b: DiskRow, c: DiskRow)
    requires
        tail_before(a, b),
        tail_before(b, c),
    ensures
        tail_before(a, c),
{
    if text_lt(a.mount, b.mount) && text_lt(b.mount, c.mount) {
        lemma_text_lt_trans(a.mount, b.mount, c.mount);
    }
}

proof fn lemma_before_total(order: RowOrder, a: DiskRow, b: DiskRow)
    ensures
        a == b || row_before(order, a, b) || row_before(order, b, a),
{
    lemma_tail_total(a, b);
}

proof fn lemma_before_asym(order: RowOrder, a: DiskRow, b: DiskRow)
    requires
        row_before(order, a, b),
    ensures
        !row_before(order, b, a),
{
    if tail_before(a, b) {
        lemma_tail_asym(a, b);
    }
    if tail_before(b, a) {
        lemma_tail_asym(b, a);
    }
}

proof fn lemma_before_trans(order: RowOrder, a: DiskRow, b: DiskRow, c: DiskRow)
    requires
        row_before(order, a, b),
        row_before(order, b, c),
    ensures
        row_before(order, a, c),
{
    if tail_before(a, b) && tail_before(b, c) {
        lemma_tail_trans(a, b, c);
    }
}

/// Both row orders are total orders.
pub proof fn lemma_order_total(order: RowOrder)
    ensures
        total_ordering(order_leq(order)),
{
    let leq = order_leq(order);
    assert forall|x: DiskRow, y: DiskRow| #[trigger] leq(x, y) && #[trigger] leq(y, x) implies x == y by {
        if x != y {
            lemma_before_asym(order, x, y);
        }
    }
    assert forall|x: DiskRow, y: DiskRow, z: DiskRow| #[trigger] leq(x, y) && #[trigger] leq(y, z) implies leq(x, z) by {
        if x != y && y != z {
            lemma_before_trans(order, x, y, z);
        }
    }
    assert forall|x: DiskRow, y: DiskRow| #[trigger] leq(x, y) || #[trigger] leq(y, x) by {
        lemma_before_total(order, x, y);
    }
}

/// Whether `a` comes strictly before `b` in `order`.
pub fn comes_before(order: RowOrder, a: &DiskSnapshot, b: &DiskSnapshot) -> (r: bool)
    ensures
        r == row_before(order, a@, b@),
{
    let am = chars_of(a.mount.as_str());
    let bm = chars_of(b.mount.as_str());
    let same = chars_eq(&am, &bm);
    let tail = chars_less(&am, &bm) || (same && a.used_kib < b.used_kib) || (same && a.used_kib
        == b.used_kib && a.total_kib < b.total_kib) || (same && a.used_kib == b.used_kib
        && a.total_kib == b.total_kib && a.percent < b.percent);
    match order {
        RowOrder::ByDepth => {
            let da = depth_of(&am);
            let db = depth_of(&bm);
            da < db || (da == db && tail)
        },
        RowOrder::ForDisplay => {
            let ra: u8 = if eq_str(&am, "/") {
                0
            } else {
                1
            };
            let rb: u8 = if eq_str(&bm, "/") {
                0
            } else {
                1
            };
            ra < rb || (ra == rb && a.total_kib > b.total_kib) || (ra == rb && a.total_kib
                == b.total_kib && tail)
        },
    }
}

proof fn lemma_insert_sorted(s: Seq<DiskRow>, p: int, x: DiskRow, order: RowOrder)
    requires
        0 <= p <= s.len(),
        sorted_by(s, order_leq(order)),
        forall|j: int| 0 <= j < p ==> #[trigger] row_before(order, s[j], x),
        p < s.len() ==> (order_leq(order))(x, s[p]),
    ensures
        sorted_by(s.insert(p, x), order_leq(order)),
{
    let leq = order_leq(order);
    lemma_order_total(order);
    let t = s.insert(p, x);
    assert forall|i: int, j: int| 0 <= i < j < t.len() implies #[trigger] leq(t[i], t[j]) by {
        if j < p {
            assert(t[i] == s[i] && t[j] == s[j]);
        } else if j == p {
            assert(t[i] == s[i] && t[j] == x);
        } else if i < p {
            assert(t[i] == s[i] && t[j] == s[j - 1]);
            assert(leq(s[i], x));
            assert(leq(x, s[p]));
            assert(leq(s[p], s[j - 1]) || p == j - 1);
        } else if i == p {
            assert(t[i] == x && t[j] == s[j - 1]);
            assert(leq(x, s[p]));
            assert(leq(s[p], s[j - 1]) || p == j - 1);
        } else {
            assert(t[i] == s[i - 1] && t[j] == s[j - 1]);
        }
    }
}

/// `v` sorted into `order`.
pub fn sort_rows(v: Vec<DiskSnapshot>, order: RowOrder) -> (r: Vec<DiskSnapshot>)
    ensures
        rows(r@) == rows(v@).sort_by(order_leq(order)),
{
    let ghost s = rows(v@);
    let ghost leq = order_leq(order);
    let mut rest = v;
    let mut out: Vec<DiskSnapshot> = Vec::new();
    let ghost mut k: int = 0;
    proof {
        lemma_order_total(order);
        assert(rows(rest@) =~= s.skip(0));
        assert(rows(out@) =~= s.take(0));
    }
    while rest.len() > 0
        invariant
            0 <= k <= s.len(),
            rows(rest@) == s.skip(k),
            rest@.len() == s.len() - k,
            total_ordering(leq),
            leq == order_leq(order),
            sorted_by(rows(out@), leq),
            rows(out@).to_multiset() == s.take(k).to_multiset(),
        decreases rest.len(),
    {
        let ghost r0 = rest@;
        let x = rest.remove(0);
        proof {
            assert(rows(r0)[0] == r0[0]@);
            assert(s.skip(k)[0] == s[k]);
            assert(rows(rest@) =~= rows(r0).drop_first());
            assert(s.skip(k).drop_first() =~= s.skip(k + 1));
        }
        assert(x@ == s[k]);
        let mut p: usize = 0;
        loop
            invariant
                p <= out.len(),
                forall|j: int| 0 <= j < p ==> #[trigger] row_before(order, rows(out@)[j], x@),
            ensures
                p <= out.len(),
                forall|j: int| 0 <= j < p ==> #[trigger] row_before(order, rows(out@)[j], x@),
                p < out.len() ==> !row_before(order, rows(out@)[p as int], x@),
            decreases out.len() - p,
        {
            if p >= out.len() {
                break;
            }
            if !comes_before(order, &out[p], &x) {
                break;
            }
            p = p + 1;
        }
        let ghost old_rows = rows(out@);
        proof {
            if p < out.len() {
                lemma_before_total(order, x@, old_rows[p as int]);
            }
            lemma_insert_sorted(old_rows, p as int, x@, order);
        }
        out.insert(p, x);
        proof {
            assert(rows(out@) =~= old_rows.insert(p as int, x@));
            vstd::seq_lib::to_multiset_insert(old_rows, p as int, x@);
            assert(s.take(k + 1) =~= s.take(k).push(s[k]));
            vstd::seq_lib::to_multiset_build(s.take(k), s[k]);
            assert(rows(rest@) =~= s.skip(k + 1));
            k = k + 1;
        }
    }
    proof {
        assert(s.take(k) =~= s);
        s.lemma_sort_by_ensures(leq);
        vstd::seq_lib::lemma_sorted_unique(rows(out@), s.sort_by(leq), leq);
    }
    out
}

/// The row of a disk as the collector reported it, with the used share in
/// whole percent that the caller worked out for it.
pub open spec fn row_of(d: DiskView, percent: u16) -> DiskRow {
    DiskRow { mount: d.mount, used: d.used_kib, total: d.total_kib, percent }
}

/// The rows of the disks with a meaningful mount, in the reported order;
/// `ps[i]` is the percentage of disk `i`.
pub open spec fn meaningful_rows(ds: Seq<DiskView>, ps: Seq<u16>) -> Seq<DiskRow>
    decreases ds.len(),
{
    if ds.len() == 0 || ps.len() == 0 {
        Seq::empty()
    } else {
        let rest = meaningful_rows(ds.drop_last(), ps.take(ds.len() - 1));
        let d = ds.last();
        if meaningful_mount(d.mount, d.total_kib) {
            rest.push(row_of(d, ps[ds.len() - 1]))
        } else {
            rest
        }
    }
}

fn snapshot_of(d: &DiskMetrics, percent: u16) -> (r: DiskSnapshot)
    ensures
        r@ == row_of(d@, percent),
{
    DiskSnapshot { mount: d.mount.clone(), used_kib: d.used_kib, total_kib: d.total_kib, percent }
}

/// The rows of the disks worth showing; `percents[i]` is the used share of
/// disk `i` in whole percent.
pub fn meaningful_snapshots(disks: &Vec<DiskMetrics>, percents: &Vec<u16>) -> (r: Vec<DiskSnapshot>)
    requires
        percents@.len() == disks@.len(),
    ensures
        rows(r@) == meaningful_rows(disk_views(disks@), percents@),
{
    let ghost ds = disk_views(disks@);
    let ghost ps = percents@;
    let mut out: Vec<DiskSnapshot> = Vec::new();
    let mut i: usize = 0;
    assert(ds.take(0) =~= Seq::<DiskView>::empty());
    assert(rows(out@) =~= Seq::<DiskRow>::empty());
    while i < disks.len()
        invariant
            i <= disks.len() == ps.len(),
            ds == disk_views(disks@),
            ps == percents@,
            rows(out@) == meaningful_rows(ds.take(i as int), ps.take(i as int)),
        decreases disks.len() - i,
    {
        let d = &disks[i];
        assert(ds.take(i + 1).drop_last() =~= ds.take(i as int));
        assert(ps.take(i + 1).take(i as int) =~= ps.take(i as int));
        assert(ds.take(i + 1).last() == d@);
        assert(ps.take(i + 1)[i as int] == percents@[i as int]);
        let m = chars_of(d.mount.as_str());
        if meaningful_disk_mount(&m, d.total_kib) {
            let ghost before = rows(out@);
            out.push(snapshot_of(d, percents[i]));
            assert(rows(out@) =~= before.push(row_of(d@, percents@[i as int])));
        }
        i = i + 1;
    }
    assert(ds.take(disks.len() as int) =~= ds);
    assert(ps.take(disks.len() as int) =~= ps);
    out
}

/// The first index of a row with mount `m`.
pub open spec fn find_mount(d: Seq<DiskRow>, m: Seq<char>) -> Option<nat>
    decreases d.len(),
{
    if d.len() == 0 {
        None
    } else if d[0].mount == m {
        Some(0)
    } else {
        match find_mount(d.drop_first(), m) {
            Some(i) => Some(i + 1),
            None => None,
        }
    }
}

proof fn lemma_find_mount_at(d: Seq<DiskRow>, m: Seq<char>, i: int)
    requires
        0 <= i <= d.len(),
        forall|j: int| 0 <= j < i ==> #[trigger] d[j].mount != m,
        i < d.len() ==> d[i].mount == m,
    ensures
        find_mount(d, m) == if i < d.len() {
            Some(i as nat)
        } else {
            None::<nat>
        },
    decreases i,
{
    if i > 0 {
        let t = d.drop_first();
        assert forall|j: int| 0 <= j < i - 1 implies #[trigger] t[j].mount != m by {
            assert(t[j] == d[j + 1]);
        }
        if i < d.len() {
            assert(t[i - 1] == d[i]);
        }
        lemma_find_mount_at(t, m, i - 1);
        assert(d[0].mount != m);
    }
}

/// A later row for the same mount wins when it reports more used space, or
/// the same used space on a larger filesystem.
pub open spec fn replaces(x: DiskRow, e: DiskRow) -> bool {
    x.used > e.used || (x.used == e.used && x.total > e.total)
}

/// One row per mount, at the place where the mount first appeared, holding
/// the winning report for it.
pub open spec fn dedupe_rows(s: Seq<DiskRow>) -> Seq<DiskRow>
    decreases s.len(),
{
    if s.len() == 0 {
        Seq::empty()
    } else {
        let d = dedupe_rows(s.drop_last());
        let x = s.last();
        match find_mount(d, x.mount) {
            Some(i) => if replaces(x, d[i as int]) {
                d.update(i as int, x)
            } else {
                d
            },
            None => d.push(x),
        }
    }
}

/// No two rows share a mount.
pub open spec fn distinct_mounts(s: Seq<DiskRow>) -> bool {
    forall|i: int, j: int| 0 <= i < j < s.len() ==> #[trigger] s[i].mount != #[trigger] s[j].mount
}

/// One row per mount (see `dedupe_rows`).
pub fn dedupe_disk_mounts(v: Vec<DiskSnapshot>) -> (r: Vec<DiskSnapshot>)
    ensures
        rows(r@) == dedupe_rows(rows(v@)),
        distinct_mounts(rows(r@)),
{
    let ghost s = rows(v@);
    let mut rest = v;
    let mut out: Vec<DiskSnapshot> = Vec::new();
    let ghost mut k: int = 0;
    proof {
        assert(rows(rest@) =~= s.skip(0));
        assert(s.take(0) =~= Seq::<DiskRow>::empty());
        assert(rows(out@) =~= Seq::<DiskRow>::empty());
    }
    while rest.len() > 0
        invariant
            0 <= k <= s.len(),
            rows(rest@) == s.skip(k),
            rest@.len() == s.len() - k,
            rows(out@) == dedupe_rows(s.take(k)),
            distinct_mounts(rows(out@)),
        decreases rest.len(),
    {
        let ghost r0 = rest@;
        let x = rest.remove(0);
        proof {
            assert(rows(r0)[0] == r0[0]@);
            assert(s.skip(k)[0] == s[k]);
            assert(rows(rest@) =~= rows(r0).drop_first());
            assert(s.skip(k).drop_first() =~= s.skip(k + 1));
            assert(s.take(k + 1).drop_last() =~= s.take(k));
            assert(s.take(k + 1).last() == s[k]);
        }
        let xm = chars_of(x.mount.as_str());
        let ghost d = rows(out@);
        let mut i: usize = 0;
        loop
            invariant
                i <= out.len(),
                d == rows(out@),
                xm@ == x@.mount,
                forall|j: int| 0 <= j < i ==> #[trigger] d[j].mount != x@.mount,
            ensures
                i <= out.len(),
                forall|j: int| 0 <= j < i ==> #[trigger] d[j].mount != x@.mount,
                i < out.len() ==> d[i as int].mount == x@.mount,
            decreases out.len() - i,
        {
            if i >= out.len() {
                break;
            }
            let em = chars_of(out[i].mount.as_str());
            assert(d[i as int] == out@[i as int]@);
            if chars_eq(&em, &xm) {
                break;
            }
            i = i + 1;
        }
        proof {
            lemma_find_mount_at(d, x@.mount, i as int);
        }
        if i < out.len() {
            assert(d[i as int] == out@[i as int]@);
            if x.used_kib > out[i].used_kib || (x.used_kib == out[i].used_kib && x.total_kib
                > out[i].total_kib) {
                out.set(i, x);
                assert(rows(out@) =~= d.update(i as int, s[k]));
            }
        } else {
            out.push(x);
            assert(rows(out@) =~= d.push(s[k]));
        }
        proof {
            k = k + 1;
        }
    }
    proof {
        assert(s.take(k) =~= s);
    }
    out
}

/// Some row already kept holds at least a GiB and is a parent mount of `x`.
pub open spec fn covered(c: Seq<DiskRow>, x: DiskRow) -> bool {
    exists|j: int|
        0 <= j < c.len() && c[j].used >= ONE_GIB_KIB && #[trigger] is_parent_mount(c[j].mount, x.mount)
}

/// The rows in order, each dropped when a row kept before it covers it.
pub open spec fn collapse_rows(s: Seq<DiskRow>) -> Seq<DiskRow>
    decreases s.len(),
{
    if s.len() == 0 {
        Seq::empty()
    } else {
        let c = collapse_rows(s.drop_last());
        if covered(c, s.last()) {
            c
        } else {
            c.push(s.last())
        }
    }
}

/// The rows of `v` that no kept row covers, in order (see `collapse_rows`).
pub fn drop_covered_rows(v: Vec<DiskSnapshot>) -> (r: Vec<DiskSnapshot>)
    ensures
        rows(r@) == collapse_rows(rows(v@)),
{
    let ghost s = rows(v@);
    let mut rest = v;
    let mut out: Vec<DiskSnapshot> = Vec::new();
    let ghost mut k: int = 0;
    proof {
        assert(rows(rest@) =~= s.skip(0));
        assert(s.take(0) =~= Seq::<DiskRow>::empty());
        assert(rows(out@) =~= Seq::<DiskRow>::empty());
    }
    while rest.len() > 0
        invariant
            0 <= k <= s.len(),
            rows(rest@) == s.skip(k),
            rest@.len() == s.len() - k,
            rows(out@) == collapse_rows(s.take(k)),
        decreases rest.len(),
    {
        let ghost r0 = rest@;
        let x = rest.remove(0);
        proof {
            assert(rows(r0)[0] == r0[0]@);
            assert(s.skip(k)[0] == s[k]);
            assert(rows(rest@) =~= rows(r0).drop_first());
            assert(s.skip(k).drop_first() =~= s.skip(k + 1));
            assert(s.take(k + 1).drop_last() =~= s.take(k));
            assert(s.take(k + 1).last() == s[k]);
        }
        let xm = chars_of(x.mount.as_str());
        let ghost c = rows(out@);
        let mut i: usize = 0;
        let mut hit = false;
        loop
            invariant_except_break
                !hit,
            invariant
                i <= out.len(),
                c == rows(out@),
                xm@ == x@.mount,
                forall|j: int|
                    0 <= j < i ==> !(c[j].used >= ONE_GIB_KIB && #[trigger] is_parent_mount(
                        c[j].mount,
                        x@.mount,
                    )),
            ensures
                hit ==> covered(c, x@),
                !hit ==> forall|j: int|
                    0 <= j < c.len() ==> !(c[j].used >= ONE_GIB_KIB && #[trigger] is_parent_mount(
                        c[j].mount,
                        x@.mount,
                    )),
            decreases out.len() - i,
        {
            if i >= out.len() {
                break;
            }
            let pm = chars_of(out[i].mount.as_str());
            assert(c[i as int] == out@[i as int]@);
            if out[i].used_kib >= ONE_GIB_KIB && parent_mount(&pm, &xm) {
                hit = true;
                assert(is_parent_mount(c[i as int].mount, x@.mount));
                break;
            }
            i = i + 1;
        }
        if !hit {
            out.push(x);
            assert(rows(out@) =~= c.push(s[k]));
        }
        proof {
            k = k + 1;
        }
    }
    proof {
        assert(s.take(k) =~= s);
    }
    out
}

/// When no disk is worth a row, the root filesystem totals (when the
/// collector reported them and the total is not zero) give a `/` row.
pub open spec fn with_root_fallback(
    c: Seq<DiskRow>,
    root_total: Option<u64>,
    root_used: Option<u64>,
    root_percent: u16,
) -> Seq<DiskRow> {
    match (root_total, root_used) {
        (Some(t), Some(u)) => if c.len() == 0 && t > 0 {
            seq![DiskRow { mount: "/"@, used: u, total: t, percent: root_percent }]
        } else {
            c
        },
        _ => c,
    }
}

/// The row's mount replaced by its label, where `aliases` has one.
pub open spec fn labelled(r: DiskRow, aliases: Seq<(Seq<char>, Seq<char>)>) -> DiskRow {
    match alias_lookup(aliases, r.mount) {
        Some(a) => DiskRow { mount: a, ..r },
        None => r,
    }
}

pub open spec fn labelled_rows(s: Seq<DiskRow>, server: Option<ServerView>) -> Seq<DiskRow> {
    match server {
        Some(sv) => s.map_values(|r: DiskRow| labelled(r, sv.disk_aliases)),
        None => s,
    }
}

/// At most the server's `disk_max_rows`, and never more than the default
/// limit.
pub open spec fn row_limit(server: Option<ServerView>) -> nat {
    match server {
        Some(sv) => match sv.disk_max_rows {
            Some(n) => if n < DEFAULT_DISK_MAX_ROWS {
                n as nat
            } else {
                DEFAULT_DISK_MAX_ROWS as nat
            },
            None => DEFAULT_DISK_MAX_ROWS as nat,
        },
        None => DEFAULT_DISK_MAX_ROWS as nat,
    }
}

/// The disk rows of a host card: the meaningful disks, one row per mount,
/// sorted by depth so that pools come before their datasets, datasets under
/// a pool holding a GiB dropped, `/` from the root totals when nothing is
/// left, put in display order, labelled, and cut to the row limit.
pub open spec fn shown_disks(
    disks: Seq<DiskView>,
    percents: Seq<u16>,
    root_total: Option<u64>,
    root_used: Option<u64>,
    root_percent: u16,
    server: Option<ServerView>,
) -> Seq<DiskRow> {
    let single = dedupe_rows(meaningful_rows(disks, percents));
    let folded = collapse_rows(single.sort_by(order_leq(RowOrder::ByDepth)));
    let base = with_root_fallback(folded, root_total, root_used, root_percent);
    let named = labelled_rows(base.sort_by(order_leq(RowOrder::ForDisplay)), server);
    if named.len() <= row_limit(server) {
        named
    } else {
        named.take(row_limit(server) as int)
    }
}

pub open spec fn server_view(server: Option<&ServerConfig>) -> Option<ServerView> {
    match server {
        Some(s) => Some(s@),
        None => None,
    }
}

/// Replaces each mount that the server has a label for.
pub fn apply_disk_aliases(disks: &mut Vec<DiskSnapshot>, server: Option<&ServerConfig>)
    ensures
        rows(final(disks)@) == labelled_rows(rows(old(disks)@), server_view(server)),
{
    let server = match server {
        Some(s) => s,
        None => {
            return;
        },
    };
    let ghost s0 = rows(disks@);
    let ghost al = server.disk_aliases@;
    let mut i: usize = 0;
    while i < disks.len()
        invariant
            i <= disks.len() == s0.len(),
            al == server.disk_aliases@,
            forall|j: int| 0 <= j < i ==> #[trigger] rows(disks@)[j] == labelled(s0[j], al),
            forall|j: int| i <= j < disks.len() ==> #[trigger] rows(disks@)[j] == s0[j],
        decreases disks.len() - i,
    {
        let m = chars_of(disks[i].mount.as_str());
        assert(rows(disks@)[i as int] == disks@[i as int]@);
        match server.disk_aliases.get(&m) {
            Some(a) => {
                let label = a.clone();
                let d = DiskSnapshot {
                    mount: label,
                    used_kib: disks[i].used_kib,
                    total_kib: disks[i].total_kib,
                    percent: disks[i].percent,
                };
                let ghost before = rows(disks@);
                disks.set(i, d);
                assert(rows(disks@) =~= before.update(i as int, labelled(s0[i as int], al)));
            },
            None => {},
        }
        i = i + 1;
    }
    assert(rows(disks@) =~= labelled_rows(s0, server_view(Some(server))));
}

fn root_row(total: u64, used: u64, percent: u16) -> (r: DiskSnapshot)
    ensures
        r@ == (DiskRow { mount: "/"@, used: used, total: total, percent }),
{
    DiskSnapshot { mount: String::from_str("/"), used_kib: used, total_kib: total, percent }
}

/// The disk rows of a host card (see `shown_disks`). The used shares in
/// whole percent come from the caller: `disk_percents[i]` for disk `i` of
/// `storage`, `root_percent` for the root filesystem totals.
pub fn disk_snapshots(
    storage: &StorageMetrics,
    server: Option<&ServerConfig>,
    disk_percents: &Vec<u16>,
    root_percent: u16,
) -> (r: Vec<DiskSnapshot>)
    requires
        disk_percents@.len() == storage.disks@.len(),
    ensures
        rows(r@) == shown_disks(
            disk_views(storage.disks@),
            disk_percents@,
            storage.root_total_kib,
            storage.root_used_kib,
            root_percent,
            server_view(server),
        ),
        r@.len() <= row_limit(server_view(server)),
{
    let kept = meaningful_snapshots(&storage.disks, disk_percents);
    let single = dedupe_disk_mounts(kept);
    let by_depth = sort_rows(single, RowOrder::ByDepth);
    let mut disks = drop_covered_rows(by_depth);
    let ghost folded = rows(disks@);
    match (storage.root_total_kib, storage.root_used_kib) {
        (Some(total), Some(used)) => {
            if disks.len() == 0 && total > 0 {
                disks.push(root_row(total, used, root_percent));
                assert(rows(disks@) =~= with_root_fallback(
                    folded,
                    storage.root_total_kib,
                    storage.root_used_kib,
                    root_percent,
                ));
            }
        },
        _ => {},
    }
    let mut ordered = sort_rows(disks, RowOrder::ForDisplay);
    apply_disk_aliases(&mut ordered, server);
    let limit: usize = match server {
        Some(s) => match s.disk_max_rows {
            Some(n) => if n < DEFAULT_DISK_MAX_ROWS {
                n
            } else {
                DEFAULT_DISK_MAX_ROWS
            },
            None => DEFAULT_DISK_MAX_ROWS,
        },
        None => DEFAULT_DISK_MAX_ROWS,
    };
    let ghost named = rows(ordered@);
    ordered.truncate(limit);
    proof {
        if named.len() > limit {
            assert(rows(ordered@) =~= named.take(limit as int));
        }
    }
    ordered
}

proof fn lemma_depth_prefix(s: Seq<char>, n: int)
    requires
        0 <= n <= s.len(),
    ensures
        mount_depth(s.take(n)) <= mount_depth(s),
    decreases s.len(),
{
    if n < s.len() {
        assert(s.drop_last().take(n) =~= s.take(n));
        lemma_depth_prefix(s.drop_last(), n);
    } else {
        assert(s.take(n) =~= s);
    }
}

proof fn lemma_prefix_text_lt(p: Seq<char>, c: Seq<char>)
    requires
        p.len() < c.len(),
        starts_with(c, p),
    ensures
        text_lt(p, c),
    decreases p.len(),
{
    if p.len() > 0 {
        assert(c.take(p.len() as int)[0] == c[0]);
        assert(c.drop_first().take(p.drop_first().len() as int) =~= p.drop_first()) by {
            assert forall|i: int| 0 <= i < p.len() - 1 implies c.drop_first()[i] == p.drop_first()[i] by {
                assert(c.take(p.len() as int)[i + 1] == c[i + 1]);
            }
        }
        lemma_prefix_text_lt(p.drop_first(), c.drop_first());
    }
}

/// A parent mount sorts before its children by depth.
proof fn lemma_parent_before_child(p: DiskRow, c: DiskRow)
    requires
        is_parent_mount(p.mount, c.mount),
    ensures
        row_before(RowOrder::ByDepth, p, c),
{
    lemma_depth_prefix(c.mount, p.mount.len() as int);
    lemma_prefix_text_lt(p.mount, c.mount);
}

/// Every row kept by `collapse_rows` is a row of its input, at an index no
/// later than the input's length.
proof fn lemma_collapse_from_input(s: Seq<DiskRow>)
    ensures
        forall|j: int| 0 <= j < collapse_rows(s).len() ==> exists|k: int|
            0 <= k < s.len() && #[trigger] collapse_rows(s)[j] == s[k],
    decreases s.len(),
{
    if s.len() > 0 {
        let t = s.drop_last();
        lemma_collapse_from_input(t);
        let c = collapse_rows(s);
        assert forall|j: int| 0 <= j < c.len() implies exists|k: int|
            0 <= k < s.len() && #[trigger] c[j] == s[k] by {
            if j < collapse_rows(t).len() {
                let k = choose|k: int| 0 <= k < t.len() && collapse_rows(t)[j] == t[k];
                assert(s[k] == t[k]);
            } else {
                assert(c[j] == s[s.len() - 1]);
            }
        }
    }
}

/// Folding a depth-sorted list leaves no row under a kept parent that holds
/// at least a GiB: a pool's datasets are shown only under a nearly empty pool.
pub proof fn lemma_folded_rows_hide_children(s: Seq<DiskRow>)
    requires
        sorted_by(s, order_leq(RowOrder::ByDepth)),
    ensures
        forall|i: int, j: int|
            0 <= i < collapse_rows(s).len() && 0 <= j < collapse_rows(s).len()
                ==> !(collapse_rows(s)[i].used >= ONE_GIB_KIB && #[trigger] is_parent_mount(
                collapse_rows(s)[i].mount,
                #[trigger] collapse_rows(s)[j].mount,
            )),
    decreases s.len(),
{
    if s.len() > 0 {
        let t = s.drop_last();
        let x = s.last();
        let leq = order_leq(RowOrder::ByDepth);
        assert(sorted_by(t, leq)) by {
            assert forall|a: int, b: int| 0 <= a < b < t.len() implies #[trigger] leq(t[a], t[b]) by {
                assert(t[a] == s[a] && t[b] == s[b]);
            }
        }
        lemma_folded_rows_hide_children(t);
        lemma_collapse_from_input(t);
        let ct = collapse_rows(t);
        let c = collapse_rows(s);
        if !covered(ct, x) {
            assert forall|i: int, j: int| 0 <= i < c.len() && 0 <= j < c.len() implies !(
            c[i].used >= ONE_GIB_KIB && #[trigger] is_parent_mount(c[i].mount, #[trigger] c[j].mount)) by {
                if i == ct.len() && j < ct.len() && is_parent_mount(c[i].mount, c[j].mount) {
                    let k = choose|k: int| 0 <= k < t.len() && ct[j] == t[k];
                    assert(leq(s[k], s[s.len() - 1]));
                    lemma_parent_before_child(x, ct[j]);
                    lemma_before_asym(RowOrder::ByDepth, x, ct[j]);
                } else if i < ct.len() && j < ct.len() {
                    assert(c[i] == ct[i] && c[j] == ct[j]);
                }
            }
        }
    }
}

/// A row as the card may show it: a percentage of at most 99, and either
/// the root or a filesystem of at least a GiB.
pub open spec fn row_ok(r: DiskRow) -> bool {
    r.percent <= 99 && (r.mount == "/"@ || r.total >= ONE_GIB_KIB)
}

/// No row lies under another row that holds at least a GiB.
pub open spec fn no_hidden_child(s: Seq<DiskRow>) -> bool {
    forall|i: int, j: int|
        0 <= i < s.len() && 0 <= j < s.len() ==> !(s[i].used >= ONE_GIB_KIB && #[trigger] is_parent_mount(
            s[i].mount,
            #[trigger] s[j].mount,
        ))
}

/// Every row of `r` is a row of `s`.
pub open spec fn rows_within(r: Seq<DiskRow>, s: Seq<DiskRow>) -> bool {
    forall|i: int| 0 <= i < r.len() ==> s.contains(#[trigger] r[i])
}

/// Every percentage is at most 99.
pub open spec fn percents_capped(ps: Seq<u16>) -> bool {
    forall|i: int| 0 <= i < ps.len() ==> #[trigger] ps[i] <= 99
}

proof fn lemma_meaningful_rows_ok(ds: Seq<DiskView>, ps: Seq<u16>)
    requires
        ds.len() == ps.len(),
        percents_capped(ps),
    ensures
        forall|i: int| 0 <= i < meaningful_rows(ds, ps).len() ==> row_ok(#[trigger] meaningful_rows(ds, ps)[i]),
    decreases ds.len(),
{
    reveal_strlit("/");
    if ds.len() > 0 {
        let p2 = ps.take(ds.len() - 1);
        assert(percents_capped(p2)) by {
            assert forall|i: int| 0 <= i < p2.len() implies #[trigger] p2[i] <= 99 by {
                assert(p2[i] == ps[i]);
            }
        }
        lemma_meaningful_rows_ok(ds.drop_last(), p2);
        let d = ds.last();
        let rest = meaningful_rows(ds.drop_last(), p2);
        let all = meaningful_rows(ds, ps);
        if meaningful_mount(d.mount, d.total_kib) {
            assert(ps[ds.len() - 1] <= 99);
            assert(row_ok(row_of(d, ps[ds.len() - 1])));
            assert forall|i: int| 0 <= i < all.len() implies row_ok(#[trigger] all[i]) by {
                if i < rest.len() {
                    assert(all[i] == rest[i]);
                }
            }
        }
    }
}

proof fn lemma_find_mount_props(d: Seq<DiskRow>, m: Seq<char>)
    ensures
        find_mount(d, m) matches Some(i) ==> i < d.len() && d[i as int].mount == m,
        find_mount(d, m) is None ==> forall|j: int| 0 <= j < d.len() ==> #[trigger] d[j].mount != m,
    decreases d.len(),
{
    if d.len() > 0 {
        let t = d.drop_first();
        lemma_find_mount_props(t, m);
        if find_mount(d, m) is None {
            assert forall|j: int| 0 <= j < d.len() implies #[trigger] d[j].mount != m by {
                if j > 0 {
                    assert(d[j] == t[j - 1]);
                }
            }
        }
        if let Some(i) = find_mount(t, m) {
            if d[0].mount != m {
                assert(d[i + 1 as int] == t[i as int]);
            }
        }
    }
}

proof fn lemma_dedupe_rows_props(s: Seq<DiskRow>)
    ensures
        rows_within(dedupe_rows(s), s),
        distinct_mounts(dedupe_rows(s)),
    decreases s.len(),
{
    if s.len() > 0 {
        let t = s.drop_last();
        let d = dedupe_rows(t);
        let x = s.last();
        lemma_dedupe_rows_props(t);
        lemma_find_mount_props(d, x.mount);
        let r = dedupe_rows(s);
        assert forall|i: int| 0 <= i < r.len() implies s.contains(#[trigger] r[i]) by {
            if r[i] == x {
                assert(s[s.len() - 1] == x);
            } else {
                assert(r[i] == d[i]);
                assert(t.contains(d[i]));
                let k = choose|k: int| 0 <= k < t.len() && t[k] == d[i];
                assert(s[k] == t[k]);
            }
        }
    }
}

proof fn lemma_sort_keeps(s: Seq<DiskRow>, order: RowOrder)
    ensures
        s.sort_by(order_leq(order)).len() == s.len(),
        rows_within(s.sort_by(order_leq(order)), s),
        sorted_by(s.sort_by(order_leq(order)), order_leq(order)),
        distinct_mounts(s) ==> distinct_mounts(s.sort_by(order_leq(order))),
{
    let leq = order_leq(order);
    lemma_order_total(order);
    s.lemma_sort_by_ensures(leq);
    let r = s.sort_by(leq);
    s.to_multiset_ensures();
    r.to_multiset_ensures();
    assert forall|i: int| 0 <= i < r.len() implies s.contains(#[trigger] r[i]) by {
        assert(r.contains(r[i]));
    }
    if distinct_mounts(s) {
        assert forall|i: int, j: int| 0 <= i < s.len() && 0 <= j < s.len() && i != j implies s[i] != s[j] by {
            if i < j {
                assert(s[i].mount != s[j].mount);
            } else {
                assert(s[j].mount != s[i].mount);
            }
        }
        assert(s.no_duplicates());
        s.lemma_multiset_has_no_duplicates();
        r.lemma_multiset_has_no_duplicates_conv();
        assert forall|i: int, j: int| 0 <= i < j < r.len() implies #[trigger] r[i].mount != #[trigger] r[j].mount by {
            assert(r[i] != r[j]);
            assert(s.contains(r[i]) && s.contains(r[j]));
            let a = choose|a: int| 0 <= a < s.len() && s[a] == r[i];
            let b = choose|b: int| 0 <= b < s.len() && s[b] == r[j];
            if a < b {
                assert(s[a].mount != s[b].mount);
            } else {
                assert(s[b].mount != s[a].mount);
            }
        }
    }
}

proof fn lemma_collapse_distinct(s: Seq<DiskRow>)
    requires
        distinct_mounts(s),
    ensures
        distinct_mounts(collapse_rows(s)),
        rows_within(collapse_rows(s), s),
    decreases s.len(),
{
    lemma_collapse_from_input(s);
    if s.len() > 0 {
        let t = s.drop_last();
        assert(distinct_mounts(t)) by {
            assert forall|i: int, j: int| 0 <= i < j < t.len() implies #[trigger] t[i].mount != #[trigger] t[j].mount by {
                assert(t[i] == s[i] && t[j] == s[j]);
            }
        }
        lemma_collapse_distinct(t);
        lemma_collapse_from_input(t);
        let c = collapse_rows(t);
        let r = collapse_rows(s);
        assert forall|i: int| 0 <= i < r.len() implies s.contains(#[trigger] r[i]) by {
            let k = choose|k: int| 0 <= k < s.len() && r[i] == s[k];
        }
        assert forall|i: int, j: int| 0 <= i < j < r.len() implies #[trigger] r[i].mount != #[trigger] r[j].mount by {
            if j < c.len() {
                assert(r[i] == c[i] && r[j] == c[j]);
            } else {
                assert(r[j] == s[s.len() - 1]);
                assert(r[i] == c[i]);
                let k = choose|k: int| 0 <= k < t.len() && c[i] == t[k];
                assert(s[k] == t[k]);
            }
        }
    }
}

/// Carrying the row facts from rows to rows within them.
proof fn lemma_within_keeps(r: Seq<DiskRow>, s: Seq<DiskRow>)
    requires
        rows_within(r, s),
    ensures
        (forall|i: int| 0 <= i < s.len() ==> row_ok(#[trigger] s[i])) ==> (forall|i: int|
            0 <= i < r.len() ==> row_ok(#[trigger] r[i])),
        no_hidden_child(s) ==> no_hidden_child(r),
{
    if forall|i: int| 0 <= i < s.len() ==> row_ok(#[trigger] s[i]) {
        assert forall|i: int| 0 <= i < r.len() implies row_ok(#[trigger] r[i]) by {
            assert(s.contains(r[i]));
        }
    }
    if no_hidden_child(s) {
        assert forall|i: int, j: int| 0 <= i < r.len() && 0 <= j < r.len() implies !(r[i].used >= ONE_GIB_KIB
            && #[trigger] is_parent_mount(r[i].mount, #[trigger] r[j].mount)) by {
            assert(s.contains(r[i]) && s.contains(r[j]));
            let a = choose|a: int| 0 <= a < s.len() && s[a] == r[i];
            let b = choose|b: int| 0 <= b < s.len() && s[b] == r[j];
        }
    }
}

/// The rows of a card without server settings: at most the default number,
/// one per mount, each a root or a filesystem of at least a GiB at no more
/// than 99 percent (when the given percentages are), none under a shown row
/// that holds a GiB, and in display order: the root first, then the largest,
/// ties by mount.
pub proof fn lemma_shown_disks_well_formed(
    disks: Seq<DiskView>,
    percents: Seq<u16>,
    root_total: Option<u64>,
    root_used: Option<u64>,
    root_percent: u16,
)
    requires
        percents.len() == disks.len(),
        percents_capped(percents),
        root_percent <= 99,
    ensures
        shown_disks(disks, percents, root_total, root_used, root_percent, None).len() <= DEFAULT_DISK_MAX_ROWS,
        distinct_mounts(shown_disks(disks, percents, root_total, root_used, root_percent, None)),
        forall|i: int|
            0 <= i < shown_disks(disks, percents, root_total, root_used, root_percent, None).len() ==> row_ok(
                #[trigger] shown_disks(disks, percents, root_total, root_used, root_percent, None)[i],
            ),
        no_hidden_child(shown_disks(disks, percents, root_total, root_used, root_percent, None)),
        sorted_by(
            shown_disks(disks, percents, root_total, root_used, root_percent, None),
            order_leq(RowOrder::ForDisplay),
        ),
{
    reveal_strlit("/");
    let m = meaningful_rows(disks, percents);
    lemma_meaningful_rows_ok(disks, percents);
    let single = dedupe_rows(m);
    lemma_dedupe_rows_props(m);
    lemma_within_keeps(single, m);
    let by_depth = single.sort_by(order_leq(RowOrder::ByDepth));
    lemma_sort_keeps(single, RowOrder::ByDepth);
    lemma_within_keeps(by_depth, single);
    let folded = collapse_rows(by_depth);
    lemma_collapse_distinct(by_depth);
    lemma_within_keeps(folded, by_depth);
    lemma_folded_rows_hide_children(by_depth);
    let base = with_root_fallback(folded, root_total, root_used, root_percent);
    if base != folded {
        assert(base.len() == 1 && base[0].mount == "/"@);
        assert(no_hidden_child(base));
    }
    let shown = base.sort_by(order_leq(RowOrder::ForDisplay));
    lemma_sort_keeps(base, RowOrder::ForDisplay);
    lemma_within_keeps(shown, base);
    let r = shown_disks(disks, percents, root_total, root_used, root_percent, None);
    if shown.len() > DEFAULT_DISK_MAX_ROWS {
        let n = DEFAULT_DISK_MAX_ROWS as int;
        assert forall|i: int| 0 <= i < r.len() implies shown.contains(#[trigger] r[i]) by {
            assert(r[i] == shown[i]);
        }
        lemma_within_keeps(r, shown);
        assert(distinct_mounts(r)) by {
            assert forall|i: int, j: int| 0 <= i < j < r.len() implies #[trigger] r[i].mount != #[trigger] r[j].mount by {
                assert(r[i] == shown[i] && r[j] == shown[j]);
            }
        }
        assert(sorted_by(r, order_leq(RowOrder::ForDisplay))) by {
            assert forall|i: int, j: int| 0 <= i < j < r.len() implies #[trigger] order_leq(RowOrder::ForDisplay)(r[i], r[j]) by {
                assert(r[i] == shown[i] && r[j] == shown[j]);
            }
        }
    } else {
        assert(r == shown);
    }
}

} // verus!
