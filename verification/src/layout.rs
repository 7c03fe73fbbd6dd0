//! The dashboard's layout arithmetic: the terminal floor, the grid columns,
//! the height of each row of cards, and the rows inside a card.
use vstd::prelude::*;
use crate::theme::Status;

verus! {

pub const MAX_DISK_MOUNT_LABEL_WIDTH: usize = 12;

pub const MIN_TERMINAL_WIDTH: u16 = 80;

pub const MIN_TERMINAL_HEIGHT: u16 = 24;

/// The top and bottom border of a card.
pub const CARD_BORDER_ROWS: u16 = 2;

/// The rows of a card that are not graphs or disks: the section lines.
pub const CARD_FIXED_CONTENT_ROWS: usize = 6;

pub const MAX_DISK_ROWS: usize = 8;

/// The smallest terminal the dashboard draws in.
#[derive(Clone, Copy, Debug, PartialEq, Eq, Structural)]
pub struct TerminalSizeRequirement {
    pub width: u16,
    pub height: u16,
}

/// 80 columns by 24 rows.
pub fn minimum_terminal_size() -> (r: TerminalSizeRequirement)
    ensures
        r.width == MIN_TERMINAL_WIDTH,
        r.height == MIN_TERMINAL_HEIGHT,
{
    TerminalSizeRequirement { width: MIN_TERMINAL_WIDTH, height: MIN_TERMINAL_HEIGHT }
}

pub open spec fn columns_for(width: u16, host_count: usize) -> usize {
    let c: usize = if width >= 180 {
        3
    } else if width >= 88 {
        2
    } else {
        1
    };
    let hosts: usize = if host_count > 1 {
        host_count
    } else {
        1
    };
    if c < hosts {
        c
    } else {
        hosts
    }
}

/// Cards per row: three from 180 columns, two from 88, else one; never
/// more than there are hosts (and at least one).
pub fn grid_columns(width: u16, host_count: usize) -> (r: usize)
    ensures
        r == columns_for(width, host_count),
        1 <= r <= 3,
{
    let columns: usize = if width >= 180 {
        3
    } else if width >= 88 {
        2
    } else {
        1
    };
    let hosts: usize = if host_count > 1 {
        host_count
    } else {
        1
    };
    if columns < hosts {
        columns
    } else {
        hosts
    }
}

/// What the layout needs of a host card: its status and its disk mounts
/// in display order.
#[derive(Clone, Debug, PartialEq, Eq)]
pub struct HostLayout {
    pub status: Status,
    pub mounts: Vec<String>,
}

/// A row of the grid: the hosts `start..end` and the disk rows its tallest
/// available card shows.
#[derive(Clone, Copy, Debug, PartialEq, Eq, Structural)]
pub struct RowLayoutInfo {
    pub start: usize,
    pub end: usize,
    pub disk_rows: usize,
}

pub open spec fn capped_disks(n: nat) -> nat {
    if n < MAX_DISK_ROWS {
        n
    } else {
        MAX_DISK_ROWS as nat
    }
}

/// The largest capped disk count among the available hosts of `hs`.
pub open spec fn max_disk_rows(hs: Seq<(Status, nat)>) -> nat
    decreases hs.len(),
{
    if hs.len() == 0 {
        0
    } else {
        let m = max_disk_rows(hs.drop_last());
        let (st, n) = hs.last();
        if st == Status::Unavailable || capped_disks(n) <= m {
            m
        } else {
            capped_disks(n)
        }
    }
}

pub open spec fn layout_keys(hs: Seq<HostLayout>) -> Seq<(Status, nat)> {
    hs.map_values(|h: HostLayout| (h.status, h.mounts@.len()))
}

/// The row of hosts from `start`: the next `columns` hosts (fewer at the end).
pub open spec fn row_from(keys: Seq<(Status, nat)>, start: int, columns: nat) -> RowLayoutInfo {
    let end = if start + columns <= keys.len() {
        start + columns
    } else {
        keys.len() as int
    };
    RowLayoutInfo {
        start: start as usize,
        end: end as usize,
        disk_rows: max_disk_rows(keys.subrange(start, end)) as usize,
    }
}

/// The rows of the grid from host `start` on: consecutive runs of
/// `columns` hosts (the last may be shorter), each with the disk rows of
/// its tallest available card.
pub open spec fn rows_from(keys: Seq<(Status, nat)>, start: int, columns: nat) -> Seq<RowLayoutInfo>
    decreases keys.len() - start,
{
    if columns == 0 || start < 0 || start >= keys.len() {
        Seq::empty()
    } else if start + columns >= keys.len() {
        seq![row_from(keys, start, columns)]
    } else {
        seq![row_from(keys, start, columns)] + rows_from(keys, start + columns, columns)
    }
}

/// The disk rows a card shows: its disk count, at most `MAX_DISK_ROWS`.
pub open spec fn shown_disk_count(h: HostLayout) -> nat {
    if h.mounts@.len() < MAX_DISK_ROWS {
        h.mounts@.len()
    } else {
        MAX_DISK_ROWS as nat
    }
}

proof fn lemma_max_disk_rows_is_max(hs: Seq<(Status, nat)>)
    ensures
        forall|k: int|
            0 <= k < hs.len() && hs[k].0 != Status::Unavailable ==> max_disk_rows(hs) >= capped_disks(
                #[trigger] hs[k].1,
            ),
        max_disk_rows(hs) == 0 || exists|k: int|
            0 <= k < hs.len() && hs[k].0 != Status::Unavailable && max_disk_rows(hs) == capped_disks(
                #[trigger] hs[k].1,
            ),
    decreases hs.len(),
{
    if hs.len() > 0 {
        let t = hs.drop_last();
        lemma_max_disk_rows_is_max(t);
        assert forall|k: int|
            0 <= k < hs.len() && hs[k].0 != Status::Unavailable implies max_disk_rows(hs) >= capped_disks(
                #[trigger] hs[k].1,
            ) by {
            if k < t.len() {
                assert(t[k] == hs[k]);
            }
        }
        if max_disk_rows(hs) != 0 {
            if max_disk_rows(hs) == max_disk_rows(t) {
                let k = choose|k: int|
                    0 <= k < t.len() && t[k].0 != Status::Unavailable && max_disk_rows(t) == capped_disks(
                        #[trigger] t[k].1,
                    );
                assert(hs[k] == t[k]);
            } else {
                assert(hs[hs.len() - 1].0 != Status::Unavailable);
            }
        }
    }
}

proof fn lemma_rows_from_are_rows(keys: Seq<(Status, nat)>, start: int, columns: nat)
    requires
        0 <= start,
    ensures
        forall|i: int|
            0 <= i < rows_from(keys, start, columns).len() ==> exists|s: int|
                start <= s < keys.len() && #[trigger] rows_from(keys, start, columns)[i] == row_from(
                    keys,
                    s,
                    columns,
                ),
    decreases keys.len() - start,
{
    let r = rows_from(keys, start, columns);
    if columns == 0 || start >= keys.len() {
    } else if start + columns >= keys.len() {
        assert forall|i: int| 0 <= i < r.len() implies exists|s: int|
            start <= s < keys.len() && #[trigger] r[i] == row_from(keys, s, columns) by {
            assert(r[i] == row_from(keys, start, columns));
        }
    } else {
        lemma_rows_from_are_rows(keys, start + columns, columns);
        let rest = rows_from(keys, start + columns, columns);
        assert forall|i: int| 0 <= i < r.len() implies exists|s: int|
            start <= s < keys.len() && #[trigger] r[i] == row_from(keys, s, columns) by {
            if i == 0 {
                assert(r[0] == row_from(keys, start, columns));
            } else {
                assert(r[i] == rest[i - 1]);
                let s = choose|s: int| start + columns <= s < keys.len() && rest[i - 1] == row_from(keys, s, columns);
            }
        }
    }
}

/// Each row of the grid is sized for its tallest available card: its disk
/// rows are at least the shown disk count of every card in it that is not
/// unavailable, and are that count for one of them (or 0 when none has
/// disks or all are unavailable). Each row holds hosts `start..end`, at most
/// `columns` of them.
pub proof fn lemma_rows_sized_for_tallest_card(hosts: Seq<HostLayout>, columns: nat)
    requires
        columns > 0,
        hosts.len() <= usize::MAX,
    ensures
        forall|i: int|
            #![trigger rows_from(layout_keys(hosts), 0, columns)[i]]
            0 <= i < rows_from(layout_keys(hosts), 0, columns).len() ==> {
                let r = rows_from(layout_keys(hosts), 0, columns)[i];
                &&& r.start < r.end <= hosts.len()
                &&& r.end - r.start <= columns
                &&& forall|j: int|
                    r.start <= j < r.end && hosts[j].status != Status::Unavailable ==> r.disk_rows
                        >= #[trigger] shown_disk_count(hosts[j])
                &&& (r.disk_rows == 0 || exists|j: int|
                    r.start <= j < r.end && hosts[j].status != Status::Unavailable && r.disk_rows
                        == #[trigger] shown_disk_count(hosts[j]))
            },
{
    let keys = layout_keys(hosts);
    lemma_rows_from_are_rows(keys, 0, columns);
    let rs = rows_from(keys, 0, columns);
    assert forall|i: int| #![trigger rs[i]] 0 <= i < rs.len() implies {
        let r = rs[i];
        &&& r.start < r.end <= hosts.len()
        &&& r.end - r.start <= columns
        &&& forall|j: int|
            r.start <= j < r.end && hosts[j].status != Status::Unavailable ==> r.disk_rows
                >= #[trigger] shown_disk_count(hosts[j])
        &&& (r.disk_rows == 0 || exists|j: int|
            r.start <= j < r.end && hosts[j].status != Status::Unavailable && r.disk_rows
                == #[trigger] shown_disk_count(hosts[j]))
    } by {
        let s = choose|s: int| 0 <= s < keys.len() && rs[i] == row_from(keys, s, columns);
        let e = if s + columns <= keys.len() { s + columns } else { keys.len() as int };
        let sub = keys.subrange(s, e);
        lemma_max_disk_rows_is_max(sub);
        lemma_max_at_most(sub);
        let r = rs[i];
        lemma_max_at_most(sub);
        assert(r.start == s && r.end == e);
        assert(r.disk_rows == max_disk_rows(sub));
        assert forall|j: int| r.start <= j < r.end && hosts[j].status != Status::Unavailable implies r.disk_rows
            >= #[trigger] shown_disk_count(hosts[j]) by {
            assert(sub[j - s] == keys[j]);
            assert(keys[j] == (hosts[j].status, hosts[j].mounts@.len()));
            assert(0 <= j - s < sub.len() && sub[j - s].0 != Status::Unavailable);
            assert(max_disk_rows(sub) >= capped_disks(sub[j - s].1));
            assert(shown_disk_count(hosts[j]) == capped_disks(hosts[j].mounts@.len()));
        }
        if r.disk_rows != 0 {
            let k = choose|k: int|
                0 <= k < sub.len() && sub[k].0 != Status::Unavailable && max_disk_rows(sub) == capped_disks(
                    #[trigger] sub[k].1,
                );
            assert(sub[k] == keys[s + k]);
            assert(keys[s + k] == (hosts[s + k].status, hosts[s + k].mounts@.len()));
            assert(r.disk_rows == shown_disk_count(hosts[s + k]));
        }
    }
}

proof fn lemma_max_at_most(hs: Seq<(Status, nat)>)
    ensures
        max_disk_rows(hs) <= MAX_DISK_ROWS,
    decreases hs.len(),
{
    if hs.len() > 0 {
        lemma_max_at_most(hs.drop_last());
    }
}

pub fn row_layout_infos(hosts: &Vec<HostLayout>, columns: usize) -> (r: Vec<RowLayoutInfo>)
    requires
        columns > 0,
    ensures
        r@ == rows_from(layout_keys(hosts@), 0, columns as nat),
        forall|i: int|
            0 <= i < r@.len() ==> forall|j: int|
                (#[trigger] r@[i]).start <= j < r@[i].end && hosts@[j].status != Status::Unavailable
                    ==> r@[i].disk_rows >= #[trigger] shown_disk_count(hosts@[j]),
        forall|i: int|
            0 <= i < r@.len() ==> ((#[trigger] r@[i]).disk_rows == 0 || exists|j: int|
                r@[i].start <= j < r@[i].end && hosts@[j].status != Status::Unavailable && r@[i].disk_rows
                    == #[trigger] shown_disk_count(hosts@[j])),
{
    let ghost keys = layout_keys(hosts@);
    let n = hosts.len();
    proof {
        lemma_rows_sized_for_tallest_card(hosts@, columns as nat);
    }
    let mut out: Vec<RowLayoutInfo> = Vec::new();
    let mut start: usize = 0;
    assert(out@ + rows_from(keys, 0, columns as nat) =~= rows_from(keys, 0, columns as nat));
    while start < n
        invariant
            start <= n,
            n == hosts.len(),
            keys == layout_keys(hosts@),
            keys.len() == n,
            columns > 0,
            out@ + rows_from(keys, start as int, columns as nat) == rows_from(keys, 0, columns as nat),
        decreases n - start,
    {
        let end: usize = if columns <= n - start {
            start + columns
        } else {
            n
        };
        let mut disk_rows: usize = 0;
        let mut j: usize = start;
        assert(keys.subrange(start as int, start as int) =~= Seq::<(Status, nat)>::empty());
        while j < end
            invariant
                start <= j <= end <= n,
                n == hosts.len(),
                keys == layout_keys(hosts@),
                disk_rows == max_disk_rows(keys.subrange(start as int, j as int)),
                disk_rows <= MAX_DISK_ROWS,
            decreases end - j,
        {
            assert(keys.subrange(start as int, j + 1).drop_last() =~= keys.subrange(start as int, j as int));
            assert(keys.subrange(start as int, j + 1).last() == keys[j as int]);
            assert(keys[j as int] == (hosts@[j as int].status, hosts@[j as int].mounts@.len()));
            let count = hosts[j].mounts.len();
            let capped = if count < MAX_DISK_ROWS {
                count
            } else {
                MAX_DISK_ROWS
            };
            if hosts[j].status != Status::Unavailable && capped > disk_rows {
                disk_rows = capped;
            }
            j = j + 1;
        }
        let ghost rest = rows_from(keys, start + columns, columns as nat);
        assert(rows_from(keys, start as int, columns as nat) == seq![row_from(keys, start as int, columns as nat)] + rest);
        assert(row_from(keys, start as int, columns as nat) == (RowLayoutInfo { start, end, disk_rows }));
        let ghost before = out@;
        out.push(RowLayoutInfo { start, end, disk_rows });
        if end < n {
            assert(out@ + rows_from(keys, end as int, columns as nat) =~= before + (seq![row_from(keys, start as int, columns as nat)] + rest));
        } else {
            assert(rest =~= Seq::<RowLayoutInfo>::empty());
            assert(rows_from(keys, end as int, columns as nat) =~= Seq::<RowLayoutInfo>::empty());
            assert(out@ + rows_from(keys, end as int, columns as nat) =~= before + (seq![row_from(keys, start as int, columns as nat)] + rest));
        }
        start = end;
    }
    assert(rows_from(keys, start as int, columns as nat) =~= Seq::<RowLayoutInfo>::empty());
    assert(out@ =~= out@ + rows_from(keys, start as int, columns as nat));
    out
}

/// The height a row wants: borders, the fixed rows and its disk rows.
pub open spec fn preferred_height(disk_rows: nat) -> nat {
    (CARD_BORDER_ROWS + CARD_FIXED_CONTENT_ROWS + capped_disks(disk_rows)) as nat
}

pub fn preferred_row_height(disk_rows: usize) -> (r: u16)
    ensures
        r == preferred_height(disk_rows as nat),
        8 <= r <= 16,
{
    let d: u16 = if disk_rows < MAX_DISK_ROWS {
        disk_rows as u16
    } else {
        MAX_DISK_ROWS as u16
    };
    CARD_BORDER_ROWS + (CARD_FIXED_CONTENT_ROWS as u16) + d
}

/// The smallest height a row is shrunk to: borders and fixed rows.
pub const MIN_ROW_HEIGHT: u16 = 8;

/// The sum of the heights.
pub open spec fn height_sum(h: Seq<u16>) -> nat
    decreases h.len(),
{
    if h.len() == 0 {
        0
    } else {
        (height_sum(h.drop_last()) + h.last()) as nat
    }
}

proof fn lemma_sum_update(h: Seq<u16>, i: int, v: u16)
    requires
        0 <= i < h.len(),
    ensures
        height_sum(h.update(i, v)) == height_sum(h) - h[i] + v,
    decreases h.len(),
{
    if i < h.len() - 1 {
        assert(h.update(i, v).drop_last() =~= h.drop_last().update(i, v));
        lemma_sum_update(h.drop_last(), i, v);
    } else {
        assert(h.update(i, v).drop_last() =~= h.drop_last());
    }
}

proof fn lemma_sum_bound(h: Seq<u16>, i: int)
    requires
        0 <= i < h.len(),
    ensures
        h[i] <= height_sum(h),
    decreases h.len(),
{
    if i < h.len() - 1 {
        lemma_sum_bound(h.drop_last(), i);
    }
}

/// Extra rows handed out one at a time, round robin from the first row:
/// each row gets `extra / n` and the first `extra % n` rows one more.
pub open spec fn distributed(h: Seq<u16>, extra: nat) -> Seq<u16> {
    Seq::new(
        h.len(),
        |i: int|
            (h[i] + extra / h.len() + if i < extra % h.len() {
                1int
            } else {
                0int
            }) as u16,
    )
}

proof fn lemma_round_robin_step(k: int, n: int)
    requires
        n > 0,
        k >= 0,
    ensures
        k % n + 1 < n ==> (k + 1) % n == k % n + 1 && (k + 1) / n == k / n,
        k % n + 1 == n ==> (k + 1) % n == 0 && (k + 1) / n == k / n + 1,
{
    vstd::arithmetic::div_mod::lemma_fundamental_div_mod(k, n);
    vstd::arithmetic::div_mod::lemma_fundamental_div_mod(k + 1, n);
    vstd::arithmetic::div_mod::lemma_mod_bound(k, n);
    vstd::arithmetic::div_mod::lemma_mod_bound(k + 1, n);
    if k % n + 1 < n {
        assert((k / n) * n == n * (k / n)) by (nonlinear_arith);
        vstd::arithmetic::div_mod::lemma_fundamental_div_mod_converse(k + 1, n, k / n, k % n + 1);
    } else if k % n + 1 == n {
        assert((k / n + 1) * n == n * (k / n) + n) by (nonlinear_arith);
        vstd::arithmetic::div_mod::lemma_fundamental_div_mod_converse(k + 1, n, k / n + 1, 0);
    }
}

/// Hands `extra` rows out round robin (see `distributed`).
pub fn distribute_extra_height(heights: &mut Vec<u16>, extra: u16)
    requires
        old(heights)@.len() > 0,
        height_sum(old(heights)@) + extra <= u16::MAX,
    ensures
        final(heights)@ == distributed(old(heights)@, extra as nat),
        height_sum(final(heights)@) == height_sum(old(heights)@) + extra,
{
    let ghost h0 = heights@;
    let n = heights.len();
    let mut left = extra;
    let mut index: usize = 0;
    let ghost mut k: int = 0;
    while left > 0
        invariant
            n == heights.len() == h0.len(),
            n > 0,
            k + left == extra,
            0 <= k,
            index == k % (n as int),
            forall|i: int| 0 <= i < n ==> #[trigger] heights@[i] == h0[i] + k / (n as int) + if i < k % (n as int) {
                1int
            } else {
                0int
            },
            height_sum(heights@) == height_sum(h0) + k,
            height_sum(h0) + extra <= u16::MAX,
        decreases left,
    {
        proof {
            lemma_sum_bound(heights@, index as int);
            lemma_sum_update(heights@, index as int, (heights@[index as int] + 1) as u16);
            lemma_round_robin_step(k, n as int);
            vstd::arithmetic::div_mod::lemma_mod_bound(k, n as int);
        }
        let v = heights[index];
        heights.set(index, v + 1);
        left = left - 1;
        index = if index + 1 < n {
            index + 1
        } else {
            0
        };
        proof {
            k = k + 1;
        }
    }
    assert(heights@ =~= distributed(h0, extra as nat));
}

/// The last index among the tallest rows that are above the minimum.
pub open spec fn tallest_above_min(h: Seq<u16>) -> Option<int>
    decreases h.len(),
{
    if h.len() == 0 {
        None
    } else {
        let r = tallest_above_min(h.drop_last());
        let i = h.len() - 1;
        if h[i] > MIN_ROW_HEIGHT {
            match r {
                Some(j) => if h[i] >= h[j] {
                    Some(i)
                } else {
                    Some(j)
                },
                None => Some(i),
            }
        } else {
            r
        }
    }
}

proof fn lemma_tallest_facts(h: Seq<u16>)
    ensures
        match tallest_above_min(h) {
            Some(i) => 0 <= i < h.len() && h[i] > MIN_ROW_HEIGHT && forall|j: int|
                0 <= j < h.len() && h[j] > MIN_ROW_HEIGHT ==> #[trigger] h[j] <= h[i],
            None => forall|j: int| 0 <= j < h.len() ==> #[trigger] h[j] <= MIN_ROW_HEIGHT,
        },
    decreases h.len(),
{
    if h.len() > 0 {
        lemma_tallest_facts(h.drop_last());
        assert forall|j: int| 0 <= j < h.len() - 1 implies h.drop_last()[j] == #[trigger] h[j] by {}
    }
}

/// Rows shrunk one row at a time, always the (last) tallest above the
/// minimum, until `excess` rows are taken or none is above the minimum.
pub open spec fn shrunk(h: Seq<u16>, excess: nat) -> Seq<u16>
    decreases excess,
{
    if excess == 0 {
        h
    } else {
        match tallest_above_min(h) {
            None => h,
            Some(i) => if 0 <= i < h.len() {
                shrunk(h.update(i, (h[i] - 1) as u16), (excess - 1) as nat)
            } else {
                h
            },
        }
    }
}

proof fn lemma_shrunk_len(h: Seq<u16>, excess: nat)
    ensures
        shrunk(h, excess).len() == h.len(),
    decreases excess,
{
    if excess > 0 {
        match tallest_above_min(h) {
            None => {},
            Some(i) => if 0 <= i < h.len() {
                lemma_shrunk_len(h.update(i, (h[i] - 1) as u16), (excess - 1) as nat);
            },
        }
    }
}

fn tallest_index(h: &Vec<u16>) -> (r: Option<usize>)
    ensures
        match r {
            Some(i) => tallest_above_min(h@) == Some(i as int) && i < h@.len(),
            None => tallest_above_min(h@) is None,
        },
{
    let mut best: Option<usize> = None;
    let mut i: usize = 0;
    assert(h@.take(0) =~= Seq::<u16>::empty());
    while i < h.len()
        invariant
            i <= h.len(),
            match best {
                Some(j) => tallest_above_min(h@.take(i as int)) == Some(j as int) && j < i,
                None => tallest_above_min(h@.take(i as int)) is None,
            },
        decreases h.len() - i,
    {
        assert(h@.take(i + 1).drop_last() =~= h@.take(i as int));
        assert(h@.take(i + 1)[i as int] == h@[i as int]);
        let v = h[i];
        if v > MIN_ROW_HEIGHT {
            match best {
                Some(j) => {
                    assert(h@.take(i + 1)[j as int] == h@[j as int]);
                    if v >= h[j] {
                        best = Some(i);
                    }
                },
                None => {
                    best = Some(i);
                },
            }
        }
        i = i + 1;
    }
    assert(h@.take(h.len() as int) =~= h@);
    best
}

/// Takes away `excess` rows (see `shrunk`).
pub fn shrink_row_heights(heights: &mut Vec<u16>, excess: u16)
    ensures
        final(heights)@ == shrunk(old(heights)@, excess as nat),
{
    let mut left = excess;
    while left > 0
        invariant
            shrunk(heights@, left as nat) == shrunk(old(heights)@, excess as nat),
        ensures
            heights@ == shrunk(old(heights)@, excess as nat),
        decreases left,
    {
        match tallest_index(heights) {
            None => {
                break;
            },
            Some(i) => {
                proof {
                    lemma_tallest_facts(heights@);
                    assert(tallest_above_min(heights@) == Some(i as int));
                }
                let v = heights[i];
                heights.set(i, v - 1);
                left = left - 1;
            },
        }
    }
}

pub open spec fn preferred_heights(rows: Seq<RowLayoutInfo>) -> Seq<u16> {
    rows.map_values(|r: RowLayoutInfo| preferred_height(r.disk_rows as nat) as u16)
}

/// Row heights that fill `total`: each row's preferred height, extra rows
/// handed out round robin, or rows taken from the tallest ones down to the
/// minimum; the last row takes up any rows still missing.
pub open spec fn row_heights_spec(total: u16, rows: Seq<RowLayoutInfo>) -> Seq<u16> {
    if rows.len() == 0 {
        Seq::empty()
    } else {
        let pref = preferred_heights(rows);
        let pt = height_sum(pref);
        let h = if pt < total {
            distributed(pref, (total - pt) as nat)
        } else if pt > total {
            shrunk(pref, (pt - total) as nat)
        } else {
            pref
        };
        let used = height_sum(h);
        let last = h.len() - 1;
        let add: int = if total > used {
            total - used
        } else {
            0
        };
        h.update(last, if h[last] + add > u16::MAX {
            u16::MAX
        } else {
            (h[last] + add) as u16
        })
    }
}

proof fn lemma_pref_bounds(rows: Seq<RowLayoutInfo>)
    ensures
        preferred_heights(rows).len() == rows.len(),
        height_sum(preferred_heights(rows)) <= 16 * rows.len(),
        forall|i: int| 0 <= i < rows.len() ==> 8 <= #[trigger] preferred_heights(rows)[i] <= 16,
    decreases rows.len(),
{
    if rows.len() > 0 {
        lemma_pref_bounds(rows.drop_last());
        assert(preferred_heights(rows).drop_last() =~= preferred_heights(rows.drop_last()));
    }
}

/// The heights of the grid's rows (see `row_heights_spec`).
pub fn disk_priority_row_heights(total_height: u16, row_infos: &Vec<RowLayoutInfo>) -> (r: Vec<u16>)
    requires
        16 * row_infos@.len() <= u16::MAX,
    ensures
        r@ == row_heights_spec(total_height, row_infos@),
{
    if row_infos.len() == 0 {
        return Vec::new();
    }
    let ghost pref = preferred_heights(row_infos@);
    let mut heights: Vec<u16> = Vec::new();
    let mut i: usize = 0;
    proof {
        lemma_pref_bounds(row_infos@);
    }
    while i < row_infos.len()
        invariant
            i <= row_infos.len(),
            pref == preferred_heights(row_infos@),
            heights@ == pref.take(i as int),
        decreases row_infos.len() - i,
    {
        heights.push(preferred_row_height(row_infos[i].disk_rows));
        i = i + 1;
        assert(heights@ =~= pref.take(i as int));
    }
    assert(pref.take(row_infos.len() as int) =~= pref);
    let preferred_total = sum_heights(&heights);
    if preferred_total < total_height as u64 {
        distribute_extra_height(&mut heights, total_height - preferred_total as u16);
    } else if preferred_total > total_height as u64 {
        proof {
            lemma_shrunk_len(heights@, (preferred_total - total_height) as nat);
        }
        shrink_row_heights(&mut heights, (preferred_total - total_height as u64) as u16);
    }
    let used = sum_heights(&heights);
    let last = heights.len() - 1;
    let add: u64 = if (total_height as u64) > used {
        total_height as u64 - used
    } else {
        0
    };
    let v = heights[last] as u64 + add;
    heights.set(last, if v > u16::MAX as u64 {
        u16::MAX
    } else {
        v as u16
    });
    heights
}

fn sum_heights(h: &Vec<u16>) -> (r: u64)
    requires
        h@.len() <= 65536,
    ensures
        r == height_sum(h@),
{
    let mut s: u64 = 0;
    let mut i: usize = 0;
    assert(h@.take(0) =~= Seq::<u16>::empty());
    while i < h.len()
        invariant
            i <= h.len() <= 65536,
            s == height_sum(h@.take(i as int)),
            s <= i * 65535,
        decreases h.len() - i,
    {
        assert(h@.take(i + 1).drop_last() =~= h@.take(i as int));
        s = s + h[i] as u64;
        i = i + 1;
    }
    assert(h@.take(h.len() as int) =~= h@);
    s
}

/// A row's share of `e` rows handed out round robin is at most `e`.
proof fn lemma_bounded_share(e: int, n: int, i: int)
    requires
        n > 0,
        e >= 0,
        i >= 0,
    ensures
        e / n + (if i < e % n {
            1int
        } else {
            0int
        }) <= e,
        e / n >= 0,
{
    vstd::arithmetic::div_mod::lemma_fundamental_div_mod(e, n);
    vstd::arithmetic::div_mod::lemma_mod_bound(e, n);
    vstd::arithmetic::div_mod::lemma_div_pos_is_pos(e, n);
    assert(n * (e / n) >= e / n) by (nonlinear_arith)
        requires
            n > 0,
            e / n >= 0,
    ;
}

proof fn lemma_distributed_sum(h: Seq<u16>, e: nat)
    requires
        h.len() > 0,
        height_sum(h) + e <= u16::MAX,
    ensures
        height_sum(distributed(h, e)) == height_sum(h) + e,
        forall|i: int| 0 <= i < h.len() ==> #[trigger] distributed(h, e)[i] >= h[i],
    decreases e,
{
    let n = h.len() as int;
    if e == 0 {
        assert(0int / n == 0 && 0int % n == 0) by (nonlinear_arith)
            requires
                n > 0,
        ;
        assert(distributed(h, 0) =~= h);
    } else {
        let k = (e - 1) as nat;
        lemma_distributed_sum(h, k);
        let d = distributed(h, k);
        let idx = (k as int) % n;
        lemma_round_robin_step(k as int, n);
        vstd::arithmetic::div_mod::lemma_mod_bound(k as int, n);
        lemma_sum_bound(d, idx);
        lemma_sum_update(d, idx, (d[idx] + 1) as u16);
        assert forall|i: int| 0 <= i < n implies #[trigger] distributed(h, e)[i] == d.update(idx, (d[idx] + 1) as u16)[i] by {
            lemma_sum_bound(h, i);
            lemma_bounded_share(e as int, n, i);
            lemma_bounded_share(k as int, n, i);
            lemma_bounded_share(k as int, n, idx);
        }
        assert(distributed(h, e) =~= d.update(idx, (d[idx] + 1) as u16));
    }
}

proof fn lemma_all_min_sum(h: Seq<u16>)
    requires
        forall|i: int| 0 <= i < h.len() ==> #[trigger] h[i] == MIN_ROW_HEIGHT,
    ensures
        height_sum(h) == MIN_ROW_HEIGHT * h.len(),
    decreases h.len(),
{
    if h.len() > 0 {
        lemma_all_min_sum(h.drop_last());
    }
}

proof fn lemma_shrunk_sum(h: Seq<u16>, e: nat)
    requires
        forall|i: int| 0 <= i < h.len() ==> #[trigger] h[i] >= MIN_ROW_HEIGHT,
    ensures
        height_sum(shrunk(h, e)) == if height_sum(h) >= e + MIN_ROW_HEIGHT * h.len() {
            height_sum(h) - e
        } else {
            MIN_ROW_HEIGHT * h.len()
        },
        height_sum(shrunk(h, e)) >= MIN_ROW_HEIGHT * h.len(),
    decreases e,
{
    lemma_tallest_facts(h);
    match tallest_above_min(h) {
        None => {
            assert forall|i: int| 0 <= i < h.len() implies #[trigger] h[i] == MIN_ROW_HEIGHT by {}
            lemma_all_min_sum(h);
        },
        Some(i) => {
            if e > 0 {
                let h2 = h.update(i, (h[i] - 1) as u16);
                lemma_sum_update(h, i, (h[i] - 1) as u16);
                lemma_shrunk_sum(h2, (e - 1) as nat);
                lemma_sum_of_above_min(h, i);
            } else {
                lemma_sum_of_above_min(h, i);
            }
        },
    }
}

/// One row above the minimum puts the sum above the minimum total.
proof fn lemma_sum_of_above_min(h: Seq<u16>, i: int)
    requires
        0 <= i < h.len(),
        h[i] > MIN_ROW_HEIGHT,
        forall|j: int| 0 <= j < h.len() ==> #[trigger] h[j] >= MIN_ROW_HEIGHT,
    ensures
        height_sum(h) > MIN_ROW_HEIGHT * h.len(),
    decreases h.len(),
{
    if i < h.len() - 1 {
        lemma_sum_of_above_min(h.drop_last(), i);
    } else {
        lemma_sum_at_least_min(h.drop_last());
    }
}

proof fn lemma_sum_at_least_min(h: Seq<u16>)
    requires
        forall|j: int| 0 <= j < h.len() ==> #[trigger] h[j] >= MIN_ROW_HEIGHT,
    ensures
        height_sum(h) >= MIN_ROW_HEIGHT * h.len(),
    decreases h.len(),
{
    if h.len() > 0 {
        lemma_sum_at_least_min(h.drop_last());
    }
}

/// The rows fill the height exactly whenever it allows every row its
/// minimum: the row heights add up to the total.
pub proof fn lemma_row_heights_fill_total(total: u16, rows: Seq<RowLayoutInfo>)
    requires
        rows.len() > 0,
        16 * rows.len() <= u16::MAX,
        total >= MIN_ROW_HEIGHT * rows.len(),
    ensures
        height_sum(row_heights_spec(total, rows)) == total,
        row_heights_spec(total, rows).len() == rows.len(),
{
    let pref = preferred_heights(rows);
    lemma_pref_bounds(rows);
    let pt = height_sum(pref);
    let h = if pt < total {
        distributed(pref, (total - pt) as nat)
    } else if pt > total {
        shrunk(pref, (pt - total) as nat)
    } else {
        pref
    };
    if pt < total {
        lemma_distributed_sum(pref, (total - pt) as nat);
    } else if pt > total {
        lemma_shrunk_sum(pref, (pt - total) as nat);
        lemma_shrunk_len(pref, (pt - total) as nat);
    }
    assert(height_sum(h) == total);
    assert(h.len() == rows.len());
    let last = h.len() - 1;
    assert(row_heights_spec(total, rows) =~= h.update(last, h[last]));
    assert(h.update(last, h[last]) =~= h);
}

/// When the height allows every row its preferred height, no row gets
/// less: disk rows are placed before extra graph space is handed out.
pub proof fn lemma_rows_keep_preferred_height(total: u16, rows: Seq<RowLayoutInfo>)
    requires
        rows.len() > 0,
        16 * rows.len() <= u16::MAX,
        total >= height_sum(preferred_heights(rows)),
    ensures
        forall|i: int| 0 <= i < rows.len() ==> #[trigger] row_heights_spec(total, rows)[i] >= preferred_height(
            rows[i].disk_rows as nat,
        ),
{
    let pref = preferred_heights(rows);
    lemma_pref_bounds(rows);
    let pt = height_sum(pref);
    if pt < total {
        lemma_distributed_sum(pref, (total - pt) as nat);
    }
    assert(total >= MIN_ROW_HEIGHT * rows.len()) by {
        lemma_sum_at_least_min(pref);
    }
    lemma_row_heights_fill_total(total, rows);
    let h = if pt < total {
        distributed(pref, (total - pt) as nat)
    } else {
        pref
    };
    let last = h.len() - 1;
    assert(row_heights_spec(total, rows) =~= h) by {
        assert(height_sum(h) == total);
    }
    assert forall|i: int| 0 <= i < rows.len() implies #[trigger] row_heights_spec(total, rows)[i]
        >= preferred_height(rows[i].disk_rows as nat) by {
        assert(pref[i] == preferred_height(rows[i].disk_rows as nat) as u16);
    }
}

/// The rows inside a card: graph rows for CPU, RAM and network and the
/// disk rows.
#[derive(Clone, Copy, Debug, PartialEq, Eq, Structural)]
pub struct CardContentLayout {
    pub cpu_graph_rows: usize,
    pub ram_graph_rows: usize,
    pub net_graph_rows: usize,
    pub disk_rows: usize,
}

/// Disk rows come first (up to the row's count and the cap, as far as the
/// fixed rows leave room); the remaining rows are graphs, split in three
/// with CPU and then RAM taking the remainder.
pub open spec fn card_layout_spec(inner_height: u16, row_disk_count: usize) -> CardContentLayout {
    let height = inner_height as int;
    let room = if height > CARD_FIXED_CONTENT_ROWS {
        height - CARD_FIXED_CONTENT_ROWS
    } else {
        0
    };
    let capped = if row_disk_count < MAX_DISK_ROWS {
        row_disk_count as int
    } else {
        MAX_DISK_ROWS as int
    };
    let disk = if capped < room {
        capped
    } else {
        room
    };
    let graph = if height > CARD_FIXED_CONTENT_ROWS + disk {
        height - (CARD_FIXED_CONTENT_ROWS + disk)
    } else {
        0
    };
    CardContentLayout {
        cpu_graph_rows: (graph / 3 + if graph % 3 > 0 {
            1int
        } else {
            0
        }) as usize,
        ram_graph_rows: (graph / 3 + if graph % 3 > 1 {
            1int
        } else {
            0
        }) as usize,
        net_graph_rows: (graph / 3) as usize,
        disk_rows: disk as usize,
    }
}

pub fn card_content_layout(inner_height: u16, row_disk_count: usize) -> (r: CardContentLayout)
    ensures
        r == card_layout_spec(inner_height, row_disk_count),
        inner_height >= CARD_FIXED_CONTENT_ROWS ==> CARD_FIXED_CONTENT_ROWS + r.cpu_graph_rows
            + r.ram_graph_rows + r.net_graph_rows + r.disk_rows == inner_height,
        r.net_graph_rows <= r.ram_graph_rows <= r.cpu_graph_rows <= r.net_graph_rows + 1,
{
    let height = inner_height as usize;
    let room = if height > CARD_FIXED_CONTENT_ROWS {
        height - CARD_FIXED_CONTENT_ROWS
    } else {
        0
    };
    let capped = if row_disk_count < MAX_DISK_ROWS {
        row_disk_count
    } else {
        MAX_DISK_ROWS
    };
    let disk_rows = if capped < room {
        capped
    } else {
        room
    };
    let graph_rows = if height > CARD_FIXED_CONTENT_ROWS + disk_rows {
        height - (CARD_FIXED_CONTENT_ROWS + disk_rows)
    } else {
        0
    };
    let base = graph_rows / 3;
    let extra = graph_rows % 3;
    CardContentLayout {
        cpu_graph_rows: base + if extra > 0 {
            1
        } else {
            0
        },
        ram_graph_rows: base + if extra > 1 {
            1
        } else {
            0
        },
        net_graph_rows: base,
        disk_rows,
    }
}

/// Graphs are at least 18 columns wide.
pub fn history_graph_width(inner_width: u16) -> (r: usize)
    ensures
        r == if inner_width < 18 {
            18
        } else {
            inner_width as usize
        },
{
    if inner_width < 18 {
        18
    } else {
        inner_width as usize
    }
}

} // verus!
