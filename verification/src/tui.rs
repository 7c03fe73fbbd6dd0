//! The dashboard loop's decisions: keys to actions, the refresh interval
//! steps, when to poll and when to refresh, and which optional hosts to skip
//! for a while after they failed.
use vstd::prelude::*;
use crate::cli::Mode;
use crate::text::{chars_eq, chars_of};

verus! {

/// A key as the terminal reports it.
#[derive(Clone, Copy, Debug, PartialEq, Eq, Structural)]
pub enum KeyCode {
    Char(char),
    Esc,
    Enter,
    Backspace,
    Up,
    Down,
    Other,
}

/// A key event: the key, whether Control was held, and whether it is a
/// press (rather than a release or a repeat).
#[derive(Clone, Copy, Debug, PartialEq, Eq, Structural)]
pub struct KeyInput {
    pub code: KeyCode,
    pub ctrl: bool,
    pub press: bool,
}

#[derive(Clone, Copy, Debug, PartialEq, Eq, Structural)]
pub enum TuiAction {
    Exit,
    AdjustRefresh(i64),
    Ignore,
}

#[derive(Clone, Copy, Debug, PartialEq, Eq, Structural)]
pub enum TuiControl {
    Continue,
    Exit,
}

/// `q`, Esc and Control-C leave; `+` and `=` lengthen the refresh interval
/// by 100 ms, `-` shortens it; anything else, and any key that is not a
/// press, does nothing.
pub open spec fn key_action(key: KeyInput) -> TuiAction {
    if !key.press {
        TuiAction::Ignore
    } else {
        match key.code {
            KeyCode::Char(c) => if c == 'q' || (c == 'c' && key.ctrl) {
                TuiAction::Exit
            } else if c == '+' || c == '=' {
                TuiAction::AdjustRefresh(100)
            } else if c == '-' {
                TuiAction::AdjustRefresh(-100i64)
            } else {
                TuiAction::Ignore
            },
            KeyCode::Esc => TuiAction::Exit,
            _ => TuiAction::Ignore,
        }
    }
}

pub fn action_from_key(key: KeyInput) -> (r: TuiAction)
    ensures
        r == key_action(key),
{
    if !key.press {
        return TuiAction::Ignore;
    }
    match key.code {
        KeyCode::Char(c) => if c == 'q' || (c == 'c' && key.ctrl) {
            TuiAction::Exit
        } else if c == '+' || c == '=' {
            TuiAction::AdjustRefresh(100)
        } else if c == '-' {
            TuiAction::AdjustRefresh(-100)
        } else {
            TuiAction::Ignore
        },
        KeyCode::Esc => TuiAction::Exit,
        _ => TuiAction::Ignore,
    }
}

/// The interval after a step of `delta_ms`: the current interval in whole
/// milliseconds (1000 when it does not fit an `i64`) plus the step, kept to
/// 100..=60000.
pub open spec fn adjusted_interval(current_ms: u64, delta_ms: i64) -> u64 {
    let cur: int = if current_ms <= i64::MAX {
        current_ms as int
    } else {
        1000
    };
    let next = cur + delta_ms;
    if next < 100 {
        100
    } else if next > 60_000 {
        60_000
    } else {
        next as u64
    }
}

pub open spec fn step_fits(current_ms: u64, delta_ms: i64) -> bool {
    let cur: int = if current_ms <= i64::MAX {
        current_ms as int
    } else {
        1000
    };
    i64::MIN <= cur + delta_ms <= i64::MAX
}

pub fn adjust_refresh_interval(current_ms: u64, delta_ms: i64) -> (r: u64)
    requires
        step_fits(current_ms, delta_ms),
    ensures
        r == adjusted_interval(current_ms, delta_ms),
        100 <= r <= 60_000,
{
    let cur: i64 = if current_ms <= i64::MAX as u64 {
        current_ms as i64
    } else {
        1000
    };
    let next = cur + delta_ms;
    if next < 100 {
        100
    } else if next > 60_000 {
        60_000
    } else {
        next as u64
    }
}

/// Inside the allowed range, a step up and a step down of the same size
/// give back the interval: `+` then `-` undo each other.
pub proof fn lemma_step_up_then_down_restores(current_ms: u64, step_ms: i64)
    requires
        0 <= step_ms,
        100 <= current_ms,
        current_ms + step_ms <= 60_000,
    ensures
        step_fits(current_ms, step_ms),
        step_fits(adjusted_interval(current_ms, step_ms), (-step_ms) as i64),
        adjusted_interval(adjusted_interval(current_ms, step_ms), (-step_ms) as i64) == current_ms,
{
}

pub const NANOS_PER_MILLI: u128 = 1_000_000;

/// How long the loop waits for a key, in nanoseconds: 50 ms outside live
/// mode and while a refresh runs, nothing when a refresh is forced, else
/// the rest of the interval, at most 50 ms.
pub open spec fn poll_timeout(
    mode: Mode,
    force_refresh: bool,
    refresh_in_flight: bool,
    elapsed_nanos: u128,
    interval_ms: u64,
) -> u128 {
    let fifty: u128 = 50_000_000;
    if mode != Mode::Live {
        fifty
    } else if force_refresh && !refresh_in_flight {
        0
    } else if refresh_in_flight {
        fifty
    } else {
        let interval = interval_ms as int * NANOS_PER_MILLI as int;
        let left: int = if interval > elapsed_nanos {
            interval - elapsed_nanos
        } else {
            0
        };
        if left < fifty {
            left as u128
        } else {
            fifty
        }
    }
}

pub fn refresh_poll_timeout(
    mode: Mode,
    force_refresh: bool,
    refresh_in_flight: bool,
    elapsed_nanos: u128,
    interval_ms: u64,
) -> (r: u128)
    ensures
        r == poll_timeout(mode, force_refresh, refresh_in_flight, elapsed_nanos, interval_ms),
        r <= 50_000_000,
{
    let fifty: u128 = 50 * NANOS_PER_MILLI;
    if mode != Mode::Live {
        return fifty;
    }
    if force_refresh && !refresh_in_flight {
        return 0;
    }
    if refresh_in_flight {
        return fifty;
    }
    let interval: u128 = (interval_ms as u128) * NANOS_PER_MILLI;
    let left: u128 = if interval > elapsed_nanos {
        interval - elapsed_nanos
    } else {
        0
    };
    if left < fifty {
        left
    } else {
        fifty
    }
}

/// The refresh state of the dashboard loop.
#[derive(Clone, Debug, PartialEq, Eq)]
pub struct RefreshState {
    pub refresh_interval_ms: u64,
    pub force_refresh: bool,
    pub refresh_in_flight: bool,
}

impl RefreshState {
    pub fn new(refresh_interval_ms: u64) -> (r: Self)
        ensures
            r.refresh_interval_ms == refresh_interval_ms,
            !r.force_refresh,
            !r.refresh_in_flight,
    {
        RefreshState { refresh_interval_ms, force_refresh: false, refresh_in_flight: false }
    }

    /// The wait for a key (see `poll_timeout`), `elapsed_nanos` after the
    /// last refresh started.
    pub fn refresh_poll_timeout(&self, mode: Mode, elapsed_nanos: u128) -> (r: u128)
        ensures
            r == poll_timeout(
                mode,
                self.force_refresh,
                self.refresh_in_flight,
                elapsed_nanos,
                self.refresh_interval_ms,
            ),
    {
        refresh_poll_timeout(
            mode,
            self.force_refresh,
            self.refresh_in_flight,
            elapsed_nanos,
            self.refresh_interval_ms,
        )
    }

    /// A refresh starts in live mode when none is running and one is forced
    /// or the interval has passed: collections never overlap.
    pub fn should_refresh(&self, mode: Mode, elapsed_nanos: u128) -> (r: bool)
        ensures
            r == (mode == Mode::Live && !self.refresh_in_flight && (self.force_refresh
                || elapsed_nanos >= self.refresh_interval_ms as int * NANOS_PER_MILLI as int)),
    {
        mode == Mode::Live && !self.refresh_in_flight && (self.force_refresh || elapsed_nanos >= (
        self.refresh_interval_ms as u128) * NANOS_PER_MILLI)
    }

    /// A refresh has been started.
    pub fn start_refresh(&mut self)
        ensures
            final(self).refresh_in_flight,
            !final(self).force_refresh,
            final(self).refresh_interval_ms == old(self).refresh_interval_ms,
    {
        self.refresh_in_flight = true;
        self.force_refresh = false;
    }

    /// A refresh has ended, with a new dashboard or without one.
    pub fn finish_refresh(&mut self)
        ensures
            !final(self).refresh_in_flight,
            !final(self).force_refresh,
            final(self).refresh_interval_ms == old(self).refresh_interval_ms,
    {
        self.force_refresh = false;
        self.refresh_in_flight = false;
    }
}

pub open spec fn reduced(s: RefreshState, action: TuiAction) -> (RefreshState, TuiControl) {
    match action {
        TuiAction::Exit => (s, TuiControl::Exit),
        TuiAction::AdjustRefresh(d) => (
            RefreshState {
                refresh_interval_ms: adjusted_interval(s.refresh_interval_ms, d),
                force_refresh: true,
                ..s
            },
            TuiControl::Continue,
        ),
        TuiAction::Ignore => (s, TuiControl::Continue),
    }
}

/// Applies an action: an interval step sets the new interval and forces a
/// refresh; exit and ignored keys change nothing.
pub fn reduce_tui_state(state: &mut RefreshState, action: TuiAction) -> (r: TuiControl)
    requires
        action matches TuiAction::AdjustRefresh(d) ==> step_fits(old(state).refresh_interval_ms, d),
    ensures
        (*final(state), r) == reduced(*old(state), action),
{
    match action {
        TuiAction::Exit => TuiControl::Exit,
        TuiAction::AdjustRefresh(delta_ms) => {
            state.refresh_interval_ms = adjust_refresh_interval(state.refresh_interval_ms, delta_ms);
            state.force_refresh = true;
            TuiControl::Continue
        },
        TuiAction::Ignore => TuiControl::Continue,
    }
}

/// After an optional host fails, it is skipped for this long.
pub const OPTIONAL_RETRY_NANOS: u128 = 30_000_000_000;

/// When each optional host that failed may be collected again, by id, in
/// the order they first failed.
#[derive(Clone, Debug, PartialEq, Eq)]
pub struct RetrySchedule {
    pub entries: Vec<(String, u128)>,
}

pub open spec fn schedule_view(e: Seq<(String, u128)>) -> Seq<(Seq<char>, u128)> {
    e.map_values(|p: (String, u128)| (p.0@, p.1))
}

/// The entries still waiting at `now`, in order.
pub open spec fn waiting(e: Seq<(Seq<char>, u128)>, now: u128) -> Seq<(Seq<char>, u128)>
    decreases e.len(),
{
    if e.len() == 0 {
        Seq::empty()
    } else {
        let w = waiting(e.drop_last(), now);
        if e.last().1 > now {
            w.push(e.last())
        } else {
            w
        }
    }
}

/// The index of the first entry for `id`.
pub open spec fn id_index(e: Seq<(Seq<char>, u128)>, id: Seq<char>) -> Option<nat>
    decreases e.len(),
{
    if e.len() == 0 {
        None
    } else if e[0].0 == id {
        Some(0)
    } else {
        match id_index(e.drop_first(), id) {
            Some(i) => Some(i + 1),
            None => None,
        }
    }
}

proof fn lemma_id_index_at(e: Seq<(Seq<char>, u128)>, id: Seq<char>, i: int)
    requires
        0 <= i <= e.len(),
        forall|j: int| 0 <= j < i ==> #[trigger] e[j].0 != id,
        i < e.len() ==> e[i].0 == id,
    ensures
        id_index(e, id) == if i < e.len() {
            Some(i as nat)
        } else {
            None::<nat>
        },
    decreases i,
{
    if i > 0 {
        let t = e.drop_first();
        assert forall|j: int| 0 <= j < i - 1 implies #[trigger] t[j].0 != id by {
            assert(t[j] == e[j + 1]);
        }
        if i < e.len() {
            assert(t[i - 1] == e[i]);
        }
        lemma_id_index_at(t, id, i - 1);
        assert(e[0].0 != id);
    }
}

/// `e` with `id` due at `at`: its entry updated, or a new one at the end.
pub open spec fn schedule_put(e: Seq<(Seq<char>, u128)>, id: Seq<char>, at: u128) -> Seq<(Seq<char>, u128)> {
    match id_index(e, id) {
        Some(i) => e.update(i as int, (id, at)),
        None => e.push((id, at)),
    }
}

/// `e` with every id of `ids` due at `at`, in order.
pub open spec fn schedule_put_all(e: Seq<(Seq<char>, u128)>, ids: Seq<Seq<char>>, at: u128) -> Seq<(Seq<char>, u128)>
    decreases ids.len(),
{
    if ids.len() == 0 {
        e
    } else {
        schedule_put(schedule_put_all(e, ids.drop_last(), at), ids.last(), at)
    }
}

/// No id appears twice.
pub open spec fn unique_ids(e: Seq<(Seq<char>, u128)>) -> bool {
    forall|i: int, j: int| 0 <= i < j < e.len() ==> #[trigger] e[i].0 != #[trigger] e[j].0
}

proof fn lemma_put_keeps(e: Seq<(Seq<char>, u128)>, id: Seq<char>, at: u128, x: (Seq<char>, u128))
    requires
        e.contains(x),
        x.1 == at,
    ensures
        schedule_put(e, id, at).contains(x),
{
    let j = choose|j: int| 0 <= j < e.len() && e[j] == x;
    match id_index(e, id) {
        Some(i) => {
            lemma_id_index_facts(e, id);
            let f = e.update(i as int, (id, at));
            if i as int == j {
                assert(f[j] == x);
            } else {
                assert(f[j] == e[j]);
            }
        },
        None => {
            let f = e.push((id, at));
            assert(f[j] == e[j]);
        },
    }
}

proof fn lemma_id_index_facts(e: Seq<(Seq<char>, u128)>, id: Seq<char>)
    ensures
        id_index(e, id) matches Some(i) ==> i < e.len() && e[i as int].0 == id,
    decreases e.len(),
{
    if e.len() > 0 && e[0].0 != id {
        lemma_id_index_facts(e.drop_first(), id);
        if let Some(i) = id_index(e.drop_first(), id) {
            assert(e[(i + 1) as int] == e.drop_first()[i as int]);
        }
    }
}

proof fn lemma_put_all_holds(e: Seq<(Seq<char>, u128)>, ids: Seq<Seq<char>>, at: u128, k: int)
    requires
        0 <= k < ids.len(),
    ensures
        schedule_put_all(e, ids, at).contains((ids[k], at)),
    decreases ids.len(),
{
    let rest = ids.drop_last();
    let before = schedule_put_all(e, rest, at);
    if k == ids.len() - 1 {
        lemma_id_index_facts(before, ids.last());
        let f = schedule_put(before, ids.last(), at);
        match id_index(before, ids.last()) {
            Some(i) => assert(f[i as int] == (ids[k], at)),
            None => assert(f[f.len() - 1] == (ids[k], at)),
        }
    } else {
        lemma_put_all_holds(e, rest, at, k);
        assert(rest[k] == ids[k]);
        lemma_put_keeps(before, ids.last(), at, (ids[k], at));
    }
}

proof fn lemma_waiting_keeps(e: Seq<(Seq<char>, u128)>, now: u128, x: (Seq<char>, u128))
    requires
        e.contains(x),
        x.1 > now,
    ensures
        waiting(e, now).contains(x),
    decreases e.len(),
{
    let w = waiting(e.drop_last(), now);
    if e.last() == x {
        assert(waiting(e, now) == w.push(x));
        assert(waiting(e, now)[w.len() as int] == x);
    } else {
        let j = choose|j: int| 0 <= j < e.len() && e[j] == x;
        assert(e.drop_last()[j] == x);
        lemma_waiting_keeps(e.drop_last(), now, x);
        let i = choose|i: int| 0 <= i < w.len() && w[i] == x;
        if e.last().1 > now {
            assert(waiting(e, now)[i] == x);
        }
    }
}

proof fn lemma_waiting_later(e: Seq<(Seq<char>, u128)>, now: u128)
    ensures
        forall|i: int| 0 <= i < waiting(e, now).len() ==> #[trigger] waiting(e, now)[i].1 > now,
    decreases e.len(),
{
    if e.len() > 0 {
        lemma_waiting_later(e.drop_last(), now);
        let w = waiting(e.drop_last(), now);
        if e.last().1 > now {
            assert forall|i: int| 0 <= i < w.push(e.last()).len() implies #[trigger] w.push(e.last())[i].1 > now by {
                if i < w.len() {
                    assert(w.push(e.last())[i] == w[i]);
                }
            }
        }
    }
}

/// Optional hosts that just failed are skipped until their retry time, and
/// a host is skipped only while its retry time is still ahead.
pub proof fn lemma_failed_hosts_wait(e: Seq<(Seq<char>, u128)>, ids: Seq<Seq<char>>, at: u128, now: u128)
    ensures
        now < at ==> forall|k: int|
            0 <= k < ids.len() ==> waiting(schedule_put_all(e, ids, at), now).map_values(
                |p: (Seq<char>, u128)| p.0,
            ).contains(#[trigger] ids[k]),
        forall|i: int|
            0 <= i < waiting(e, now).len() ==> #[trigger] waiting(e, now)[i].1 > now,
{
    lemma_waiting_later(e, now);
    if now < at {
        let s = schedule_put_all(e, ids, at);
        assert forall|k: int| 0 <= k < ids.len() implies waiting(s, now).map_values(
            |p: (Seq<char>, u128)| p.0,
        ).contains(#[trigger] ids[k]) by {
            lemma_put_all_holds(e, ids, at, k);
            lemma_waiting_keeps(s, now, (ids[k], at));
            let w = waiting(s, now);
            let i = choose|i: int| 0 <= i < w.len() && w[i] == (ids[k], at);
            assert(w.map_values(|p: (Seq<char>, u128)| p.0)[i] == ids[k]);
        }
    }
}

impl RetrySchedule {
    pub fn new() -> (r: Self)
        ensures
            schedule_view(r.entries@) == Seq::<(Seq<char>, u128)>::empty(),
    {
        let r = RetrySchedule { entries: Vec::new() };
        assert(schedule_view(r.entries@) =~= Seq::<(Seq<char>, u128)>::empty());
        r
    }

    /// Drops the entries that are due at `now` and returns the ids still
    /// waiting: the optional hosts to skip in this refresh.
    pub fn skipped_optional_ids(&mut self, now: u128) -> (r: Vec<String>)
        ensures
            schedule_view(final(self).entries@) == waiting(schedule_view(old(self).entries@), now),
            r@.map_values(|s: String| s@) == waiting(schedule_view(old(self).entries@), now).map_values(
                |p: (Seq<char>, u128)| p.0,
            ),
    {
        let ghost e = schedule_view(self.entries@);
        let mut kept: Vec<(String, u128)> = Vec::new();
        let mut ids: Vec<String> = Vec::new();
        let mut i: usize = 0;
        assert(e.take(0) =~= Seq::<(Seq<char>, u128)>::empty());
        while i < self.entries.len()
            invariant
                i <= self.entries.len(),
                e == schedule_view(self.entries@),
                schedule_view(kept@) == waiting(e.take(i as int), now),
                ids@.map_values(|s: String| s@) == waiting(e.take(i as int), now).map_values(
                    |p: (Seq<char>, u128)| p.0,
                ),
            decreases self.entries.len() - i,
        {
            let ghost w = waiting(e.take(i as int), now);
            assert(e.take(i + 1).drop_last() =~= e.take(i as int));
            assert(e.take(i + 1).last() == e[i as int]);
            let at = self.entries[i].1;
            if at > now {
                let id = self.entries[i].0.clone();
                let id2 = self.entries[i].0.clone();
                let ghost kb = kept@;
                let ghost ib = ids@;
                kept.push((id, at));
                ids.push(id2);
                assert(schedule_view(kept@) =~= schedule_view(kb).push(e[i as int]));
                assert(ids@.map_values(|s: String| s@) =~= ib.map_values(|s: String| s@).push(
                    e[i as int].0,
                ));
                assert(w.push(e[i as int]).map_values(|p: (Seq<char>, u128)| p.0) =~= w.map_values(
                    |p: (Seq<char>, u128)| p.0,
                ).push(e[i as int].0));
            }
            i = i + 1;
        }
        assert(e.take(self.entries.len() as int) =~= e);
        self.entries = kept;
        ids
    }

    /// Records that the optional hosts `ids` failed at `now`: each is
    /// skipped until `now` plus the retry delay.
    pub fn note_optional_failures(&mut self, ids: Vec<String>, now: u128)
        requires
            now + OPTIONAL_RETRY_NANOS <= u128::MAX,
        ensures
            schedule_view(final(self).entries@) == schedule_put_all(
                schedule_view(old(self).entries@),
                ids@.map_values(|s: String| s@),
                (now + OPTIONAL_RETRY_NANOS) as u128,
            ),
            unique_ids(schedule_view(old(self).entries@)) ==> unique_ids(
                schedule_view(final(self).entries@),
            ),
    {
        let at = now + OPTIONAL_RETRY_NANOS;
        let ghost e0 = schedule_view(self.entries@);
        let ghost iv = ids@.map_values(|s: String| s@);
        let mut k: usize = 0;
        assert(iv.take(0) =~= Seq::<Seq<char>>::empty());
        while k < ids.len()
            invariant
                k <= ids.len(),
                at == now + OPTIONAL_RETRY_NANOS,
                iv == ids@.map_values(|s: String| s@),
                schedule_view(self.entries@) == schedule_put_all(e0, iv.take(k as int), at),
                unique_ids(e0) ==> unique_ids(schedule_view(self.entries@)),
            decreases ids.len() - k,
        {
            let id = chars_of(ids[k].as_str());
            assert(iv[k as int] == ids@[k as int]@);
            assert(iv.take(k + 1).drop_last() =~= iv.take(k as int));
            assert(iv.take(k + 1).last() == iv[k as int]);
            let ghost e = schedule_view(self.entries@);
            let mut i: usize = 0;
            loop
                invariant
                    i <= self.entries.len(),
                    e == schedule_view(self.entries@),
                    id@ == iv[k as int],
                    forall|j: int| 0 <= j < i ==> #[trigger] e[j].0 != id@,
                ensures
                    i <= self.entries.len(),
                    forall|j: int| 0 <= j < i ==> #[trigger] e[j].0 != id@,
                    i < self.entries.len() ==> e[i as int].0 == id@,
                decreases self.entries.len() - i,
            {
                if i >= self.entries.len() {
                    break;
                }
                let c = chars_of(self.entries[i].0.as_str());
                assert(e[i as int].0 == self.entries@[i as int].0@);
                if chars_eq(&c, &id) {
                    break;
                }
                i = i + 1;
            }
            proof {
                lemma_id_index_at(e, id@, i as int);
            }
            let name = ids[k].clone();
            if i < self.entries.len() {
                self.entries.set(i, (name, at));
                assert(schedule_view(self.entries@) =~= e.update(i as int, (id@, at)));
            } else {
                self.entries.push((name, at));
                assert(schedule_view(self.entries@) =~= e.push((id@, at)));
            }
            k = k + 1;
        }
        assert(iv.take(ids.len() as int) =~= iv);
    }
}

} // verus!
