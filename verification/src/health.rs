//! Server health in the config manager: the per-id status, issue and
//! copy-id host tables, what a check or a probe found, and the summary line.
use vstd::prelude::*;
use crate::collectors::collector_error_text;
use crate::collectors::ssh::{valid_ssh_host, validate_ssh_host};
use crate::config::{AppConfig, AppView, ServerConfig, ServerView, enabled_servers, enabled_views};
use crate::manager::{
    ConfigHealthStatus, ConfigManagerState, HealthView, ManagerView, health_views, pair_views,
    selected_view,
};
use crate::model::{HostSource, SourceView, kind_name, source_text};
use crate::text::{chars_eq, chars_of, debug_quoted, decimal, string_of, trim, trim_chars, u64_text};

verus! {

/// The index of the first entry for `k`.
pub open spec fn entry_index<V>(e: Seq<(Seq<char>, V)>, k: Seq<char>) -> Option<nat>
    decreases e.len(),
{
    if e.len() == 0 {
        None
    } else if e[0].0 == k {
        Some(0)
    } else {
        match entry_index(e.drop_first(), k) {
            Some(i) => Some(i + 1),
            None => None,
        }
    }
}

/// The value recorded for `k`.
pub open spec fn entry_get<V>(e: Seq<(Seq<char>, V)>, k: Seq<char>) -> Option<V> {
    match entry_index(e, k) {
        Some(i) => Some(e[i as int].1),
        None => None,
    }
}

/// `k` recorded as `v`: its entry replaced, or a new one at the end.
pub open spec fn entry_put<V>(e: Seq<(Seq<char>, V)>, k: Seq<char>, v: V) -> Seq<(Seq<char>, V)> {
    match entry_index(e, k) {
        Some(i) => e.update(i as int, (k, v)),
        None => e.push((k, v)),
    }
}

/// The entries for other keys than `k`, in order.
pub open spec fn entry_drop<V>(e: Seq<(Seq<char>, V)>, k: Seq<char>) -> Seq<(Seq<char>, V)>
    decreases e.len(),
{
    if e.len() == 0 {
        Seq::empty()
    } else {
        let rest = entry_drop(e.drop_last(), k);
        if e.last().0 == k {
            rest
        } else {
            rest.push(e.last())
        }
    }
}

proof fn lemma_entry_index_at<V>(e: Seq<(Seq<char>, V)>, k: Seq<char>, i: int)
    requires
        0 <= i <= e.len(),
        forall|j: int| 0 <= j < i ==> #[trigger] e[j].0 != k,
        i < e.len() ==> e[i].0 == k,
    ensures
        entry_index(e, k) == if i < e.len() {
            Some(i as nat)
        } else {
            None::<nat>
        },
    decreases i,
{
    if i > 0 {
        let t = e.drop_first();
        assert forall|j: int| 0 <= j < i - 1 implies #[trigger] t[j].0 != k by {
            assert(t[j] == e[j + 1]);
        }
        if i < e.len() {
            assert(t[i - 1] == e[i]);
        }
        lemma_entry_index_at(t, k, i - 1);
        assert(e[0].0 != k);
    }
}

fn find_key_health(v: &Vec<(String, ConfigHealthStatus)>, k: &Vec<char>) -> (r: Option<usize>)
    ensures
        r matches Some(i) ==> i < v@.len(),
        match r {
            Some(i) => entry_index(health_views(v@), k@) == Some(i as nat),
            None => entry_index(health_views(v@), k@) is None,
        },
{
    let ghost e = health_views(v@);
    let mut i: usize = 0;
    loop
        invariant
            i <= v.len(),
            e == health_views(v@),
            forall|j: int| 0 <= j < i ==> #[trigger] e[j].0 != k@,
        ensures
            i <= v.len(),
            forall|j: int| 0 <= j < i ==> #[trigger] e[j].0 != k@,
            i < v.len() ==> e[i as int].0 == k@,
        decreases v.len() - i,
    {
        if i >= v.len() {
            break;
        }
        let c = chars_of(v[i].0.as_str());
        assert(e[i as int].0 == v@[i as int].0@);
        if chars_eq(&c, k) {
            break;
        }
        i = i + 1;
    }
    proof {
        lemma_entry_index_at(e, k@, i as int);
    }
    if i < v.len() {
        Some(i)
    } else {
        None
    }
}

fn find_key_pair(v: &Vec<(String, String)>, k: &Vec<char>) -> (r: Option<usize>)
    ensures
        r matches Some(i) ==> i < v@.len(),
        match r {
            Some(i) => entry_index(pair_views(v@), k@) == Some(i as nat),
            None => entry_index(pair_views(v@), k@) is None,
        },
{
    let ghost e = pair_views(v@);
    let mut i: usize = 0;
    loop
        invariant
            i <= v.len(),
            e == pair_views(v@),
            forall|j: int| 0 <= j < i ==> #[trigger] e[j].0 != k@,
        ensures
            i <= v.len(),
            forall|j: int| 0 <= j < i ==> #[trigger] e[j].0 != k@,
            i < v.len() ==> e[i as int].0 == k@,
        decreases v.len() - i,
    {
        if i >= v.len() {
            break;
        }
        let c = chars_of(v[i].0.as_str());
        assert(e[i as int].0 == v@[i as int].0@);
        if chars_eq(&c, k) {
            break;
        }
        i = i + 1;
    }
    proof {
        lemma_entry_index_at(e, k@, i as int);
    }
    if i < v.len() {
        Some(i)
    } else {
        None
    }
}

fn put_health(v: &mut Vec<(String, ConfigHealthStatus)>, k: String, s: ConfigHealthStatus)
    ensures
        health_views(final(v)@) == entry_put(health_views(old(v)@), k@, s@),
{
    let ghost e = health_views(v@);
    let kc = chars_of(k.as_str());
    assert(kc@ == k@);
    match find_key_health(v, &kc) {
        Some(i) => {
            assert(entry_index(e, k@) == Some(i as nat));
            v.set(i, (k, s));
            assert(health_views(v@) =~= e.update(i as int, (k@, s@)));
        },
        None => {
            v.push((k, s));
            assert(health_views(v@) =~= e.push((k@, s@)));
        },
    }
}

fn put_pair(v: &mut Vec<(String, String)>, k: String, s: String)
    ensures
        pair_views(final(v)@) == entry_put(pair_views(old(v)@), k@, s@),
{
    let ghost e = pair_views(v@);
    let kc = chars_of(k.as_str());
    assert(kc@ == k@);
    match find_key_pair(v, &kc) {
        Some(i) => {
            assert(entry_index(e, k@) == Some(i as nat));
            v.set(i, (k, s));
            assert(pair_views(v@) =~= e.update(i as int, (k@, s@)));
        },
        None => {
            v.push((k, s));
            assert(pair_views(v@) =~= e.push((k@, s@)));
        },
    }
}

fn drop_pair(v: &mut Vec<(String, String)>, k: &Vec<char>)
    ensures
        pair_views(final(v)@) == entry_drop(pair_views(old(v)@), k@),
{
    let ghost e = pair_views(v@);
    let mut kept: Vec<(String, String)> = Vec::new();
    let mut i: usize = 0;
    assert(e.take(0) =~= Seq::<(Seq<char>, Seq<char>)>::empty());
    assert(pair_views(kept@) =~= Seq::<(Seq<char>, Seq<char>)>::empty());
    while i < v.len()
        invariant
            i <= v.len(),
            e == pair_views(v@),
            pair_views(kept@) == entry_drop(e.take(i as int), k@),
        decreases v.len() - i,
    {
        assert(e.take(i + 1).drop_last() =~= e.take(i as int));
        assert(e.take(i + 1).last() == e[i as int]);
        assert(e[i as int] == (v@[i as int].0@, v@[i as int].1@));
        let c = chars_of(v[i].0.as_str());
        if !chars_eq(&c, k) {
            let ghost before = pair_views(kept@);
            let p = (v[i].0.clone(), v[i].1.clone());
            kept.push(p);
            assert(pair_views(kept@) =~= before.push(e[i as int]));
        }
        i = i + 1;
    }
    assert(e.take(v.len() as int) =~= e);
    *v = kept;
}

/// Before a check: every server pending (`disabled` or `checking`), no
/// issues or copy-id hosts, and the summary says a check runs.
pub open spec fn pending_table(servers: Seq<ServerView>) -> Seq<(Seq<char>, HealthView)>
    decreases servers.len(),
{
    if servers.len() == 0 {
        Seq::empty()
    } else {
        let s = servers.last();
        entry_put(
            pending_table(servers.drop_last()),
            s.id,
            HealthView::Pending(
                if s.enabled {
                    "checking"@
                } else {
                    "disabled"@
                },
            ),
        )
    }
}

pub open spec fn marked_pending(s: ManagerView) -> ManagerView {
    ManagerView {
        health: pending_table(s.config.servers),
        issues: Seq::empty(),
        copy_hosts: Seq::empty(),
        health_message: "health: checking..."@,
        ..s
    }
}

pub fn mark_config_health_pending(state: &mut ConfigManagerState)
    ensures
        final(state)@ == marked_pending(old(state)@),
{
    let ghost sv = state@.config.servers;
    let mut table: Vec<(String, ConfigHealthStatus)> = Vec::new();
    let mut i: usize = 0;
    assert(sv.take(0) =~= Seq::<ServerView>::empty());
    assert(health_views(table@) =~= Seq::<(Seq<char>, HealthView)>::empty());
    while i < state.config.servers.len()
        invariant
            i <= state.config.servers.len(),
            sv == state@.config.servers,
            sv.len() == state.config.servers.len(),
            health_views(table@) == pending_table(sv.take(i as int)),
        decreases state.config.servers.len() - i,
    {
        assert(sv.take(i + 1).drop_last() =~= sv.take(i as int));
        assert(sv.take(i + 1).last() == sv[i as int]);
        assert(sv[i as int] == state.config.servers@[i as int]@);
        let status = if state.config.servers[i].enabled {
            ConfigHealthStatus::Pending(String::from_str("checking"))
        } else {
            ConfigHealthStatus::Pending(String::from_str("disabled"))
        };
        put_health(&mut table, state.config.servers[i].id.clone(), status);
        i = i + 1;
    }
    assert(sv.take(state.config.servers.len() as int) =~= sv);
    state.health = table;
    state.health_issues = Vec::new();
    state.health_copy_id_hosts = Vec::new();
    assert(pair_views(state.health_issues@) =~= Seq::<(Seq<char>, Seq<char>)>::empty());
    assert(pair_views(state.health_copy_id_hosts@) =~= Seq::<(Seq<char>, Seq<char>)>::empty());
    state.health_message = String::from_str("health: checking...");
}

/// What a check found for one server.
#[derive(Clone, Debug, PartialEq, Eq)]
pub struct ConfigHealthUpdate {
    pub id: String,
    pub status: ConfigHealthStatus,
    pub issue: Option<String>,
    pub copy_id_host: Option<String>,
}

pub struct UpdateView {
    pub id: Seq<char>,
    pub status: HealthView,
    pub issue: Option<Seq<char>>,
    pub copy_id_host: Option<Seq<char>>,
}

pub open spec fn text_opt(o: Option<String>) -> Option<Seq<char>> {
    match o {
        Some(s) => Some(s@),
        None => None,
    }
}

impl View for ConfigHealthUpdate {
    type V = UpdateView;

    open spec fn view(&self) -> UpdateView {
        UpdateView {
            id: self.id@,
            status: self.status@,
            issue: text_opt(self.issue),
            copy_id_host: text_opt(self.copy_id_host),
        }
    }
}

/// Recording an update: the status replaces the server's; the issue and
/// the copy-id host are recorded when present and cleared when not.
pub open spec fn update_applied(s: ManagerView, u: UpdateView) -> ManagerView {
    ManagerView {
        health: entry_put(s.health, u.id, u.status),
        issues: match u.issue {
            Some(i) => entry_put(s.issues, u.id, i),
            None => entry_drop(s.issues, u.id),
        },
        copy_hosts: match u.copy_id_host {
            Some(h) => entry_put(s.copy_hosts, u.id, h),
            None => entry_drop(s.copy_hosts, u.id),
        },
        ..s
    }
}

pub fn apply_config_health_update(state: &mut ConfigManagerState, update: ConfigHealthUpdate)
    ensures
        final(state)@ == update_applied(old(state)@, update@),
{
    let idc = chars_of(update.id.as_str());
    put_health(&mut state.health, update.id.clone(), update.status);
    match update.issue {
        Some(issue) => put_pair(&mut state.health_issues, update.id.clone(), issue),
        None => drop_pair(&mut state.health_issues, &idc),
    }
    match update.copy_id_host {
        Some(host) => put_pair(&mut state.health_copy_id_hosts, update.id.clone(), host),
        None => drop_pair(&mut state.health_copy_id_hosts, &idc),
    }
}

/// The counts of enabled servers: all of them, those whose status passed,
/// and those whose status failed.
pub open spec fn health_counts(servers: Seq<ServerView>, h: Seq<(Seq<char>, HealthView)>) -> (nat, nat, nat)
    decreases servers.len(),
{
    if servers.len() == 0 {
        (0, 0, 0)
    } else {
        let (c, ok, bad) = health_counts(servers.drop_last(), h);
        let s = servers.last();
        if !s.enabled {
            (c, ok, bad)
        } else {
            match entry_get(h, s.id) {
                Some(HealthView::Passed(_)) => (c + 1, ok + 1, bad),
                Some(HealthView::Failed(_)) => (c + 1, ok, bad + 1),
                _ => (c + 1, ok, bad),
            }
        }
    }
}

/// The first enabled server (in order) that has an entry in `t`, by that entry.
pub open spec fn first_recorded(servers: Seq<ServerView>, t: Seq<(Seq<char>, Seq<char>)>) -> Option<Seq<char>>
    decreases servers.len(),
{
    if servers.len() == 0 {
        None
    } else {
        match first_recorded(servers.drop_last(), t) {
            Some(x) => Some(x),
            None => if servers.last().enabled {
                entry_get(t, servers.last().id)
            } else {
                None
            },
        }
    }
}

/// `health: <ok>/<checked> ok`, then `, <n> issue` and `, <n> checking`
/// when not zero, then the first issue and, with it, the first copy-id hint.
pub open spec fn health_summary(
    servers: Seq<ServerView>,
    h: Seq<(Seq<char>, HealthView)>,
    issues: Seq<(Seq<char>, Seq<char>)>,
    copy_hosts: Seq<(Seq<char>, Seq<char>)>,
) -> Seq<char> {
    let (checked, ok, bad) = health_counts(servers, h);
    let checking: nat = if ok + bad <= checked {
        (checked - (ok + bad)) as nat
    } else {
        0
    };
    "health: "@ + decimal(ok) + "/"@ + decimal(checked) + " ok"@ + (if bad > 0 {
        ", "@ + decimal(bad) + " issue"@
    } else {
        Seq::empty()
    }) + (if checking > 0 {
        ", "@ + decimal(checking) + " checking"@
    } else {
        Seq::empty()
    }) + match first_recorded(servers, issues) {
        Some(i) => ". "@ + i + match first_recorded(servers, copy_hosts) {
            Some(host) => ". select it and press c to show ssh-copy-id "@ + host,
            None => Seq::empty(),
        },
        None => Seq::empty(),
    }
}

fn get_health<'a>(v: &'a Vec<(String, ConfigHealthStatus)>, k: &Vec<char>) -> (r: Option<&'a ConfigHealthStatus>)
    ensures
        match entry_get(health_views(v@), k@) {
            Some(x) => r matches Some(y) && y@ == x,
            None => r is None,
        },
{
    match find_key_health(v, k) {
        Some(i) => {
            assert(entry_index(health_views(v@), k@) == Some(i as nat));
            assert(health_views(v@)[i as int] == (v@[i as int].0@, v@[i as int].1@));
            Some(&v[i].1)
        },
        None => None,
    }
}

fn get_pair<'a>(v: &'a Vec<(String, String)>, k: &Vec<char>) -> (r: Option<&'a String>)
    ensures
        match entry_get(pair_views(v@), k@) {
            Some(x) => r matches Some(y) && y@ == x,
            None => r is None,
        },
{
    match find_key_pair(v, k) {
        Some(i) => {
            assert(entry_index(pair_views(v@), k@) == Some(i as nat));
            assert(pair_views(v@)[i as int] == (v@[i as int].0@, v@[i as int].1@));
            Some(&v[i].1)
        },
        None => None,
    }
}

/// The summary line (see `health_summary`).
pub fn config_health_message(
    config: &AppConfig,
    health: &Vec<(String, ConfigHealthStatus)>,
    issues_by_id: &Vec<(String, String)>,
    copy_id_hosts: &Vec<(String, String)>,
) -> (r: String)
    ensures
        r@ == health_summary(
            config@.servers,
            health_views(health@),
            pair_views(issues_by_id@),
            pair_views(copy_id_hosts@),
        ),
{
    let ghost sv = config@.servers;
    let ghost hv = health_views(health@);
    let ghost iv = pair_views(issues_by_id@);
    let ghost cv = pair_views(copy_id_hosts@);
    let mut checked: u64 = 0;
    let mut ok: u64 = 0;
    let mut bad: u64 = 0;
    let mut first_issue: Option<String> = None;
    let mut first_copy: Option<String> = None;
    let mut i: usize = 0;
    assert(sv.take(0) =~= Seq::<ServerView>::empty());
    while i < config.servers.len()
        invariant
            i <= config.servers.len(),
            sv == config@.servers,
            sv.len() == config.servers.len(),
            hv == health_views(health@),
            iv == pair_views(issues_by_id@),
            cv == pair_views(copy_id_hosts@),
            (checked as nat, ok as nat, bad as nat) == health_counts(sv.take(i as int), hv),
            checked <= i,
            ok + bad <= checked,
            text_opt(first_issue) == first_recorded(sv.take(i as int), iv),
            text_opt(first_copy) == first_recorded(sv.take(i as int), cv),
        decreases config.servers.len() - i,
    {
        assert(sv.take(i + 1).drop_last() =~= sv.take(i as int));
        assert(sv.take(i + 1).last() == sv[i as int]);
        let server = &config.servers[i];
        assert(sv[i as int] == server@);
        if server.enabled {
            let idc = chars_of(server.id.as_str());
            match get_health(health, &idc) {
                Some(ConfigHealthStatus::Passed(_)) => {
                    checked = checked + 1;
                    ok = ok + 1;
                },
                Some(ConfigHealthStatus::Failed(_)) => {
                    checked = checked + 1;
                    bad = bad + 1;
                },
                _ => {
                    checked = checked + 1;
                },
            }
            if first_issue.is_none() {
                first_issue = match get_pair(issues_by_id, &idc) {
                    Some(x) => Some(x.clone()),
                    None => None,
                };
            }
            if first_copy.is_none() {
                first_copy = match get_pair(copy_id_hosts, &idc) {
                    Some(x) => Some(x.clone()),
                    None => None,
                };
            }
        }
        i = i + 1;
    }
    assert(sv.take(config.servers.len() as int) =~= sv);
    let checking: u64 = if ok + bad <= checked {
        checked - (ok + bad)
    } else {
        0
    };
    let mut m = String::from_str("health: ");
    m.append(u64_text(ok).as_str());
    m.append("/");
    m.append(u64_text(checked).as_str());
    m.append(" ok");
    if bad > 0 {
        m.append(", ");
        m.append(u64_text(bad).as_str());
        m.append(" issue");
    }
    if checking > 0 {
        m.append(", ");
        m.append(u64_text(checking).as_str());
        m.append(" checking");
    }
    match first_issue {
        Some(issue) => {
            m.append(". ");
            m.append(issue.as_str());
            match first_copy {
                Some(host) => {
                    m.append(". select it and press c to show ssh-copy-id ");
                    m.append(host.as_str());
                },
                None => {},
            }
        },
        None => {},
    }
    m
}

/// Recomputes the summary line from the tables.
pub fn refresh_health_message(state: &mut ConfigManagerState)
    ensures
        final(state)@ == (ManagerView {
            health_message: health_summary(
                old(state)@.config.servers,
                old(state)@.health,
                old(state)@.issues,
                old(state)@.copy_hosts,
            ),
            ..old(state)@
        }),
{
    let m = config_health_message(
        &state.config,
        &state.health,
        &state.health_issues,
        &state.health_copy_id_hosts,
    );
    state.health_message = m;
}

/// Starting a check: refused with a message while one runs; otherwise all
/// servers are marked pending and the enabled ones are returned to check.
pub fn start_config_health_check(state: &mut ConfigManagerState, running: bool) -> (r: Option<Vec<ServerConfig>>)
    ensures
        running ==> r is None && final(state)@ == (ManagerView {
            message: "health check already running"@,
            ..old(state)@
        }),
        !running ==> (r matches Some(v) && crate::config::server_views(v@) == enabled_views(
            old(state)@.config.servers,
        ) && final(state)@ == marked_pending(old(state)@)),
{
    if running {
        state.message = String::from_str("health check already running");
        return None;
    }
    mark_config_health_pending(state);
    Some(enabled_servers(&state.config))
}

/// How an SSH probe ended: the command succeeded, it failed (with what it
/// wrote to standard error), or it could not be run (with the error).
#[derive(Clone, Debug, PartialEq, Eq)]
pub enum ProbeOutcome {
    Success,
    Failed { stderr: String },
    Error { message: String },
}

pub enum ProbeView {
    Success,
    Failed(Seq<char>),
    Error(Seq<char>),
}

pub open spec fn probe_view(p: ProbeOutcome) -> ProbeView {
    match p {
        ProbeOutcome::Success => ProbeView::Success,
        ProbeOutcome::Failed { stderr } => ProbeView::Failed(stderr@),
        ProbeOutcome::Error { message } => ProbeView::Error(message@),
    }
}

/// The message of the check that refuses an SSH host.
pub open spec fn host_error_text(h: Seq<char>) -> Seq<char> {
    "unsupported source for MVP: "@ + ("invalid SSH host alias: "@ + debug_quoted(h))
}

/// What a check finds without probing: local and API sources pass, an
/// SSH source with an invalid host fails with an issue; an SSH source with
/// a valid host needs a probe (none).
pub open spec fn check_without_probe(s: ServerView) -> Option<UpdateView> {
    match s.source {
        SourceView::Local => Some(
            UpdateView { id: s.id, status: HealthView::Passed("local"@), issue: None, copy_id_host: None },
        ),
        SourceView::Ssh(h) => if valid_ssh_host(h) {
            None
        } else {
            Some(
                UpdateView {
                    id: s.id,
                    status: HealthView::Failed("invalid host"@),
                    issue: Some(s.name + ": "@ + host_error_text(h)),
                    copy_id_host: None,
                },
            )
        },
        _ => Some(
            UpdateView {
                id: s.id,
                status: HealthView::Passed(kind_name(s.source)),
                issue: None,
                copy_id_host: None,
            },
        ),
    }
}

pub open spec fn update_opt(u: Option<ConfigHealthUpdate>) -> Option<UpdateView> {
    match u {
        Some(x) => Some(x@),
        None => None,
    }
}

pub fn health_without_probe(server: &ServerConfig) -> (r: Option<ConfigHealthUpdate>)
    ensures
        update_opt(r) == check_without_probe(server@),
{
    match &server.source {
        HostSource::Local => Some(
            ConfigHealthUpdate {
                id: server.id.clone(),
                status: ConfigHealthStatus::Passed(String::from_str("local")),
                issue: None,
                copy_id_host: None,
            },
        ),
        HostSource::Ssh { host } => match validate_ssh_host(host.as_str()) {
            Ok(()) => None,
            Err(e) => {
                let mut issue = server.name.clone();
                issue.append(": ");
                issue.append(e.message().as_str());
                Some(
                    ConfigHealthUpdate {
                        id: server.id.clone(),
                        status: ConfigHealthStatus::Failed(String::from_str("invalid host")),
                        issue: Some(issue),
                        copy_id_host: None,
                    },
                )
            },
        },
        _ => Some(
            ConfigHealthUpdate {
                id: server.id.clone(),
                status: ConfigHealthStatus::Passed(String::from_str(server.source.kind())),
                issue: None,
                copy_id_host: None,
            },
        ),
    }
}

/// What a probe of `host` found for server `s`: `ssh ok`; or `ssh failed`
/// with the trimmed error output as the issue and the host for copy-id;
/// or `probe error` with the error as the issue.
pub open spec fn probe_update(s: ServerView, host: Seq<char>, p: ProbeView) -> UpdateView {
    match p {
        ProbeView::Success => UpdateView {
            id: s.id,
            status: HealthView::Passed("ssh ok"@),
            issue: None,
            copy_id_host: None,
        },
        ProbeView::Failed(err) => UpdateView {
            id: s.id,
            status: HealthView::Failed("ssh failed"@),
            issue: Some(s.name + ": ssh failed ("@ + trim(err) + ")"@),
            copy_id_host: Some(host),
        },
        ProbeView::Error(m) => UpdateView {
            id: s.id,
            status: HealthView::Failed("probe error"@),
            issue: Some(s.name + ": ssh probe error ("@ + m + ")"@),
            copy_id_host: None,
        },
    }
}

pub fn health_after_probe(server: &ServerConfig, host: &str, outcome: &ProbeOutcome) -> (r: ConfigHealthUpdate)
    ensures
        r@ == probe_update(server@, host@, probe_view(*outcome)),
{
    match outcome {
        ProbeOutcome::Success => ConfigHealthUpdate {
            id: server.id.clone(),
            status: ConfigHealthStatus::Passed(String::from_str("ssh ok")),
            issue: None,
            copy_id_host: None,
        },
        ProbeOutcome::Failed { stderr } => {
            let mut issue = server.name.clone();
            issue.append(": ssh failed (");
            issue.append(string_of(&trim_chars(&chars_of(stderr.as_str()))).as_str());
            issue.append(")");
            ConfigHealthUpdate {
                id: server.id.clone(),
                status: ConfigHealthStatus::Failed(String::from_str("ssh failed")),
                issue: Some(issue),
                copy_id_host: Some(String::from_str(host)),
            }
        },
        ProbeOutcome::Error { message } => {
            let mut issue = server.name.clone();
            issue.append(": ssh probe error (");
            issue.append(message.as_str());
            issue.append(")");
            ConfigHealthUpdate {
                id: server.id.clone(),
                status: ConfigHealthStatus::Failed(String::from_str("probe error")),
                issue: Some(issue),
                copy_id_host: None,
            }
        },
    }
}

/// The `r` key before probing: for an SSH server with a valid host, the
/// host to probe; an invalid host is marked failed and reported; another
/// source is marked as passing with its kind and reported.
pub open spec fn probe_started(s: ManagerView) -> (ManagerView, Option<Seq<char>>) {
    match selected_view(s) {
        None => (s, None),
        Some(v) => match v.source {
            SourceView::Ssh(h) => if valid_ssh_host(h) {
                (s, Some(h))
            } else {
                (
                    ManagerView {
                        health: entry_put(s.health, v.id, HealthView::Failed("invalid host"@)),
                        message: "ssh probe skipped: "@ + host_error_text(h),
                        ..s
                    },
                    None,
                )
            },
            _ => (
                ManagerView {
                    health: entry_put(s.health, v.id, HealthView::Passed(kind_name(v.source))),
                    message: "ssh probe applies only to source=ssh; selected "@ + source_text(v.source),
                    ..s
                },
                None,
            ),
        },
    }
}

pub fn begin_selected_probe(state: &mut ConfigManagerState) -> (r: Option<String>)
    ensures
        (final(state)@, match r {
            Some(h) => Some(h@),
            None => None,
        }) == probe_started(old(state)@),
{
    let (id, source) = match state.selected_server() {
        None => {
            return None;
        },
        Some(server) => (server.id.clone(), server.source.duplicate()),
    };
    match &source {
        HostSource::Ssh { host } => match validate_ssh_host(host.as_str()) {
            Ok(()) => Some(host.clone()),
            Err(e) => {
                put_health(
                    &mut state.health,
                    id,
                    ConfigHealthStatus::Failed(String::from_str("invalid host")),
                );
                let m = String::from_str("ssh probe skipped: ");
                state.message = m.concat(e.message().as_str());
                None
            },
        },
        _ => {
            put_health(
                &mut state.health,
                id,
                ConfigHealthStatus::Passed(String::from_str(source.kind())),
            );
            let m = String::from_str("ssh probe applies only to source=ssh; selected ");
            state.message = m.concat(source.to_display_string().as_str());
            None
        },
    }
}

/// The `r` key after probing `host` for the server with id `id`.
pub open spec fn probe_finished(s: ManagerView, id: Seq<char>, host: Seq<char>, p: ProbeView) -> ManagerView {
    match p {
        ProbeView::Success => ManagerView {
            health: entry_put(s.health, id, HealthView::Passed("ssh ok"@)),
            message: "ssh probe ok for "@ + host,
            ..s
        },
        ProbeView::Failed(err) => ManagerView {
            health: entry_put(s.health, id, HealthView::Failed("ssh failed"@)),
            message: "ssh failed for "@ + host + ". Press c to show ssh-copy-id. ("@ + trim(err) + ")"@,
            ..s
        },
        ProbeView::Error(m) => ManagerView {
            health: entry_put(s.health, id, HealthView::Failed("probe error"@)),
            message: "ssh probe could not run for "@ + host + ": "@ + m,
            ..s
        },
    }
}

pub fn finish_selected_probe(state: &mut ConfigManagerState, id: &str, host: &str, outcome: &ProbeOutcome)
    ensures
        final(state)@ == probe_finished(old(state)@, id@, host@, probe_view(*outcome)),
{
    match outcome {
        ProbeOutcome::Success => {
            put_health(
                &mut state.health,
                String::from_str(id),
                ConfigHealthStatus::Passed(String::from_str("ssh ok")),
            );
            let m = String::from_str("ssh probe ok for ");
            state.message = m.concat(host);
        },
        ProbeOutcome::Failed { stderr } => {
            put_health(
                &mut state.health,
                String::from_str(id),
                ConfigHealthStatus::Failed(String::from_str("ssh failed")),
            );
            let mut m = String::from_str("ssh failed for ");
            m.append(host);
            m.append(". Press c to show ssh-copy-id. (");
            m.append(string_of(&trim_chars(&chars_of(stderr.as_str()))).as_str());
            m.append(")");
            state.message = m;
        },
        ProbeOutcome::Error { message } => {
            put_health(
                &mut state.health,
                String::from_str(id),
                ConfigHealthStatus::Failed(String::from_str("probe error")),
            );
            let mut m = String::from_str("ssh probe could not run for ");
            m.append(host);
            m.append(": ");
            m.append(message.as_str());
            state.message = m;
        },
    }
}

} // verus!
