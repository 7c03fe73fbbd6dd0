//! The application configuration: servers, their sources and display tuning,
//! the reading of a parsed config file, and the canonical config text.
use vstd::prelude::*;
use crate::aliases::{DiskAliases, insert_entry};
use crate::model::{HostSource, SourceView, endpoint_of, kind_name};
use crate::text::{
    all_ascii_id_chars, chars_eq, chars_of, debug_quoted, debug_string, decimal, eq_str, push_decimal,
    string_of, trim, trim_chars, u64_text,
};

verus! {

pub const DEFAULT_REFRESH_INTERVAL_MS: u64 = 1_000;

pub const MIN_REFRESH_INTERVAL_MS: u64 = 100;

pub const MAX_REFRESH_INTERVAL_MS: u64 = 60_000;

pub const DEFAULT_DISK_MAX_ROWS: usize = 8;

pub const APP_CONFIG_DIR: &'static str = "rktop";

pub const LEGACY_APP_CONFIG_DIR: &'static str = "server-tui-monitor";

pub const APP_CONFIG_FILE: &'static str = "config.toml";

/// One monitored server.
#[derive(Clone, Debug, PartialEq, Eq)]
pub struct ServerConfig {
    pub id: String,
    pub name: String,
    pub source: HostSource,
    pub group: Option<String>,
    pub role: Option<String>,
    pub enabled: bool,
    pub optional: bool,
    pub disk_max_rows: Option<usize>,
    pub disk_aliases: DiskAliases,
}

pub struct ServerView {
    pub id: Seq<char>,
    pub name: Seq<char>,
    pub source: SourceView,
    pub group: Option<Seq<char>>,
    pub role: Option<Seq<char>>,
    pub enabled: bool,
    pub optional: bool,
    pub disk_max_rows: Option<usize>,
    pub disk_aliases: Seq<(Seq<char>, Seq<char>)>,
}

pub open spec fn opt_text(o: Option<String>) -> Option<Seq<char>> {
    match o {
        Some(s) => Some(s@),
        None => None,
    }
}

impl View for ServerConfig {
    type V = ServerView;

    open spec fn view(&self) -> ServerView {
        ServerView {
            id: self.id@,
            name: self.name@,
            source: self.source@,
            group: opt_text(self.group),
            role: opt_text(self.role),
            enabled: self.enabled,
            optional: self.optional,
            disk_max_rows: self.disk_max_rows,
            disk_aliases: self.disk_aliases@,
        }
    }
}

pub open spec fn server_views(s: Seq<ServerConfig>) -> Seq<ServerView> {
    s.map_values(|x: ServerConfig| x@)
}

/// The whole configuration.
#[derive(Clone, Debug, PartialEq, Eq)]
pub struct AppConfig {
    pub refresh_interval_ms: u64,
    pub servers: Vec<ServerConfig>,
}

pub struct AppView {
    pub refresh_interval_ms: u64,
    pub servers: Seq<ServerView>,
}

impl View for AppConfig {
    type V = AppView;

    open spec fn view(&self) -> AppView {
        AppView { refresh_interval_ms: self.refresh_interval_ms, servers: server_views(self.servers@) }
    }
}

/// Where the configuration in use came from: the built-in defaults (with the
/// path a user config would have) or a file.
#[derive(Clone, Debug, PartialEq, Eq)]
pub enum ConfigOrigin {
    BuiltIn { default_path: Option<String> },
    File(String),
}

#[derive(Clone, Debug, PartialEq, Eq)]
pub struct LoadedConfig {
    pub config: AppConfig,
    pub origin: ConfigOrigin,
}

/// A configuration that cannot be used, with the message that says why.
#[derive(Clone, Debug, PartialEq, Eq)]
pub struct ConfigError {
    pub message: String,
}

/// `text` as a `String`.
fn owned(text: &str) -> (r: String)
    ensures
        r@ == text@,
{
    text.to_owned()
}

impl ServerConfig {
    /// A server collected on this machine: enabled and required.
    pub fn local(id: &str, name: &str) -> (r: Self)
        ensures
            r@ == (ServerView {
                id: id@,
                name: name@,
                source: SourceView::Local,
                group: None,
                role: None,
                enabled: true,
                optional: false,
                disk_max_rows: None,
                disk_aliases: Seq::empty(),
            }),
    {
        ServerConfig {
            id: owned(id),
            name: owned(name),
            source: HostSource::local(),
            group: None,
            role: None,
            enabled: true,
            optional: false,
            disk_max_rows: None,
            disk_aliases: DiskAliases::new(),
        }
    }

    /// A server collected over SSH: enabled and optional.
    pub fn ssh(id: &str, name: &str, host: &str) -> (r: Self)
        ensures
            r@ == (ServerView {
                id: id@,
                name: name@,
                source: SourceView::Ssh(host@),
                group: None,
                role: None,
                enabled: true,
                optional: true,
                disk_max_rows: None,
                disk_aliases: Seq::empty(),
            }),
    {
        ServerConfig {
            id: owned(id),
            name: owned(name),
            source: HostSource::ssh(host),
            group: None,
            role: None,
            enabled: true,
            optional: true,
            disk_max_rows: None,
            disk_aliases: DiskAliases::new(),
        }
    }

    pub fn with_group(self, group: &str) -> (r: Self)
        ensures
            r@ == (ServerView { group: Some(group@), ..self@ }),
    {
        let mut s = self;
        s.group = Some(owned(group));
        s
    }

    pub fn with_role(self, role: &str) -> (r: Self)
        ensures
            r@ == (ServerView { role: Some(role@), ..self@ }),
    {
        let mut s = self;
        s.role = Some(owned(role));
        s
    }

    pub fn optional(self, optional: bool) -> (r: Self)
        ensures
            r@ == (ServerView { optional, ..self@ }),
    {
        let mut s = self;
        s.optional = optional;
        s
    }

    pub fn enabled(self, enabled: bool) -> (r: Self)
        ensures
            r@ == (ServerView { enabled, ..self@ }),
    {
        let mut s = self;
        s.enabled = enabled;
        s
    }

    pub fn with_disk_max_rows(self, rows: usize) -> (r: Self)
        ensures
            r@ == (ServerView { disk_max_rows: Some(rows), ..self@ }),
    {
        let mut s = self;
        s.disk_max_rows = Some(rows);
        s
    }

    /// The server with `mount` shown as `alias`.
    pub fn with_disk_alias(self, mount: &str, alias: &str) -> (r: Self)
        ensures
            r@ == (ServerView {
                disk_aliases: insert_entry(self@.disk_aliases, mount@, alias@),
                ..self@
            }),
    {
        let mut s = self;
        s.disk_aliases.insert(owned(mount), owned(alias));
        s
    }

    /// A copy of this server.
    pub fn duplicate(&self) -> (r: Self)
        ensures
            r@ == self@,
    {
        ServerConfig {
            id: self.id.clone(),
            name: self.name.clone(),
            source: self.source.duplicate(),
            group: match &self.group {
                Some(g) => Some(g.clone()),
                None => None,
            },
            role: match &self.role {
                Some(g) => Some(g.clone()),
                None => None,
            },
            enabled: self.enabled,
            optional: self.optional,
            disk_max_rows: self.disk_max_rows,
            disk_aliases: self.disk_aliases.duplicate(),
        }
    }
}

fn same_text(a: &String, b: &String) -> (r: bool)
    ensures
        r == (a@ == b@),
{
    chars_eq(&chars_of(a.as_str()), &chars_of(b.as_str()))
}

fn same_opt_text(a: &Option<String>, b: &Option<String>) -> (r: bool)
    ensures
        r == (opt_text(*a) == opt_text(*b)),
{
    match (a, b) {
        (Some(x), Some(y)) => same_text(x, y),
        (None, None) => true,
        _ => false,
    }
}

fn same_source(a: &HostSource, b: &HostSource) -> (r: bool)
    ensures
        r == (a@ == b@),
{
    match (a, b) {
        (HostSource::Local, HostSource::Local) => true,
        (HostSource::Ssh { host: x }, HostSource::Ssh { host: y }) => same_text(x, y),
        (HostSource::Proxmox { host: x }, HostSource::Proxmox { host: y }) => same_text(x, y),
        (HostSource::TrueNasScale { host: x }, HostSource::TrueNasScale { host: y }) => same_text(x, y),
        _ => false,
    }
}

impl ServerConfig {
    /// Whether both describe the same server, field by field.
    pub fn same_as(&self, other: &ServerConfig) -> (r: bool)
        ensures
            r == (self@ == other@),
    {
        same_text(&self.id, &other.id) && same_text(&self.name, &other.name) && same_source(
            &self.source,
            &other.source,
        ) && same_opt_text(&self.group, &other.group) && same_opt_text(&self.role, &other.role)
            && self.enabled == other.enabled && self.optional == other.optional
            && self.disk_max_rows == other.disk_max_rows && self.disk_aliases.same_as(
            &other.disk_aliases,
        )
    }
}

impl AppConfig {
    /// Whether both hold the same refresh interval and the same servers in
    /// the same order.
    pub fn same_as(&self, other: &AppConfig) -> (r: bool)
        ensures
            r == (self@ == other@),
    {
        if self.refresh_interval_ms != other.refresh_interval_ms || self.servers.len()
            != other.servers.len() {
            assert(self@.servers.len() == self.servers.len());
            assert(other@.servers.len() == other.servers.len());
            return false;
        }
        let mut i: usize = 0;
        while i < self.servers.len()
            invariant
                i <= self.servers.len() == other.servers.len(),
                forall|j: int| 0 <= j < i ==> #[trigger] self@.servers[j] == other@.servers[j],
            decreases self.servers.len() - i,
        {
            assert(self@.servers[i as int] == self.servers@[i as int]@);
            assert(other@.servers[i as int] == other.servers@[i as int]@);
            if !self.servers[i].same_as(&other.servers[i]) {
                return false;
            }
            i = i + 1;
        }
        assert(self@.servers =~= other@.servers);
        true
    }

    /// A copy of this configuration.
    pub fn duplicate(&self) -> (r: AppConfig)
        ensures
            r@ == self@,
    {
        let mut servers: Vec<ServerConfig> = Vec::new();
        let mut i: usize = 0;
        while i < self.servers.len()
            invariant
                i <= self.servers.len(),
                server_views(servers@) == server_views(self.servers@).take(i as int),
            decreases self.servers.len() - i,
        {
            let ghost before = server_views(servers@);
            let d = self.servers[i].duplicate();
            assert(d@ == server_views(self.servers@)[i as int]);
            servers.push(d);
            assert(server_views(servers@) =~= before.push(d@));
            assert(server_views(self.servers@).take(i + 1) =~= server_views(self.servers@).take(
                i as int,
            ).push(server_views(self.servers@)[i as int]));
            i = i + 1;
        }
        assert(server_views(self.servers@).take(self.servers.len() as int) =~= server_views(
            self.servers@,
        ));
        AppConfig { refresh_interval_ms: self.refresh_interval_ms, servers }
    }
}

/// The first-run configuration: a one second refresh and no servers.
pub fn default_config() -> (r: AppConfig)
    ensures
        r@.refresh_interval_ms == DEFAULT_REFRESH_INTERVAL_MS,
        r@.servers.len() == 0,
{
    AppConfig { refresh_interval_ms: DEFAULT_REFRESH_INTERVAL_MS, servers: Vec::new() }
}

/// The servers of the first-run configuration: none.
pub fn default_servers() -> (r: Vec<ServerConfig>)
    ensures
        r@.len() == 0,
{
    default_config().servers
}

/// The enabled servers of `s`, in order.
pub open spec fn enabled_views(s: Seq<ServerView>) -> Seq<ServerView> {
    s.filter(|v: ServerView| v.enabled)
}

/// Copies of the enabled servers, in configuration order.
pub fn enabled_servers(config: &AppConfig) -> (r: Vec<ServerConfig>)
    ensures
        server_views(r@) == enabled_views(config@.servers),
{
    let ghost all = config@.servers;
    let mut out: Vec<ServerConfig> = Vec::new();
    let mut i: usize = 0;
    proof {
        reveal_with_fuel(Seq::<ServerView>::filter, 1);
    }
    assert(all.take(0).filter(|v: ServerView| v.enabled) =~= Seq::<ServerView>::empty());
    while i < config.servers.len()
        invariant
            i <= config.servers@.len(),
            all == config@.servers,
            all.len() == config.servers@.len(),
            server_views(out@) == all.take(i as int).filter(|v: ServerView| v.enabled),
        decreases config.servers.len() - i,
    {
        let ghost before = server_views(out@);
        proof {
            reveal_with_fuel(Seq::<ServerView>::filter, 1);
        }
        assert(all.take(i + 1).drop_last() == all.take(i as int));
        assert(all[i as int] == config.servers@[i as int]@);
        if config.servers[i].enabled {
            out.push(config.servers[i].duplicate());
            assert(server_views(out@) =~= before.push(all[i as int]));
        }
        i = i + 1;
    }
    assert(all.take(config.servers@.len() as int) == all);
    out
}


/// What a config file's `source` can hold: a kind name, or a table with a
/// `type` and an optional `host`.
#[derive(Clone, Debug, PartialEq, Eq)]
pub enum SourceDef {
    Kind(String),
    Table { kind: String, host: Option<String> },
}

/// A `[[servers]]` entry as the config file states it.
#[derive(Clone, Debug, PartialEq, Eq)]
pub struct FileServer {
    pub id: String,
    pub name: String,
    pub group: Option<String>,
    pub role: Option<String>,
    pub enabled: Option<bool>,
    pub optional: Option<bool>,
    pub disk_max_rows: Option<usize>,
    pub disk_aliases: Option<DiskAliases>,
    pub source: SourceDef,
    pub host: Option<String>,
}

/// A config file as parsed, before its values are checked.
#[derive(Clone, Debug, PartialEq, Eq)]
pub struct FileConfig {
    pub refresh_interval_ms: Option<u64>,
    pub refresh_interval_secs: Option<u64>,
    pub servers: Vec<FileServer>,
}

pub enum SourceDefView {
    Kind(Seq<char>),
    Table(Seq<char>, Option<Seq<char>>),
}

pub struct FileServerView {
    pub id: Seq<char>,
    pub name: Seq<char>,
    pub group: Option<Seq<char>>,
    pub role: Option<Seq<char>>,
    pub enabled: Option<bool>,
    pub optional: Option<bool>,
    pub disk_max_rows: Option<usize>,
    pub disk_aliases: Option<Seq<(Seq<char>, Seq<char>)>>,
    pub source: SourceDefView,
    pub host: Option<Seq<char>>,
}

impl View for FileServer {
    type V = FileServerView;

    open spec fn view(&self) -> FileServerView {
        FileServerView {
            id: self.id@,
            name: self.name@,
            group: opt_text(self.group),
            role: opt_text(self.role),
            enabled: self.enabled,
            optional: self.optional,
            disk_max_rows: self.disk_max_rows,
            disk_aliases: match self.disk_aliases {
                Some(a) => Some(a@),
                None => None,
            },
            source: match self.source {
                SourceDef::Kind(k) => SourceDefView::Kind(k@),
                SourceDef::Table { kind, host } => SourceDefView::Table(kind@, opt_text(host)),
            },
            host: opt_text(self.host),
        }
    }
}

pub open spec fn file_server_views(s: Seq<FileServer>) -> Seq<FileServerView> {
    s.map_values(|x: FileServer| x@)
}

/// A usable server id: not empty, and only ASCII letters, digits, `-` and `_`.
pub open spec fn safe_id(id: Seq<char>) -> bool {
    id.len() > 0 && all_ascii_id_chars(id)
}

pub open spec fn invalid_id_message(id: Seq<char>) -> Seq<char> {
    "server id must use only ASCII letters, numbers, '-' or '_': "@ + debug_quoted(id)
}

/// "server `id`" followed by `rest`.
pub open spec fn server_message(id: Seq<char>, rest: Seq<char>) -> Seq<char> {
    "server `"@ + id + "` "@ + rest
}

/// The host a remote source needs: present and not blank.
pub open spec fn required_host_spec(id: Seq<char>, host: Option<Seq<char>>) -> Result<Seq<char>, Seq<char>> {
    match host {
        None => Err(server_message(id, "source requires host"@)),
        Some(h) => if trim(h).len() == 0 {
            Err(server_message(id, "has an empty host"@))
        } else {
            Ok(h)
        },
    }
}

/// The source that a kind name and host give.
pub open spec fn source_from_kind(id: Seq<char>, kind: Seq<char>, host: Option<Seq<char>>) -> Result<SourceView, Seq<char>> {
    if kind == "local"@ {
        if host is Some {
            Err("local server `"@ + id + "` must not set host"@)
        } else {
            Ok(SourceView::Local)
        }
    } else if kind == "ssh"@ || kind == "proxmox"@ || kind == "truenas-scale"@ || kind == "truenas"@ {
        match required_host_spec(id, host) {
            Err(m) => Err(m),
            Ok(h) => Ok(
                if kind == "ssh"@ {
                    SourceView::Ssh(h)
                } else if kind == "proxmox"@ {
                    SourceView::Proxmox(h)
                } else {
                    SourceView::TrueNasScale(h)
                },
            ),
        }
    } else {
        Err(server_message(id, "uses unsupported source `"@ + kind + "`"@))
    }
}

/// The server that a file entry describes, or the message that refuses it:
/// the id must be safe, the name not blank, the source known and its host
/// present exactly when the source is remote. Enabled by default; optional by
/// default exactly when remote.
pub open spec fn server_from_file(f: FileServerView) -> Result<ServerView, Seq<char>> {
    if !safe_id(f.id) {
        Err(invalid_id_message(f.id))
    } else if trim(f.name).len() == 0 {
        Err(server_message(f.id, "has an empty name"@))
    } else {
        let (kind, table_host) = match f.source {
            SourceDefView::Kind(k) => (k, None),
            SourceDefView::Table(k, h) => (k, h),
        };
        let host = match f.host {
            Some(h) => Some(h),
            None => table_host,
        };
        match source_from_kind(f.id, kind, host) {
            Err(m) => Err(m),
            Ok(src) => Ok(
                ServerView {
                    id: f.id,
                    name: f.name,
                    source: src,
                    group: f.group,
                    role: f.role,
                    enabled: match f.enabled {
                        Some(b) => b,
                        None => true,
                    },
                    optional: match f.optional {
                        Some(b) => b,
                        None => !(src is Local),
                    },
                    disk_max_rows: f.disk_max_rows,
                    disk_aliases: match f.disk_aliases {
                        Some(a) => a,
                        None => Seq::empty(),
                    },
                },
            ),
        }
    }
}

/// The servers of a file, or the message that refuses the first bad entry.
pub open spec fn servers_from_files(fs: Seq<FileServerView>) -> Result<Seq<ServerView>, Seq<char>>
    decreases fs.len(),
{
    if fs.len() == 0 {
        Ok(Seq::empty())
    } else {
        match servers_from_files(fs.drop_last()) {
            Err(m) => Err(m),
            Ok(p) => match server_from_file(fs.last()) {
                Err(m) => Err(m),
                Ok(s) => Ok(p.push(s)),
            },
        }
    }
}

pub open spec fn both_units_message() -> Seq<char> {
    "use only one of refresh_interval_ms or refresh_interval_secs, not both"@
}

/// `ms` held within 100..=60000.
pub open spec fn clamp_refresh(ms: u64) -> u64 {
    if ms < MIN_REFRESH_INTERVAL_MS {
        MIN_REFRESH_INTERVAL_MS
    } else if ms > MAX_REFRESH_INTERVAL_MS {
        MAX_REFRESH_INTERVAL_MS
    } else {
        ms
    }
}

/// The refresh interval a file asks for: in milliseconds or in seconds (not
/// both), one second by default, held within 100..=60000 ms.
pub open spec fn refresh_from_file(ms: Option<u64>, secs: Option<u64>) -> Result<u64, Seq<char>> {
    match (ms, secs) {
        (Some(m), None) => Ok(clamp_refresh(m)),
        (None, Some(s)) => Ok(
            clamp_refresh(if s * 1000 > u64::MAX { u64::MAX } else { (s * 1000) as u64 }),
        ),
        (None, None) => Ok(DEFAULT_REFRESH_INTERVAL_MS),
        (Some(_), Some(_)) => Err(both_units_message()),
    }
}

/// Whatever interval a file asks for, the configuration it gives refreshes
/// every 100 to 60000 ms.
pub proof fn lemma_file_refresh_in_range(ms: Option<u64>, secs: Option<u64>, fs: Seq<FileServerView>)
    ensures
        config_from_file(ms, secs, fs) matches Ok(c) ==> MIN_REFRESH_INTERVAL_MS <= c.refresh_interval_ms
            <= MAX_REFRESH_INTERVAL_MS,
{
}

/// A server entry that leaves `enabled` out is enabled, and one that leaves
/// `optional` out is optional exactly when its source is remote.
pub proof fn lemma_file_server_defaults(f: FileServerView)
    ensures
        server_from_file(f) matches Ok(v) ==> (f.enabled is None ==> v.enabled) && (f.optional is None
            ==> v.optional == !(v.source is Local)),
{
}

/// The configuration a file describes, or the message that refuses it.
pub open spec fn config_from_file(ms: Option<u64>, secs: Option<u64>, fs: Seq<FileServerView>) -> Result<AppView, Seq<char>> {
    match refresh_from_file(ms, secs) {
        Err(m) => Err(m),
        Ok(r) => match servers_from_files(fs) {
            Err(m) => Err(m),
            Ok(s) => Ok(AppView { refresh_interval_ms: r, servers: s }),
        },
    }
}

fn config_error(message: String) -> (r: ConfigError)
    ensures
        r.message == message,
{
    ConfigError { message }
}

/// "server `id` " followed by `rest`.
fn server_error(id: &str, rest: &str) -> (r: ConfigError)
    ensures
        r.message@ == server_message(id@, rest@),
{
    let m = String::from_str("server `").concat(id).concat("` ").concat(rest);
    config_error(m)
}

/// Refuses an id that is empty or holds anything but ASCII letters, digits, `-` and `_`.
pub fn require_safe_id(id: &str) -> (r: Result<(), ConfigError>)
    ensures
        safe_id(id@) ==> r is Ok,
        !safe_id(id@) ==> (r matches Err(e) && e.message@ == invalid_id_message(id@)),
{
    let v = chars_of(id);
    let mut ok = v.len() > 0;
    let mut i: usize = 0;
    while ok && i < v.len()
        invariant
            i <= v.len(),
            v@ == id@,
            ok ==> v@.len() > 0,
            ok ==> forall|j: int|
                0 <= j < i ==> (crate::text::is_ascii_alnum(#[trigger] v@[j]) || v@[j] == '-'
                    || v@[j] == '_'),
            !ok ==> !safe_id(id@),
        decreases v.len() - i,
    {
        let c = v[i];
        if !(crate::text::ascii_alnum(c) || c == '-' || c == '_') {
            ok = false;
        }
        i = i + 1;
    }
    if ok {
        Ok(())
    } else {
        let m = String::from_str("server id must use only ASCII letters, numbers, '-' or '_': ");
        Err(config_error(m.concat(debug_string(id).as_str())))
    }
}

/// The host of a remote source: refused when missing or blank.
pub fn required_host(id: &str, host: Option<String>) -> (r: Result<String, ConfigError>)
    ensures
        match required_host_spec(id@, opt_text(host)) {
            Ok(h) => r matches Ok(s) && s@ == h,
            Err(m) => r matches Err(e) && e.message@ == m,
        },
{
    match host {
        None => Err(server_error(id, "source requires host")),
        Some(h) => {
            let t = trim_chars(&chars_of(h.as_str()));
            if t.len() == 0 {
                Err(server_error(id, "has an empty host"))
            } else {
                Ok(h)
            }
        },
    }
}

/// The source a kind name and host give (see `source_from_kind`).
fn source_from_def(id: &str, kind: &String, host: Option<String>) -> (r: Result<HostSource, ConfigError>)
    ensures
        match source_from_kind(id@, kind@, opt_text(host)) {
            Ok(s) => r matches Ok(x) && x@ == s,
            Err(m) => r matches Err(e) && e.message@ == m,
        },
{
    let k = chars_of(kind.as_str());
    if eq_str(&k, "local") {
        if host.is_some() {
            let m = String::from_str("local server `").concat(id).concat("` must not set host");
            Err(config_error(m))
        } else {
            Ok(HostSource::Local)
        }
    } else if eq_str(&k, "ssh") {
        match required_host(id, host) {
            Err(e) => Err(e),
            Ok(h) => Ok(HostSource::Ssh { host: h }),
        }
    } else if eq_str(&k, "proxmox") {
        match required_host(id, host) {
            Err(e) => Err(e),
            Ok(h) => Ok(HostSource::Proxmox { host: h }),
        }
    } else if eq_str(&k, "truenas-scale") || eq_str(&k, "truenas") {
        match required_host(id, host) {
            Err(e) => Err(e),
            Ok(h) => Ok(HostSource::TrueNasScale { host: h }),
        }
    } else {
        let rest = String::from_str("uses unsupported source `").concat(kind.as_str()).concat("`");
        Err(server_error(id, rest.as_str()))
    }
}

impl FileServer {
    /// The server this entry describes (see `server_from_file`).
    pub fn into_server_config(self) -> (r: Result<ServerConfig, ConfigError>)
        ensures
            match server_from_file(self@) {
                Ok(s) => r matches Ok(x) && x@ == s,
                Err(m) => r matches Err(e) && e.message@ == m,
            },
    {
        let ghost f = self@;
        require_safe_id(self.id.as_str())?;
        let name_t = trim_chars(&chars_of(self.name.as_str()));
        if name_t.len() == 0 {
            return Err(server_error(self.id.as_str(), "has an empty name"));
        }
        let (kind, table_host) = match self.source {
            SourceDef::Kind(k) => (k, None),
            SourceDef::Table { kind, host } => (kind, host),
        };
        let host = match self.host {
            Some(h) => Some(h),
            None => table_host,
        };
        let source = source_from_def(self.id.as_str(), &kind, host)?;
        let default_optional = match source {
            HostSource::Local => false,
            _ => true,
        };
        let disk_aliases = match self.disk_aliases {
            Some(a) => a,
            None => DiskAliases::new(),
        };
        Ok(
            ServerConfig {
                id: self.id,
                name: self.name,
                source,
                group: self.group,
                role: self.role,
                enabled: match self.enabled {
                    Some(b) => b,
                    None => true,
                },
                optional: match self.optional {
                    Some(b) => b,
                    None => default_optional,
                },
                disk_max_rows: self.disk_max_rows,
                disk_aliases,
            },
        )
    }
}

/// Once a prefix of the entries is refused, the whole list is refused with the
/// same message.
pub proof fn lemma_servers_error_persists(fs: Seq<FileServerView>, j: int)
    requires
        0 <= j <= fs.len(),
        servers_from_files(fs.take(j)) is Err,
    ensures
        servers_from_files(fs) == servers_from_files(fs.take(j)),
    decreases fs.len(),
{
    if j < fs.len() {
        assert(fs.drop_last().take(j) == fs.take(j));
        lemma_servers_error_persists(fs.drop_last(), j);
    } else {
        assert(fs.take(j) == fs);
    }
}

/// The host an entry gives its source: the `host` key, else the host of an
/// inline source table.
pub open spec fn entry_host(f: FileServerView) -> Option<Seq<char>> {
    match f.host {
        Some(h) => Some(h),
        None => match f.source {
            SourceDefView::Kind(_) => None,
            SourceDefView::Table(_, h) => h,
        },
    }
}

pub open spec fn entry_kind(f: FileServerView) -> Seq<char> {
    match f.source {
        SourceDefView::Kind(k) => k,
        SourceDefView::Table(k, _) => k,
    }
}

/// A source kind that talks to a host.
pub open spec fn remote_kind(kind: Seq<char>) -> bool {
    kind == "ssh"@ || kind == "proxmox"@ || kind == "truenas-scale"@ || kind == "truenas"@
}

/// What makes a server entry unusable: an id that is empty or has a
/// character other than ASCII letters, digits, `-` and `_`; a blank name; a
/// local source with a host; a remote source whose host is missing or
/// blank; or a source kind that is neither.
pub open spec fn entry_refused(f: FileServerView) -> bool {
    let kind = entry_kind(f);
    let host = entry_host(f);
    ||| !safe_id(f.id)
    ||| trim(f.name).len() == 0
    ||| kind == "local"@ && host is Some
    ||| kind != "local"@ && remote_kind(kind) && (host matches Some(h) ==> trim(h).len() == 0)
    ||| kind != "local"@ && !remote_kind(kind)
}

/// A server entry is refused exactly when it is unusable (see `entry_refused`).
pub proof fn lemma_entry_refused_exactly(f: FileServerView)
    ensures
        server_from_file(f) is Err <==> entry_refused(f),
{
}

/// A list of entries is refused exactly when one of them is.
proof fn lemma_servers_refused_exactly(fs: Seq<FileServerView>)
    ensures
        servers_from_files(fs) is Err <==> exists|i: int| 0 <= i < fs.len() && entry_refused(#[trigger] fs[i]),
    decreases fs.len(),
{
    if fs.len() > 0 {
        let t = fs.drop_last();
        lemma_servers_refused_exactly(t);
        lemma_entry_refused_exactly(fs.last());
        if exists|i: int| 0 <= i < t.len() && entry_refused(#[trigger] t[i]) {
            let i = choose|i: int| 0 <= i < t.len() && entry_refused(#[trigger] t[i]);
            assert(fs[i] == t[i]);
        }
        if exists|i: int| 0 <= i < fs.len() && entry_refused(#[trigger] fs[i]) {
            let i = choose|i: int| 0 <= i < fs.len() && entry_refused(#[trigger] fs[i]);
            if i < t.len() {
                assert(t[i] == fs[i]);
            }
        }
    }
}

/// A configuration file is refused exactly when it sets both refresh units or
/// one of its server entries is unusable (see `entry_refused`).
pub proof fn lemma_file_refused_exactly(ms: Option<u64>, secs: Option<u64>, fs: Seq<FileServerView>)
    ensures
        config_from_file(ms, secs, fs) is Err <==> (ms is Some && secs is Some) || exists|i: int|
            0 <= i < fs.len() && entry_refused(#[trigger] fs[i]),
{
    lemma_servers_refused_exactly(fs);
}

impl FileConfig {
    /// The configuration this file describes (see `config_from_file`).
    pub fn into_app_config(self) -> (r: Result<AppConfig, ConfigError>)
        ensures
            match config_from_file(
                self.refresh_interval_ms,
                self.refresh_interval_secs,
                file_server_views(self.servers@),
            ) {
                Ok(c) => r matches Ok(x) && x@ == c,
                Err(m) => r matches Err(e) && e.message@ == m,
            },
    {
        let refresh_interval_ms = match (self.refresh_interval_ms, self.refresh_interval_secs) {
            (Some(ms), None) => ms,
            (None, Some(secs)) => match secs.checked_mul(1000) {
                Some(v) => v,
                None => u64::MAX,
            },
            (None, None) => DEFAULT_REFRESH_INTERVAL_MS,
            (Some(_), Some(_)) => {
                let m = String::from_str(
                    "use only one of refresh_interval_ms or refresh_interval_secs, not both",
                );
                return Err(config_error(m));
            },
        };
        let refresh_interval_ms = if refresh_interval_ms < MIN_REFRESH_INTERVAL_MS {
            MIN_REFRESH_INTERVAL_MS
        } else if refresh_interval_ms > MAX_REFRESH_INTERVAL_MS {
            MAX_REFRESH_INTERVAL_MS
        } else {
            refresh_interval_ms
        };
        let ghost fs = file_server_views(self.servers@);
        let ghost ms0 = self.refresh_interval_ms;
        let ghost secs0 = self.refresh_interval_secs;
        assert(refresh_from_file(ms0, secs0) == Ok::<u64, Seq<char>>(refresh_interval_ms));
        let mut files = self.servers;
        let mut servers: Vec<ServerConfig> = Vec::new();
        let ghost mut k: int = 0;
        assert(fs.take(0) =~= Seq::<FileServerView>::empty());
        assert(server_views(servers@) =~= Seq::<ServerView>::empty());
        while files.len() > 0
            invariant
                0 <= k <= fs.len(),
                refresh_from_file(ms0, secs0) == Ok::<u64, Seq<char>>(refresh_interval_ms),
                ms0 == self.refresh_interval_ms,
                secs0 == self.refresh_interval_secs,
                fs == file_server_views(self.servers@),
                file_server_views(files@) == fs.skip(k),
                servers_from_files(fs.take(k)) == Ok::<Seq<ServerView>, Seq<char>>(server_views(servers@)),
            decreases files.len(),
        {
            let ghost fv = file_server_views(files@);
            let ghost before_files = files@;
            assert(fv.len() == fs.len() - k);
            assert(fv[0] == fs[k]);
            let f = files.remove(0);
            assert(f@ == fs[k]);
            assert(files@ =~= before_files.subrange(1, before_files.len() as int));
            assert(file_server_views(files@) =~= fv.subrange(1, fv.len() as int));
            assert(fs.take(k + 1).drop_last() == fs.take(k));
            assert(fs.take(k + 1).last() == fs[k]);
            let ghost before = server_views(servers@);
            let s = match f.into_server_config() {
                Ok(s) => s,
                Err(e) => {
                    proof {
                        let t = fs.take(k + 1);
                        assert(t.drop_last() == fs.take(k));
                        assert(t.last() == fs[k]);
                        assert(t.len() > 0);
                        assert(server_from_file(fs[k]) == Err::<ServerView, Seq<char>>(e.message@));
                        assert(servers_from_files(t) == Err::<Seq<ServerView>, Seq<char>>(e.message@));
                        lemma_servers_error_persists(fs, k + 1);
                    }
                    return Err(e);
                },
            };
            servers.push(s);
            assert(server_views(servers@) =~= before.push(s@));
            proof {
                k = k + 1;
            }
            assert(file_server_views(files@) =~= fs.skip(k));
        }
        assert(fs.take(k) =~= fs);
        Ok(AppConfig { refresh_interval_ms, servers })
    }
}


/// The comment block that opens every config file this program writes.
pub const CONFIG_HEADER: &'static str = "# rktop config\n# User config: ~/.config/rktop/config.toml\n# System config fallback: /etc/rktop/config.toml\n#\n# source can be:\n#   \"local\"          collect this machine directly\n#   \"ssh\"            collect via non-interactive SSH key auth\n#\n# SSH hosts should be aliases from ~/.ssh/config or user@host values that work with:\n#   ssh -o BatchMode=yes <host> true\n#\n# Optional per-server display tuning:\n#   disk_max_rows = 6\n#   disk_aliases = { \"/mnt/fast\" = \"fast\", \"/mnt/tank\" = \"tank\" }\n\n";

/// How one character is written inside a TOML basic string: backslash and
/// quote are escaped with a backslash.
pub open spec fn esc_char(c: char) -> Seq<char> {
    if c == '\\' {
        seq!['\\', '\\']
    } else if c == '"' {
        seq!['\\', '"']
    } else {
        seq![c]
    }
}

/// `s` with its backslashes and quotes escaped.
pub open spec fn escape_spec(s: Seq<char>) -> Seq<char>
    decreases s.len(),
{
    if s.len() == 0 {
        Seq::empty()
    } else {
        esc_char(s[0]) + escape_spec(s.drop_first())
    }
}

/// Reading back backslash escapes: a backslash stands for the character after it.
pub open spec fn unescape(t: Seq<char>) -> Seq<char>
    decreases t.len(),
{
    if t.len() == 0 {
        Seq::empty()
    } else if t[0] == '\\' && t.len() >= 2 {
        seq![t[1]] + unescape(t.skip(2))
    } else {
        seq![t[0]] + unescape(t.drop_first())
    }
}

pub proof fn lemma_escape_push(s: Seq<char>, c: char)
    ensures
        escape_spec(s.push(c)) == escape_spec(s) + esc_char(c),
    decreases s.len(),
{
    if s.len() == 0 {
        assert(s.push(c).drop_first() =~= Seq::<char>::empty());
        assert(s.push(c)[0] == c);
        assert(escape_spec(s.push(c).drop_first()) =~= Seq::<char>::empty());
        assert(escape_spec(s.push(c)) =~= esc_char(c) + Seq::<char>::empty());
        assert(escape_spec(s) =~= Seq::<char>::empty());
        assert(escape_spec(s.push(c)) =~= escape_spec(s) + esc_char(c));
    } else {
        lemma_escape_push(s.drop_first(), c);
        assert(s.push(c).drop_first() =~= s.drop_first().push(c));
        assert(s.push(c)[0] == s[0]);
        assert(escape_spec(s.push(c)) =~= escape_spec(s) + esc_char(c));
    }
}

/// A value written by the config writer reads back unchanged: unescaping the
/// escaped text gives the original text.
pub proof fn lemma_escape_round_trip(s: Seq<char>)
    ensures
        unescape(escape_spec(s)) == s,
    decreases s.len(),
{
    if s.len() > 0 {
        let rest = s.drop_first();
        lemma_escape_round_trip(rest);
        let e = escape_spec(s);
        let c = s[0];
        assert(e == esc_char(c) + escape_spec(rest));
        if c == '\\' || c == '"' {
            assert(e[0] == '\\' && e.len() >= 2 && e[1] == c);
            assert(e.skip(2) =~= escape_spec(rest));
        } else {
            assert(e[0] == c);
            assert(e.drop_first() =~= escape_spec(rest));
        }
        assert(unescape(e) =~= s);
    } else {
        assert(escape_spec(s) =~= Seq::<char>::empty());
        assert(s =~= Seq::<char>::empty());
    }
}

/// `value` with its backslashes and quotes escaped for a TOML basic string.
pub fn escape_toml_string(value: &str) -> (r: String)
    ensures
        r@ == escape_spec(value@),
{
    let v = chars_of(value);
    let mut out: Vec<char> = Vec::new();
    let mut i: usize = 0;
    assert(v@.take(0) =~= Seq::<char>::empty());
    assert(escape_spec(Seq::<char>::empty()) =~= Seq::<char>::empty());
    while i < v.len()
        invariant
            i <= v.len(),
            out@ == escape_spec(v@.take(i as int)),
        decreases v.len() - i,
    {
        let c = v[i];
        proof {
            lemma_escape_push(v@.take(i as int), c);
            assert(v@.take(i + 1) =~= v@.take(i as int).push(c));
        }
        let ghost before = out@;
        if c == '\\' {
            out.push('\\');
            out.push('\\');
        } else if c == '"' {
            out.push('\\');
            out.push('"');
        } else {
            out.push(c);
        }
        assert(out@ =~= before + esc_char(c));
        i = i + 1;
    }
    assert(v@.take(v.len() as int) == v@);
    string_of(&out)
}

/// One `key = "value"` line.
pub open spec fn toml_kv(key: Seq<char>, value: Seq<char>) -> Seq<char> {
    key + " = \""@ + escape_spec(value) + "\"\n"@
}

/// Appends a `key = "value"` line, the value escaped.
pub fn push_toml_string(output: &mut String, key: &str, value: &str)
    ensures
        final(output)@ == old(output)@ + toml_kv(key@, value@),
{
    let e = escape_toml_string(value);
    output.append(key);
    output.append(" = \"");
    output.append(e.as_str());
    output.append("\"\n");
}

pub open spec fn bool_text(b: bool) -> Seq<char> {
    if b {
        "true"@
    } else {
        "false"@
    }
}

/// One `"mount" = "alias"` pair of an inline table.
pub open spec fn alias_pair(p: (Seq<char>, Seq<char>)) -> Seq<char> {
    "\""@ + escape_spec(p.0) + "\" = \""@ + escape_spec(p.1) + "\""@
}

/// The pairs, separated by `, `.
pub open spec fn alias_pairs(e: Seq<(Seq<char>, Seq<char>)>) -> Seq<char>
    decreases e.len(),
{
    if e.len() == 0 {
        Seq::empty()
    } else if e.len() == 1 {
        alias_pair(e[0])
    } else {
        alias_pairs(e.drop_last()) + ", "@ + alias_pair(e.last())
    }
}

/// The opening of a `[[servers]]` table: id and name, then group and role when set.
pub open spec fn server_head(s: ServerView) -> Seq<char> {
    "\n[[servers]]\n"@ + toml_kv("id"@, s.id) + toml_kv("name"@, s.name) + (match s.group {
        Some(g) => toml_kv("group"@, g),
        None => Seq::empty(),
    }) + (match s.role {
        Some(g) => toml_kv("role"@, g),
        None => Seq::empty(),
    })
}

/// The `enabled` and `optional` lines.
pub open spec fn server_flags(s: ServerView) -> Seq<char> {
    "enabled = "@ + bool_text(s.enabled) + "\n"@ + "optional = "@ + bool_text(s.optional) + "\n"@
}

/// The disk row limit and the disk aliases, each only when set.
pub open spec fn server_disks(s: ServerView) -> Seq<char> {
    (match s.disk_max_rows {
        Some(r) => "disk_max_rows = "@ + decimal(r as nat) + "\n"@,
        None => Seq::empty(),
    }) + (if s.disk_aliases.len() == 0 {
        Seq::empty()
    } else {
        "disk_aliases = { "@ + alias_pairs(s.disk_aliases) + " }\n"@
    })
}

/// The source kind, and its host where it has one.
pub open spec fn server_source(s: ServerView) -> Seq<char> {
    toml_kv("source"@, kind_name(s.source)) + (match endpoint_of(s.source) {
        Some(h) => toml_kv("host"@, h),
        None => Seq::empty(),
    })
}

/// The `[[servers]]` table of one server.
pub open spec fn server_toml(s: ServerView) -> Seq<char> {
    server_head(s) + server_flags(s) + server_disks(s) + server_source(s)
}

pub open spec fn servers_toml(s: Seq<ServerView>) -> Seq<char>
    decreases s.len(),
{
    if s.len() == 0 {
        Seq::empty()
    } else {
        servers_toml(s.drop_last()) + server_toml(s.last())
    }
}

/// The canonical config text: the comment header, the refresh interval, then
/// every server in order.
pub open spec fn canonical_toml(c: AppView) -> Seq<char> {
    CONFIG_HEADER@ + "refresh_interval_ms = "@ + decimal(c.refresh_interval_ms as nat) + "\n"@
        + servers_toml(c.servers)
}

fn push_bool(output: &mut String, b: bool)
    ensures
        final(output)@ == old(output)@ + bool_text(b),
{
    if b {
        output.append("true");
    } else {
        output.append("false");
    }
}

fn push_alias_pairs(output: &mut String, aliases: &DiskAliases)
    ensures
        final(output)@ == old(output)@ + alias_pairs(aliases@),
{
    let ghost start = output@;
    let ghost e = aliases@;
    let n = aliases.len();
    let mut i: usize = 0;
    assert(alias_pairs(e.take(0)) =~= Seq::<char>::empty());
    while i < n
        invariant
            i <= n == e.len(),
            e == aliases@,
            output@ == start + alias_pairs(e.take(i as int)),
        decreases n - i,
    {
        let (m, a) = aliases.entry(i);
        let ghost before = output@;
        assert(e.take(i + 1).drop_last() =~= e.take(i as int));
        assert(e.take(i + 1).last() == e[i as int]);
        if i > 0 {
            output.append(", ");
        }
        output.append("\"");
        output.append(escape_toml_string(m.as_str()).as_str());
        output.append("\" = \"");
        output.append(escape_toml_string(a.as_str()).as_str());
        output.append("\"");
        if i == 0 {
            assert(e.take(1)[0] == e[0]);
            assert(output@ =~= start + alias_pairs(e.take(1)));
        } else {
            assert(output@ =~= start + alias_pairs(e.take(i + 1)));
        }
        i = i + 1;
    }
    assert(e.take(n as int) == e);
}

fn push_server_head(output: &mut String, server: &ServerConfig)
    ensures
        final(output)@ == old(output)@ + server_head(server@),
{
    let ghost start = output@;
    output.append("\n[[servers]]\n");
    push_toml_string(output, "id", server.id.as_str());
    push_toml_string(output, "name", server.name.as_str());
    match &server.group {
        Some(g) => push_toml_string(output, "group", g.as_str()),
        None => {},
    }
    match &server.role {
        Some(g) => push_toml_string(output, "role", g.as_str()),
        None => {},
    }
    assert(output@ =~= start + server_head(server@));
}

fn push_server_flags(output: &mut String, server: &ServerConfig)
    ensures
        final(output)@ == old(output)@ + server_flags(server@),
{
    let ghost start = output@;
    output.append("enabled = ");
    push_bool(output, server.enabled);
    output.append("\n");
    output.append("optional = ");
    push_bool(output, server.optional);
    output.append("\n");
    assert(output@ =~= start + server_flags(server@));
}

fn push_server_disks(output: &mut String, server: &ServerConfig)
    ensures
        final(output)@ == old(output)@ + server_disks(server@),
{
    let ghost start = output@;
    match server.disk_max_rows {
        Some(rows) => {
            output.append("disk_max_rows = ");
            output.append(u64_text(rows as u64).as_str());
            output.append("\n");
        },
        None => {},
    }
    let ghost mid = output@;
    if !server.disk_aliases.is_empty() {
        output.append("disk_aliases = { ");
        push_alias_pairs(output, &server.disk_aliases);
        output.append(" }\n");
    }
    assert(output@ =~= start + server_disks(server@));
}

fn push_server_source(output: &mut String, server: &ServerConfig)
    ensures
        final(output)@ == old(output)@ + server_source(server@),
{
    let ghost start = output@;
    push_toml_string(output, "source", server.source.kind());
    match server.source.endpoint() {
        Some(h) => push_toml_string(output, "host", h),
        None => {},
    }
    assert(output@ =~= start + server_source(server@));
}

fn push_server_toml(output: &mut String, server: &ServerConfig)
    ensures
        final(output)@ == old(output)@ + server_toml(server@),
{
    let ghost start = output@;
    push_server_head(output, server);
    push_server_flags(output, server);
    push_server_disks(output, server);
    push_server_source(output, server);
    assert(output@ =~= start + server_toml(server@));
}

/// The canonical config text of `config` (see `canonical_toml`).
pub fn canonical_config_toml(config: &AppConfig) -> (r: String)
    ensures
        r@ == canonical_toml(config@),
{
    let mut output = String::from_str(CONFIG_HEADER);
    output.append("refresh_interval_ms = ");
    output.append(u64_text(config.refresh_interval_ms).as_str());
    output.append("\n");
    let ghost start = output@;
    let ghost sv = config@.servers;
    let mut i: usize = 0;
    assert(servers_toml(sv.take(0)) =~= Seq::<char>::empty());
    while i < config.servers.len()
        invariant
            i <= config.servers@.len() == sv.len(),
            sv == config@.servers,
            output@ == start + servers_toml(sv.take(i as int)),
        decreases config.servers.len() - i,
    {
        push_server_toml(&mut output, &config.servers[i]);
        assert(sv.take(i + 1).drop_last() =~= sv.take(i as int));
        assert(sv.take(i + 1).last() == config.servers@[i as int]@);
        assert(output@ =~= start + servers_toml(sv.take(i + 1)));
        i = i + 1;
    }
    assert(sv.take(config.servers@.len() as int) == sv);
    assert(output@ =~= canonical_toml(config@));
    output
}

/// The text of the first-run configuration.
pub fn default_config_toml() -> (r: String)
    ensures
        r@ == canonical_toml(AppView { refresh_interval_ms: DEFAULT_REFRESH_INTERVAL_MS, servers: Seq::empty() }),
{
    let c = default_config();
    assert(c@.servers =~= Seq::<ServerView>::empty());
    canonical_config_toml(&c)
}

/// The text saved for `config`: its canonical text.
pub fn config_to_toml(config: &AppConfig) -> (r: String)
    ensures
        r@ == canonical_toml(config@),
{
    canonical_config_toml(config)
}

/// The example config: the first-run configuration's text.
pub fn example_config_toml() -> (r: String)
    ensures
        r@ == canonical_toml(AppView { refresh_interval_ms: DEFAULT_REFRESH_INTERVAL_MS, servers: Seq::empty() }),
{
    default_config_toml()
}

} // verus!
