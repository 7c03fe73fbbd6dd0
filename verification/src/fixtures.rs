//! Sample hosts for the mock dashboard. Each enabled server of the
//! configuration gets figures that grow with its position (1 for the first),
//! so that the cards differ and stay the same from run to run.
use vstd::prelude::*;
use crate::config::{
    default_servers, enabled_views, opt_text, server_views, AppConfig, ServerConfig, ServerView,
};
use crate::model::{
    endpoint_of, DiskMetrics, DiskView, Freshness, HostFacts, HostSource, HostStatus, NetworkMetrics,
    RamMetrics, SourceView, StorageMetrics, disk_views,
};
use crate::text::{ascii_lower, ascii_lowercase, decimal, eq_str, chars_of, u64_text};

verus! {

/// 2027-01-01T00:00:00Z in seconds: a fixed collection time, so that the
/// display order is stable.
pub const FIXTURE_TIME_SECS: u64 = 1_798_838_400;

/// Sample figures stay fresh for a minute, in nanoseconds.
pub const FIXTURE_STALE_AFTER_NANOS: u128 = 60_000_000_000;

/// One GiB in KiB.
pub const GIB_KIB: u64 = 1_048_576;

/// The largest position whose root disk still has room (40 + 11 * 19 = 249
/// of 256 GiB used).
pub const MAX_FIXTURE_POSITION: u64 = 19;

/// A sample host: its facts, and the CPU figures in whole units. The
/// load averages are a tenth, eight hundredths and five hundredths of
/// `load_factor`.
pub struct FixtureHost {
    pub facts: HostFacts,
    pub load_factor: Option<u64>,
    pub cpu_usage_percent: Option<u64>,
    pub cpu_temperature_celsius: Option<u64>,
}

pub open spec fn fixture_freshness_spec() -> Freshness {
    Freshness {
        collected_at_nanos: (FIXTURE_TIME_SECS as i128 * 1_000_000_000) as i128,
        stale_after_nanos: FIXTURE_STALE_AFTER_NANOS,
    }
}

fn fixture_freshness() -> (r: Freshness)
    ensures
        r == fixture_freshness_spec(),
{
    Freshness {
        collected_at_nanos: (FIXTURE_TIME_SECS as i128) * 1_000_000_000,
        stale_after_nanos: FIXTURE_STALE_AFTER_NANOS,
    }
}

/// The host name shown for a source: `local-host` for this machine, else
/// the host in ASCII lower case.
pub open spec fn fixture_hostname_spec(s: SourceView) -> Seq<char> {
    match endpoint_of(s) {
        None => "local-host"@,
        Some(h) => h.map_values(|c: char| ascii_lower(c)),
    }
}

/// The used root space at `position`: 40 GiB and 11 GiB more per position.
pub open spec fn root_used_kib(position: u64) -> u64 {
    ((40 + position * 11) * GIB_KIB) as u64
}

pub open spec fn disk_view(mount: Seq<char>, total: u64, used: u64, available: u64) -> DiskView {
    DiskView { mount, total_kib: total, used_kib: used, available_kib: available }
}

/// A 256 GiB root disk; the `storage` server also has an 8 TiB `/mnt/tank`
/// (5 TiB used) and a 4 TiB `/mnt/backup` (1 TiB used).
pub open spec fn fixture_disks_spec(server_id: Seq<char>, position: u64) -> Seq<DiskView> {
    let total = (256 * GIB_KIB) as u64;
    let root = disk_view("/"@, total, root_used_kib(position), (total - root_used_kib(position)) as u64);
    if server_id == "storage"@ {
        seq![
            root,
            disk_view("/mnt/tank"@, (8 * 1024 * GIB_KIB) as u64, (5 * 1024 * GIB_KIB) as u64, (3 * 1024 * GIB_KIB) as u64),
            disk_view("/mnt/backup"@, (4 * 1024 * GIB_KIB) as u64, (1024 * GIB_KIB) as u64, (3 * 1024 * GIB_KIB) as u64),
        ]
    } else {
        seq![root]
    }
}

fn disk(mount: &str, total_kib: u64, used_kib: u64, available_kib: u64) -> (r: DiskMetrics)
    ensures
        r@ == disk_view(mount@, total_kib, used_kib, available_kib),
{
    DiskMetrics { mount: String::from_str(mount), total_kib, used_kib, available_kib }
}

pub fn fixture_disks(server_id: &str, position: u64) -> (r: Vec<DiskMetrics>)
    requires
        position <= MAX_FIXTURE_POSITION,
    ensures
        disk_views(r@) == fixture_disks_spec(server_id@, position),
{
    let root_used = (40 + position * 11) * GIB_KIB;
    let total = 256 * GIB_KIB;
    let mut disks: Vec<DiskMetrics> = Vec::new();
    disks.push(disk("/", total, root_used, total - root_used));
    if eq_str(&chars_of(server_id), "storage") {
        disks.push(disk("/mnt/tank", 8 * 1024 * GIB_KIB, 5 * 1024 * GIB_KIB, 3 * 1024 * GIB_KIB));
        disks.push(disk("/mnt/backup", 4 * 1024 * GIB_KIB, 1024 * GIB_KIB, 3 * 1024 * GIB_KIB));
    }
    assert(disk_views(disks@) =~= fixture_disks_spec(server_id@, position));
    disks
}

/// The CPU temperature of the sample servers that report one: `server-1`
/// at 74 °C and `storage` at 58 °C, plus the position.
pub open spec fn fixture_temperature_spec(server_id: Seq<char>, position: u64) -> Option<u64> {
    if server_id == "server-1"@ {
        Some((74 + position) as u64)
    } else if server_id == "storage"@ {
        Some((58 + position) as u64)
    } else {
        None
    }
}

/// `h` is the sample host of server `v` at `position`.
pub open spec fn is_fixture_of(h: FixtureHost, v: ServerView, position: u64) -> bool {
    let f = h.facts;
    let gib = GIB_KIB as int;
    &&& f.id@ == v.id && f.name@ == v.name && f.source@ == v.source
    &&& opt_text(f.group) == v.group && opt_text(f.role) == v.role
    &&& opt_text(f.hostname) == Some(fixture_hostname_spec(v.source))
    &&& opt_text(f.kernel) == Some("Linux 6.8."@ + decimal(position as nat) + "-fixture"@)
    &&& f.uptime_seconds == Some((position * 86_400 + 25 * 60) as u64)
    &&& f.status == HostStatus::Online && f.error is None
    &&& f.freshness == fixture_freshness_spec()
    &&& f.cores == Some((2 + position) as u16)
    &&& f.ram == (RamMetrics {
        total_kib: Some(((8 + position) * gib) as u64),
        available_kib: Some(((3 + position) * gib) as u64),
        used_kib: Some(((5 + position) * gib) as u64),
    })
    &&& f.network == (NetworkMetrics {
        rx_bytes_total: Some((position * 1_000_000_000) as u64),
        tx_bytes_total: Some((position * 500_000_000) as u64),
    })
    &&& f.storage.root_total_kib == Some((256 * gib) as u64)
    &&& f.storage.root_used_kib == Some(root_used_kib(position))
    &&& f.storage.root_available_kib == Some(((216 - position * 11) * gib) as u64)
    &&& disk_views(f.storage.disks@) == fixture_disks_spec(v.id, position)
    &&& h.load_factor == Some(position)
    &&& h.cpu_usage_percent == Some((10 + 7 * position) as u64)
    &&& h.cpu_temperature_celsius == fixture_temperature_spec(v.id, position)
}

/// The sample host of `server` when it is the enabled server at `offset`
/// (its position is `offset + 1`).
pub fn fixture_for_server(server: &ServerConfig, offset: u64) -> (r: FixtureHost)
    requires
        offset < MAX_FIXTURE_POSITION,
    ensures
        is_fixture_of(r, server@, (offset + 1) as u64),
{
    let base = offset + 1;
    let hostname = match server.source.endpoint() {
        None => String::from_str("local-host"),
        Some(h) => ascii_lowercase(h),
    };
    let kernel = String::from_str("Linux 6.8.").concat(u64_text(base).as_str()).concat("-fixture");
    let id = chars_of(server.id.as_str());
    let temperature = if eq_str(&id, "server-1") {
        Some(74 + base)
    } else if eq_str(&id, "storage") {
        Some(58 + base)
    } else {
        None
    };
    let storage = StorageMetrics {
        root_total_kib: Some(256 * GIB_KIB),
        root_used_kib: Some((40 + base * 11) * GIB_KIB),
        root_available_kib: Some((216 - base * 11) * GIB_KIB),
        disks: fixture_disks(server.id.as_str(), base),
    };
    let facts = HostFacts {
        id: server.id.clone(),
        name: server.name.clone(),
        hostname: Some(hostname),
        kernel: Some(kernel),
        uptime_seconds: Some(base * 86_400 + 25 * 60),
        group: server.group.clone(),
        role: server.role.clone(),
        source: server.source.duplicate(),
        status: HostStatus::Online,
        error: None,
        freshness: fixture_freshness(),
        cores: Some(2 + base as u16),
        ram: RamMetrics {
            total_kib: Some((8 + base) * GIB_KIB),
            available_kib: Some((3 + base) * GIB_KIB),
            used_kib: Some((5 + base) * GIB_KIB),
        },
        network: NetworkMetrics {
            rx_bytes_total: Some(base * 1_000_000_000),
            tx_bytes_total: Some(base * 500_000_000),
        },
        storage,
    };
    FixtureHost {
        facts,
        load_factor: Some(base),
        cpu_usage_percent: Some(10 + 7 * base),
        cpu_temperature_celsius: temperature,
    }
}

/// The sample hosts of the enabled servers, in order: the `i`-th at
/// position `i + 1`.
pub fn fixture_hosts_for_servers(servers: &Vec<ServerConfig>) -> (r: Vec<FixtureHost>)
    requires
        enabled_views(server_views(servers@)).len() <= MAX_FIXTURE_POSITION,
    ensures
        r@.len() == enabled_views(server_views(servers@)).len(),
        forall|i: int|
            0 <= i < r@.len() ==> is_fixture_of(
                #[trigger] r@[i],
                enabled_views(server_views(servers@))[i],
                (i + 1) as u64,
            ),
{
    let ghost all = server_views(servers@);
    let mut out: Vec<FixtureHost> = Vec::new();
    let mut i: usize = 0;
    proof {
        reveal_with_fuel(Seq::<ServerView>::filter, 1);
    }
    assert(all.take(0).filter(|v: ServerView| v.enabled) =~= Seq::<ServerView>::empty());
    while i < servers.len()
        invariant
            i <= servers@.len(),
            all == server_views(servers@),
            all.len() == servers@.len(),
            enabled_views(all).len() <= MAX_FIXTURE_POSITION,
            out@.len() == all.take(i as int).filter(|v: ServerView| v.enabled).len(),
            forall|k: int|
                0 <= k < out@.len() ==> is_fixture_of(
                    #[trigger] out@[k],
                    all.take(i as int).filter(|v: ServerView| v.enabled)[k],
                    (k + 1) as u64,
                ),
        decreases servers.len() - i,
    {
        let ghost before = all.take(i as int).filter(|v: ServerView| v.enabled);
        proof {
            reveal_with_fuel(Seq::<ServerView>::filter, 1);
            assert(all.take(i + 1).drop_last() == all.take(i as int));
        }
        assert(all[i as int] == servers@[i as int]@);
        if servers[i].enabled {
            assert(all.take(i + 1).filter(|v: ServerView| v.enabled) =~= before.push(all[i as int]));
            proof {
                all.lemma_filter_take_len(|v: ServerView| v.enabled, i + 1);
            }
            let offset = out.len() as u64;
            let h = fixture_for_server(&servers[i], offset);
            out.push(h);
            assert(all.take(i + 1).filter(|v: ServerView| v.enabled) =~= before.push(all[i as int]));
        } else {
            assert(all.take(i + 1).filter(|v: ServerView| v.enabled) =~= before);
        }
        i = i + 1;
    }
    assert(all.take(servers@.len() as int) == all);
    out
}

/// The sample hosts of the first-run servers (there are none).
pub fn fixture_hosts() -> (r: Vec<FixtureHost>)
    ensures
        r@.len() == 0,
{
    let servers = default_servers();
    assert(enabled_views(server_views(servers@)) =~= Seq::<ServerView>::empty()) by {
        reveal_with_fuel(Seq::<ServerView>::filter, 1);
        assert(server_views(servers@) =~= Seq::<ServerView>::empty());
    }
    fixture_hosts_for_servers(&servers)
}

/// The sample hosts of a configuration's enabled servers.
pub fn fixture_hosts_for_config(config: &AppConfig) -> (r: Vec<FixtureHost>)
    requires
        enabled_views(config@.servers).len() <= MAX_FIXTURE_POSITION,
    ensures
        r@.len() == enabled_views(config@.servers).len(),
        forall|i: int|
            0 <= i < r@.len() ==> is_fixture_of(#[trigger] r@[i], enabled_views(config@.servers)[i], (i + 1) as u64),
{
    fixture_hosts_for_servers(&config.servers)
}

/// The sample of a disabled optional server: no figures, status `Disabled`,
/// host name `optional-server`, and an error that says it is offline.
pub open spec fn is_disabled_fixture(h: FixtureHost) -> bool {
    let f = h.facts;
    &&& f.id@ == "optional-server"@ && f.name@ == "Optional Server"@
    &&& f.source@ == SourceView::Ssh("optional-server"@)
    &&& opt_text(f.group) == Some("Optional"@) && opt_text(f.role) == Some("Optional Server"@)
    &&& opt_text(f.hostname) == Some("optional-server"@)
    &&& opt_text(f.error) == Some("disabled fixture: optional server is offline"@)
    &&& f.status == HostStatus::Disabled
    &&& f.freshness == fixture_freshness_spec()
    &&& f.kernel is None && f.uptime_seconds is None && f.cores is None
    &&& f.ram == RamMetrics::empty_spec() && f.network == NetworkMetrics::empty_spec()
    &&& f.storage.root_total_kib is None && f.storage.disks@.len() == 0
    &&& h.load_factor is None && h.cpu_usage_percent is None && h.cpu_temperature_celsius is None
}

pub fn disabled_optional_fixture() -> (r: FixtureHost)
    ensures
        is_disabled_fixture(r),
{
    let server = ServerConfig::ssh("optional-server", "Optional Server", "optional-server")
        .with_group("Optional")
        .with_role("Optional Server")
        .optional(true)
        .enabled(false);
    let mut facts = HostFacts::disabled(
        server.id.clone(),
        server.name.clone(),
        server.source.duplicate(),
        server.group.clone(),
        server.role.clone(),
    );
    facts.hostname = Some(String::from_str("optional-server"));
    facts.error = Some(String::from_str("disabled fixture: optional server is offline"));
    facts.freshness = fixture_freshness();
    FixtureHost { facts, load_factor: None, cpu_usage_percent: None, cpu_temperature_celsius: None }
}

/// The first-run samples followed by the disabled optional sample.
pub fn fixture_hosts_with_disabled() -> (r: Vec<FixtureHost>)
    ensures
        r@.len() == 1,
        is_disabled_fixture(r@[0]),
{
    let mut hosts = fixture_hosts();
    hosts.push(disabled_optional_fixture());
    hosts
}

} // verus!
