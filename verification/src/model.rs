//! The data that collectors produce and the dashboard shows.
use vstd::prelude::*;

verus! {

/// Where a host's metrics come from.
#[derive(Clone, Debug, PartialEq, Eq)]
pub enum HostSource {
    Local,
    Ssh { host: String },
    Proxmox { host: String },
    TrueNasScale { host: String },
}

/// The abstract value of a source: its kind and, except for a local source, its host text.
pub enum SourceView {
    Local,
    Ssh(Seq<char>),
    Proxmox(Seq<char>),
    TrueNasScale(Seq<char>),
}

impl View for HostSource {
    type V = SourceView;

    open spec fn view(&self) -> SourceView {
        match self {
            HostSource::Local => SourceView::Local,
            HostSource::Ssh { host } => SourceView::Ssh(host@),
            HostSource::Proxmox { host } => SourceView::Proxmox(host@),
            HostSource::TrueNasScale { host } => SourceView::TrueNasScale(host@),
        }
    }
}

/// The configuration name of a source kind.
pub open spec fn kind_name(s: SourceView) -> Seq<char> {
    match s {
        SourceView::Local => "local"@,
        SourceView::Ssh(_) => "ssh"@,
        SourceView::Proxmox(_) => "proxmox"@,
        SourceView::TrueNasScale(_) => "truenas-scale"@,
    }
}

/// The host that a remote source talks to.
pub open spec fn endpoint_of(s: SourceView) -> Option<Seq<char>> {
    match s {
        SourceView::Local => None,
        SourceView::Ssh(h) => Some(h),
        SourceView::Proxmox(h) => Some(h),
        SourceView::TrueNasScale(h) => Some(h),
    }
}

/// `local`, or the kind, a colon and the host (as the source is shown to users).
pub open spec fn source_text(s: SourceView) -> Seq<char> {
    match endpoint_of(s) {
        None => "local"@,
        Some(h) => kind_name(s) + ":"@ + h,
    }
}

impl HostSource {
    pub fn local() -> (r: Self)
        ensures
            r@ == SourceView::Local,
    {
        HostSource::Local
    }

    pub fn ssh(host: &str) -> (r: Self)
        ensures
            r@ == SourceView::Ssh(host@),
    {
        HostSource::Ssh { host: host.to_owned() }
    }

    pub fn proxmox(host: &str) -> (r: Self)
        ensures
            r@ == SourceView::Proxmox(host@),
    {
        HostSource::Proxmox { host: host.to_owned() }
    }

    pub fn truenas_scale(host: &str) -> (r: Self)
        ensures
            r@ == SourceView::TrueNasScale(host@),
    {
        HostSource::TrueNasScale { host: host.to_owned() }
    }

    pub fn kind(&self) -> (r: &'static str)
        ensures
            r@ == kind_name(self@),
    {
        match self {
            HostSource::Local => "local",
            HostSource::Ssh { .. } => "ssh",
            HostSource::Proxmox { .. } => "proxmox",
            HostSource::TrueNasScale { .. } => "truenas-scale",
        }
    }

    pub fn endpoint(&self) -> (r: Option<&str>)
        ensures
            match endpoint_of(self@) {
                Some(h) => r matches Some(x) && x@ == h,
                None => r is None,
            },
    {
        match self {
            HostSource::Local => None,
            HostSource::Ssh { host } => Some(host.as_str()),
            HostSource::Proxmox { host } => Some(host.as_str()),
            HostSource::TrueNasScale { host } => Some(host.as_str()),
        }
    }

    /// The source as users see it: `local`, `ssh:host`, `proxmox:host`, `truenas-scale:host`.
    pub fn to_display_string(&self) -> (r: String)
        ensures
            r@ == source_text(self@),
    {
        match self.endpoint() {
            None => String::from_str("local"),
            Some(h) => {
                let s = String::from_str(self.kind());
                let s = s.concat(":");
                s.concat(h)
            },
        }
    }

    /// A copy of this source.
    pub fn duplicate(&self) -> (r: Self)
        ensures
            r@ == self@,
    {
        match self {
            HostSource::Local => HostSource::Local,
            HostSource::Ssh { host } => HostSource::Ssh { host: host.clone() },
            HostSource::Proxmox { host } => HostSource::Proxmox { host: host.clone() },
            HostSource::TrueNasScale { host } => HostSource::TrueNasScale { host: host.clone() },
        }
    }
}

/// One mounted filesystem as a collector reports it.
#[derive(Clone, Debug, PartialEq, Eq)]
pub struct DiskMetrics {
    pub mount: String,
    pub total_kib: u64,
    pub used_kib: u64,
    pub available_kib: u64,
}

pub struct DiskView {
    pub mount: Seq<char>,
    pub total_kib: u64,
    pub used_kib: u64,
    pub available_kib: u64,
}

impl View for DiskMetrics {
    type V = DiskView;

    open spec fn view(&self) -> DiskView {
        DiskView {
            mount: self.mount@,
            total_kib: self.total_kib,
            used_kib: self.used_kib,
            available_kib: self.available_kib,
        }
    }
}

pub open spec fn disk_views(v: Seq<DiskMetrics>) -> Seq<DiskView> {
    v.map_values(|d: DiskMetrics| d@)
}

#[derive(Clone, Debug, PartialEq, Eq)]
pub struct RamMetrics {
    pub total_kib: Option<u64>,
    pub available_kib: Option<u64>,
    pub used_kib: Option<u64>,
}

impl RamMetrics {
    pub fn empty() -> (r: Self)
        ensures
            r.total_kib is None,
            r.available_kib is None,
            r.used_kib is None,
    {
        RamMetrics { total_kib: None, available_kib: None, used_kib: None }
    }
}

#[derive(Clone, Debug, PartialEq, Eq)]
pub struct NetworkMetrics {
    pub rx_bytes_total: Option<u64>,
    pub tx_bytes_total: Option<u64>,
}

impl NetworkMetrics {
    pub fn empty() -> (r: Self)
        ensures
            r.rx_bytes_total is None,
            r.tx_bytes_total is None,
    {
        NetworkMetrics { rx_bytes_total: None, tx_bytes_total: None }
    }
}

#[derive(Clone, Debug, PartialEq, Eq)]
pub struct StorageMetrics {
    pub root_total_kib: Option<u64>,
    pub root_used_kib: Option<u64>,
    pub root_available_kib: Option<u64>,
    pub disks: Vec<DiskMetrics>,
}

impl StorageMetrics {
    pub fn empty() -> (r: Self)
        ensures
            r.root_total_kib is None,
            r.root_used_kib is None,
            r.root_available_kib is None,
            r.disks@.len() == 0,
    {
        StorageMetrics {
            root_total_kib: None,
            root_used_kib: None,
            root_available_kib: None,
            disks: Vec::new(),
        }
    }
}

/// When metrics were collected and how long they stay fresh, in nanoseconds:
/// the time as nanoseconds since the Unix epoch (negative before it).
#[derive(Clone, Copy, Debug, PartialEq, Eq)]
pub struct Freshness {
    pub collected_at_nanos: i128,
    pub stale_after_nanos: u128,
}

#[verifier::external_type_specification]
#[verifier::external_body]
pub struct ExSystemTime(std::time::SystemTime);

#[verifier::external_type_specification]
#[verifier::external_body]
pub struct ExSystemTimeError(std::time::SystemTimeError);

/// `SystemTime::now`: the time of the system clock. Nothing is stated of it:
/// it is whatever the clock reads.
#[verifier::external_body]
fn system_now() -> (r: std::time::SystemTime) {
    std::time::SystemTime::now()
}

/// `SystemTime::duration_since(UNIX_EPOCH)`: how long after the epoch `t` is,
/// or, for a time before the epoch, an error holding how long before. Nothing
/// is stated of the values, which are opaque here.
#[verifier::external_body]
fn since_epoch(t: &std::time::SystemTime) -> (r: Result<core::time::Duration, std::time::SystemTimeError>) {
    t.duration_since(std::time::UNIX_EPOCH)
}

/// `SystemTimeError::duration`: how far the time lay before the epoch.
#[verifier::external_body]
fn error_duration(e: &std::time::SystemTimeError) -> (r: core::time::Duration) {
    e.duration()
}

/// `Duration::as_nanos`: the whole duration in nanoseconds. A `Duration`
/// holds at most `u64::MAX` seconds and fewer than 10^9 further nanoseconds,
/// which bounds the result; its value is not stated otherwise.
#[verifier::external_body]
fn duration_nanos(d: &core::time::Duration) -> (r: u128)
    ensures
        r < (u64::MAX as u128 + 1) * 1_000_000_000,
{
    d.as_nanos()
}

/// The time of the system clock in nanoseconds since the Unix epoch,
/// negative for a clock set before it.
fn unix_time_nanos() -> (r: i128)
    ensures
        -((u64::MAX as int + 1) * 1_000_000_000) < r < (u64::MAX as int + 1) * 1_000_000_000,
{
    let now = system_now();
    match since_epoch(&now) {
        Ok(after) => duration_nanos(&after) as i128,
        Err(e) => {
            let before = error_duration(&e);
            -(duration_nanos(&before) as i128)
        },
    }
}

/// The time from `from` to `to` in nanoseconds, when `to` is not earlier.
pub open spec fn elapsed_nanos(from: i128, to: i128) -> Option<int> {
    if to >= from {
        Some(to - from)
    } else {
        None
    }
}

impl Freshness {
    /// Metrics collected now that go stale after `stale_after_nanos`; the
    /// time is the system clock's, within what a `SystemTime` can lie from
    /// the epoch.
    pub fn now(stale_after_nanos: u128) -> (r: Self)
        ensures
            r.stale_after_nanos == stale_after_nanos,
            -((u64::MAX as int + 1) * 1_000_000_000) < r.collected_at_nanos < (u64::MAX as int + 1)
                * 1_000_000_000,
    {
        Freshness { collected_at_nanos: unix_time_nanos(), stale_after_nanos }
    }

    /// Whether, at `now_nanos`, more than `stale_after_nanos` have passed since
    /// collection; a time before the collection is never stale.
    pub fn is_stale_at(&self, now_nanos: i128) -> (r: bool)
        ensures
            r == (elapsed_nanos(self.collected_at_nanos, now_nanos) matches Some(age) && age
                > self.stale_after_nanos),
    {
        if now_nanos < self.collected_at_nanos {
            return false;
        }
        let age: u128 = if self.collected_at_nanos >= 0 || now_nanos < 0 {
            (now_nanos - self.collected_at_nanos) as u128
        } else {
            now_nanos as u128 + ((-(self.collected_at_nanos + 1)) as u128) + 1
        };
        age > self.stale_after_nanos
    }
}

#[derive(Clone, Copy, Debug, PartialEq, Eq, Structural)]
pub enum HostStatus {
    Online,
    Degraded,
    Offline,
    Disabled,
    Unknown,
}

/// A host's collected figures apart from the CPU readings (which are
/// fractional): identity, source, status, freshness and the integer metrics.
#[derive(Clone, Debug, PartialEq, Eq)]
pub struct HostFacts {
    pub id: String,
    pub name: String,
    pub hostname: Option<String>,
    pub kernel: Option<String>,
    pub uptime_seconds: Option<u64>,
    pub group: Option<String>,
    pub role: Option<String>,
    pub source: HostSource,
    pub status: HostStatus,
    pub error: Option<String>,
    pub freshness: Freshness,
    pub cores: Option<u16>,
    pub ram: RamMetrics,
    pub network: NetworkMetrics,
    pub storage: StorageMetrics,
}

/// Disabled hosts stay fresh for a minute, in nanoseconds.
pub const DISABLED_STALE_AFTER_NANOS: u128 = 60_000_000_000;

impl HostFacts {
    /// A host that the configuration disables: no figures, status
    /// `Disabled`, and the error that says so.
    pub fn disabled(id: String, name: String, source: HostSource, group: Option<String>, role: Option<String>) -> (r: Self)
        ensures
            r.id == id && r.name == name && r.source == source && r.group == group && r.role == role,
            r.hostname is None && r.kernel is None && r.uptime_seconds is None && r.cores is None,
            r.status == HostStatus::Disabled,
            r.error matches Some(e) && e@ == "host disabled in config"@,
            r.freshness.stale_after_nanos == DISABLED_STALE_AFTER_NANOS,
            r.ram == RamMetrics::empty_spec(),
            r.network == NetworkMetrics::empty_spec(),
            r.storage.root_total_kib is None && r.storage.root_used_kib is None
                && r.storage.root_available_kib is None && r.storage.disks@.len() == 0,
    {
        HostFacts {
            id,
            name,
            hostname: None,
            kernel: None,
            uptime_seconds: None,
            group,
            role,
            source,
            status: HostStatus::Disabled,
            error: Some(String::from_str("host disabled in config")),
            freshness: Freshness::now(DISABLED_STALE_AFTER_NANOS),
            cores: None,
            ram: RamMetrics::empty(),
            network: NetworkMetrics::empty(),
            storage: StorageMetrics::empty(),
        }
    }
}

impl RamMetrics {
    pub open spec fn empty_spec() -> Self {
        RamMetrics { total_kib: None, available_kib: None, used_kib: None }
    }
}

impl NetworkMetrics {
    pub open spec fn empty_spec() -> Self {
        NetworkMetrics { rx_bytes_total: None, tx_bytes_total: None }
    }
}

} // verus!
