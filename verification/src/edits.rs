//! Editing one server's fields in the config manager: the editable fields,
//! their current text, and `field=value` assignments.
use vstd::prelude::*;
use crate::aliases::{DiskAliases, insert_entry};
use crate::collectors::split_once;
use crate::config::{ServerConfig, ServerView, bool_text};
use crate::model::{HostSource, SourceView, endpoint_of, kind_name};
use crate::text::{
    all_digits, chars_of, decimal, digits_value, lemma_decimal_round_trip, eq_str, find_first, parse_unsigned, split_chars,
    split_on, string_of, sub_chars, trim, trim_chars, u64_text, views,
};

verus! {

/// A field of a server that the config manager edits.
#[derive(Clone, Copy, Debug, PartialEq, Eq, Structural)]
pub enum ConfigEditField {
    Id,
    Name,
    Source,
    Host,
    Group,
    Role,
    Enabled,
    Optional,
    DiskMaxRows,
    DiskAliases,
}

/// The number of editable fields.
pub const EDIT_FIELD_COUNT: usize = 10;

/// The fields in the order the editor lists them.
pub open spec fn field_at(i: int) -> ConfigEditField {
    if i <= 0 {
        ConfigEditField::Id
    } else if i == 1 {
        ConfigEditField::Name
    } else if i == 2 {
        ConfigEditField::Source
    } else if i == 3 {
        ConfigEditField::Host
    } else if i == 4 {
        ConfigEditField::Group
    } else if i == 5 {
        ConfigEditField::Role
    } else if i == 6 {
        ConfigEditField::Enabled
    } else if i == 7 {
        ConfigEditField::Optional
    } else if i == 8 {
        ConfigEditField::DiskMaxRows
    } else {
        ConfigEditField::DiskAliases
    }
}

/// The field at row `i` of the editor (the last row for any larger `i`).
pub fn edit_field_at(i: usize) -> (r: ConfigEditField)
    ensures
        r == field_at(i as int),
{
    if i == 0 {
        ConfigEditField::Id
    } else if i == 1 {
        ConfigEditField::Name
    } else if i == 2 {
        ConfigEditField::Source
    } else if i == 3 {
        ConfigEditField::Host
    } else if i == 4 {
        ConfigEditField::Group
    } else if i == 5 {
        ConfigEditField::Role
    } else if i == 6 {
        ConfigEditField::Enabled
    } else if i == 7 {
        ConfigEditField::Optional
    } else if i == 8 {
        ConfigEditField::DiskMaxRows
    } else {
        ConfigEditField::DiskAliases
    }
}

pub open spec fn field_label(f: ConfigEditField) -> Seq<char> {
    match f {
        ConfigEditField::Id => "id"@,
        ConfigEditField::Name => "name"@,
        ConfigEditField::Source => "source"@,
        ConfigEditField::Host => "host"@,
        ConfigEditField::Group => "group"@,
        ConfigEditField::Role => "role"@,
        ConfigEditField::Enabled => "enabled"@,
        ConfigEditField::Optional => "optional"@,
        ConfigEditField::DiskMaxRows => "disk_max_rows"@,
        ConfigEditField::DiskAliases => "disk_aliases"@,
    }
}

pub open spec fn field_hint(f: ConfigEditField) -> Seq<char> {
    match f {
        ConfigEditField::Id => "stable config id"@,
        ConfigEditField::Name => "display name"@,
        ConfigEditField::Source => "ssh/local/proxmox/truenas-scale"@,
        ConfigEditField::Host => "SSH/API target; blank not allowed for ssh-like sources"@,
        ConfigEditField::Group => "optional group label; blank clears"@,
        ConfigEditField::Role => "optional role label; blank clears"@,
        ConfigEditField::Enabled => "space toggles"@,
        ConfigEditField::Optional => "space toggles; unreachable optional hosts are hidden"@,
        ConfigEditField::DiskMaxRows => "blank clears; positive integer limits disk rows"@,
        ConfigEditField::DiskAliases => "/path:label,/path2:label2"@,
    }
}

/// `m:a` for each alias entry, joined by `,`.
pub open spec fn alias_list_text(e: Seq<(Seq<char>, Seq<char>)>) -> Seq<char>
    decreases e.len(),
{
    if e.len() == 0 {
        Seq::empty()
    } else if e.len() == 1 {
        e[0].0 + ":"@ + e[0].1
    } else {
        alias_list_text(e.drop_last()) + ","@ + e.last().0 + ":"@ + e.last().1
    }
}

pub open spec fn text_or_empty(o: Option<Seq<char>>) -> Seq<char> {
    match o {
        Some(t) => t,
        None => Seq::empty(),
    }
}

/// The text a field shows for `s`, and starts from when edited.
pub open spec fn field_value(f: ConfigEditField, s: ServerView) -> Seq<char> {
    match f {
        ConfigEditField::Id => s.id,
        ConfigEditField::Name => s.name,
        ConfigEditField::Source => kind_name(s.source),
        ConfigEditField::Host => text_or_empty(endpoint_of(s.source)),
        ConfigEditField::Group => text_or_empty(s.group),
        ConfigEditField::Role => text_or_empty(s.role),
        ConfigEditField::Enabled => bool_text(s.enabled),
        ConfigEditField::Optional => bool_text(s.optional),
        ConfigEditField::DiskMaxRows => match s.disk_max_rows {
            Some(r) => decimal(r as nat),
            None => Seq::empty(),
        },
        ConfigEditField::DiskAliases => alias_list_text(s.disk_aliases),
    }
}

fn text_of_bool(b: bool) -> (r: String)
    ensures
        r@ == bool_text(b),
{
    if b {
        String::from_str("true")
    } else {
        String::from_str("false")
    }
}

fn opt_or_empty(o: &Option<String>) -> (r: String)
    ensures
        r@ == text_or_empty(
            match o {
                Some(t) => Some(t@),
                None => None,
            },
        ),
{
    match o {
        Some(t) => t.clone(),
        None => String::new(),
    }
}

fn alias_list(aliases: &DiskAliases) -> (r: String)
    ensures
        r@ == alias_list_text(aliases@),
{
    let ghost e = aliases@;
    let mut out = String::new();
    let mut i: usize = 0;
    let n = aliases.len();
    assert(alias_list_text(e.take(0)) =~= Seq::<char>::empty());
    while i < n
        invariant
            i <= n == e.len(),
            e == aliases@,
            out@ == alias_list_text(e.take(i as int)),
        decreases n - i,
    {
        let (m, a) = aliases.entry(i);
        let ghost before = out@;
        assert(e.take(i + 1).drop_last() =~= e.take(i as int));
        assert(e.take(i + 1).last() == e[i as int]);
        if i > 0 {
            out.append(",");
        }
        out.append(m.as_str());
        out.append(":");
        out.append(a.as_str());
        if i == 0 {
            assert(e.take(1)[0] == e[0]);
            assert(out@ =~= alias_list_text(e.take(1)));
        } else {
            assert(out@ =~= alias_list_text(e.take(i + 1)));
        }
        i = i + 1;
    }
    assert(e.take(n as int) =~= e);
    out
}

impl ConfigEditField {
    pub fn label(self) -> (r: &'static str)
        ensures
            r@ == field_label(self),
    {
        match self {
            ConfigEditField::Id => "id",
            ConfigEditField::Name => "name",
            ConfigEditField::Source => "source",
            ConfigEditField::Host => "host",
            ConfigEditField::Group => "group",
            ConfigEditField::Role => "role",
            ConfigEditField::Enabled => "enabled",
            ConfigEditField::Optional => "optional",
            ConfigEditField::DiskMaxRows => "disk_max_rows",
            ConfigEditField::DiskAliases => "disk_aliases",
        }
    }

    pub fn hint(self) -> (r: &'static str)
        ensures
            r@ == field_hint(self),
    {
        match self {
            ConfigEditField::Id => "stable config id",
            ConfigEditField::Name => "display name",
            ConfigEditField::Source => "ssh/local/proxmox/truenas-scale",
            ConfigEditField::Host => "SSH/API target; blank not allowed for ssh-like sources",
            ConfigEditField::Group => "optional group label; blank clears",
            ConfigEditField::Role => "optional role label; blank clears",
            ConfigEditField::Enabled => "space toggles",
            ConfigEditField::Optional => "space toggles; unreachable optional hosts are hidden",
            ConfigEditField::DiskMaxRows => "blank clears; positive integer limits disk rows",
            ConfigEditField::DiskAliases => "/path:label,/path2:label2",
        }
    }

    /// Enabled and optional flip on space instead of taking typed text.
    pub fn is_toggle(self) -> (r: bool)
        ensures
            r == (self == ConfigEditField::Enabled || self == ConfigEditField::Optional),
    {
        match self {
            ConfigEditField::Enabled | ConfigEditField::Optional => true,
            _ => false,
        }
    }

    /// The field's current text for `server` (see `field_value`).
    pub fn current_value(self, server: &ServerConfig) -> (r: String)
        ensures
            r@ == field_value(self, server@),
    {
        match self {
            ConfigEditField::Id => server.id.clone(),
            ConfigEditField::Name => server.name.clone(),
            ConfigEditField::Source => String::from_str(server.source.kind()),
            ConfigEditField::Host => match server.source.endpoint() {
                Some(h) => String::from_str(h),
                None => String::new(),
            },
            ConfigEditField::Group => opt_or_empty(&server.group),
            ConfigEditField::Role => opt_or_empty(&server.role),
            ConfigEditField::Enabled => text_of_bool(server.enabled),
            ConfigEditField::Optional => text_of_bool(server.optional),
            ConfigEditField::DiskMaxRows => match server.disk_max_rows {
                Some(rows) => u64_text(rows as u64),
                None => String::new(),
            },
            ConfigEditField::DiskAliases => alias_list(&server.disk_aliases),
        }
    }
}

/// Why an edit was refused, with the message the user sees.
#[derive(Clone, Debug, PartialEq, Eq)]
pub struct EditError {
    pub message: String,
}

fn edit_error(message: &str) -> (r: EditError)
    ensures
        r.message@ == message@,
{
    EditError { message: String::from_str(message) }
}

/// An empty value clears an optional text field.
pub open spec fn optional_text(v: Seq<char>) -> Option<Seq<char>> {
    if v.len() == 0 {
        None
    } else {
        Some(v)
    }
}

pub fn optional_string(value: &str) -> (r: Option<String>)
    ensures
        match r {
            Some(s) => optional_text(value@) == Some(s@),
            None => optional_text(value@) is None,
        },
{
    let v = chars_of(value);
    if v.len() == 0 {
        None
    } else {
        Some(String::from_str(value))
    }
}

/// `true`, `yes`, `1` and `false`, `no`, `0`.
pub open spec fn bool_value(v: Seq<char>) -> Option<bool> {
    if v == "true"@ || v == "yes"@ || v == "1"@ {
        Some(true)
    } else if v == "false"@ || v == "no"@ || v == "0"@ {
        Some(false)
    } else {
        None
    }
}

pub open spec fn bool_error() -> Seq<char> {
    "expected boolean true/false"@
}

pub fn parse_bool_field(value: &str) -> (r: Result<bool, EditError>)
    ensures
        match bool_value(value@) {
            Some(b) => r == Ok::<bool, EditError>(b),
            None => r matches Err(e) && e.message@ == bool_error(),
        },
{
    let v = chars_of(value);
    if eq_str(&v, "true") || eq_str(&v, "yes") || eq_str(&v, "1") {
        Ok(true)
    } else if eq_str(&v, "false") || eq_str(&v, "no") || eq_str(&v, "0") {
        Ok(false)
    } else {
        Err(edit_error("expected boolean true/false"))
    }
}

/// The host a new remote source keeps: the current one when there is one
/// and it is not empty, else the placeholder `host-alias`.
pub open spec fn host_or_placeholder(s: SourceView) -> Seq<char> {
    match endpoint_of(s) {
        Some(h) => if h.len() > 0 {
            h
        } else {
            "host-alias"@
        },
        None => "host-alias"@,
    }
}

pub fn current_host_or_placeholder(server: &ServerConfig) -> (r: String)
    ensures
        r@ == host_or_placeholder(server@.source),
{
    match server.source.endpoint() {
        Some(h) => {
            let c = chars_of(h);
            if c.len() > 0 {
                String::from_str(h)
            } else {
                String::from_str("host-alias")
            }
        },
        None => String::from_str("host-alias"),
    }
}

pub open spec fn source_error() -> Seq<char> {
    "source must be local, ssh, proxmox, truenas, or truenas-scale"@
}

/// The source after `source=<name>`: the kind named, keeping the host (see
/// `host_or_placeholder`).
pub open spec fn source_change(s: SourceView, name: Seq<char>) -> Result<SourceView, Seq<char>> {
    let h = host_or_placeholder(s);
    if name == "local"@ {
        Ok(SourceView::Local)
    } else if name == "ssh"@ {
        Ok(SourceView::Ssh(h))
    } else if name == "proxmox"@ {
        Ok(SourceView::Proxmox(h))
    } else if name == "truenas"@ || name == "truenas-scale"@ {
        Ok(SourceView::TrueNasScale(h))
    } else {
        Err(source_error())
    }
}

pub fn set_server_source(server: &mut ServerConfig, source: &str) -> (r: Result<(), EditError>)
    ensures
        match source_change(old(server)@.source, source@) {
            Ok(v) => r is Ok && final(server)@ == (ServerView { source: v, ..old(server)@ }),
            Err(m) => r matches Err(e) && e.message@ == m && final(server)@ == old(server)@,
        },
        r is Ok <==> source_name(source@),
        r is Ok ==> kind_name(final(server)@.source) == if source@ == "truenas"@ {
            "truenas-scale"@
        } else {
            source@
        },
        r is Ok && source@ != "local"@ ==> endpoint_of(final(server)@.source) == Some(
            host_or_placeholder(old(server)@.source),
        ),
{
    proof {
        lemma_source_change_gives_named_kind(old(server)@.source, source@);
    }
    let host = current_host_or_placeholder(server);
    let v = chars_of(source);
    if eq_str(&v, "local") {
        server.source = HostSource::local();
    } else if eq_str(&v, "ssh") {
        server.source = HostSource::ssh(host.as_str());
    } else if eq_str(&v, "proxmox") {
        server.source = HostSource::proxmox(host.as_str());
    } else if eq_str(&v, "truenas") || eq_str(&v, "truenas-scale") {
        server.source = HostSource::truenas_scale(host.as_str());
    } else {
        return Err(edit_error("source must be local, ssh, proxmox, truenas, or truenas-scale"));
    }
    Ok(())
}

pub open spec fn local_host_error() -> Seq<char> {
    "local source does not use host; set source=ssh/proxmox/truenas-scale first"@
}

/// The source after `host=<h>`: the same kind with the new host; a local
/// source has no host to set.
pub open spec fn host_change(s: SourceView, h: Seq<char>) -> Result<SourceView, Seq<char>> {
    match s {
        SourceView::Local => Err(local_host_error()),
        SourceView::Ssh(_) => Ok(SourceView::Ssh(h)),
        SourceView::Proxmox(_) => Ok(SourceView::Proxmox(h)),
        SourceView::TrueNasScale(_) => Ok(SourceView::TrueNasScale(h)),
    }
}

pub fn set_server_host(server: &mut ServerConfig, host: &str) -> (r: Result<(), EditError>)
    ensures
        match host_change(old(server)@.source, host@) {
            Ok(v) => r is Ok && final(server)@ == (ServerView { source: v, ..old(server)@ }),
            Err(m) => r matches Err(e) && e.message@ == m && final(server)@ == old(server)@,
        },
{
    let next = match &server.source {
        HostSource::Local => {
            return Err(
                edit_error(
                    "local source does not use host; set source=ssh/proxmox/truenas-scale first",
                ),
            );
        },
        HostSource::Ssh { .. } => HostSource::ssh(host),
        HostSource::Proxmox { .. } => HostSource::proxmox(host),
        HostSource::TrueNasScale { .. } => HostSource::truenas_scale(host),
    };
    server.source = next;
    Ok(())
}

pub open spec fn alias_entry_error() -> Seq<char> {
    "disk_aliases entries must look like /mount:alias"@
}

/// Every piece has a `:`.
pub open spec fn pieces_have_colon(ps: Seq<Seq<char>>) -> bool {
    forall|i: int| 0 <= i < ps.len() ==> #[trigger] split_once(ps[i], ':') is Some
}

/// The aliases of the pieces `mount:alias` in order, each trimmed, a later
/// entry for a mount replacing an earlier one.
pub open spec fn aliases_from_pieces(ps: Seq<Seq<char>>) -> Seq<(Seq<char>, Seq<char>)>
    decreases ps.len(),
{
    if ps.len() == 0 {
        Seq::empty()
    } else {
        let acc = aliases_from_pieces(ps.drop_last());
        match split_once(ps.last(), ':') {
            Some(p) => insert_entry(acc, trim(p.0), trim(p.1)),
            None => acc,
        }
    }
}

/// `/m1:a1,/m2:a2`: blank for none, else `,`-separated `mount:alias` pairs.
pub open spec fn parse_aliases_spec(v: Seq<char>) -> Result<Seq<(Seq<char>, Seq<char>)>, Seq<char>> {
    if trim(v).len() == 0 {
        Ok(Seq::empty())
    } else if pieces_have_colon(split_on(v, ',')) {
        Ok(aliases_from_pieces(split_on(v, ',')))
    } else {
        Err(alias_entry_error())
    }
}

pub fn parse_disk_aliases(value: &str) -> (r: Result<DiskAliases, EditError>)
    ensures
        match parse_aliases_spec(value@) {
            Ok(e) => r matches Ok(a) && a@ == e,
            Err(m) => r matches Err(x) && x.message@ == m,
        },
{
    let v = chars_of(value);
    let mut aliases = DiskAliases::new();
    if trim_chars(&v).len() == 0 {
        return Ok(aliases);
    }
    let pieces = split_chars(&v, ',');
    let ghost ps = split_on(value@, ',');
    assert(views(pieces@) == ps);
    let mut i: usize = 0;
    assert(ps.take(0) =~= Seq::<Seq<char>>::empty());
    while i < pieces.len()
        invariant
            i <= pieces.len(),
            views(pieces@) == ps,
            ps == split_on(value@, ','),
            trim(value@).len() != 0,
            pieces_have_colon(ps.take(i as int)),
            aliases@ == aliases_from_pieces(ps.take(i as int)),
        decreases pieces.len() - i,
    {
        let piece = &pieces[i];
        assert(piece@ == ps[i as int]);
        assert(ps.take(i + 1).drop_last() =~= ps.take(i as int));
        assert(ps.take(i + 1).last() == ps[i as int]);
        match find_first(piece, ':') {
            Some(k) => {
                let m = trim_chars(&sub_chars(piece, 0, k));
                let a = trim_chars(&sub_chars(piece, k + 1, piece.len()));
                assert(piece@.take(k as int) == piece@.subrange(0, k as int));
                assert(piece@.skip(k + 1) == piece@.subrange(k + 1, piece@.len() as int));
                aliases.insert(string_of(&m), string_of(&a));
                assert(pieces_have_colon(ps.take(i + 1))) by {
                    assert forall|j: int| 0 <= j < i + 1 implies #[trigger] split_once(
                        ps.take(i + 1)[j],
                        ':',
                    ) is Some by {
                        if j < i {
                            assert(ps.take(i + 1)[j] == ps.take(i as int)[j]);
                        }
                    }
                }
            },
            None => {
                assert(split_once(ps[i as int], ':') is None);
                assert(!pieces_have_colon(ps)) by {
                    assert(split_once(ps[i as int], ':') is None);
                }
                return Err(edit_error("disk_aliases entries must look like /mount:alias"));
            },
        }
        i = i + 1;
    }
    assert(ps.take(pieces.len() as int) =~= ps);
    Ok(aliases)
}

pub open spec fn rows_error() -> Seq<char> {
    "disk_max_rows must be a positive integer"@
}

pub open spec fn unknown_field_message(field: Seq<char>) -> Seq<char> {
    "unknown field `"@ + field
        + "`; supported: id/name/source/host/group/role/enabled/optional/disk_max_rows/disk_aliases"@
}

/// The server after `field=value` (both already trimmed), or the message
/// that refuses it.
pub open spec fn assign_spec(s: ServerView, field: Seq<char>, value: Seq<char>) -> Result<ServerView, Seq<char>> {
    if field == "id"@ {
        Ok(ServerView { id: value, ..s })
    } else if field == "name"@ {
        Ok(ServerView { name: value, ..s })
    } else if field == "source"@ {
        match source_change(s.source, value) {
            Ok(v) => Ok(ServerView { source: v, ..s }),
            Err(m) => Err(m),
        }
    } else if field == "host"@ {
        match host_change(s.source, value) {
            Ok(v) => Ok(ServerView { source: v, ..s }),
            Err(m) => Err(m),
        }
    } else if field == "group"@ {
        Ok(ServerView { group: optional_text(value), ..s })
    } else if field == "role"@ {
        Ok(ServerView { role: optional_text(value), ..s })
    } else if field == "enabled"@ {
        match bool_value(value) {
            Some(b) => Ok(ServerView { enabled: b, ..s }),
            None => Err(bool_error()),
        }
    } else if field == "optional"@ {
        match bool_value(value) {
            Some(b) => Ok(ServerView { optional: b, ..s }),
            None => Err(bool_error()),
        }
    } else if field == "disk_max_rows"@ {
        if value.len() == 0 {
            Ok(ServerView { disk_max_rows: None, ..s })
        } else {
            match parse_unsigned(value, usize::MAX as nat) {
                Some(n) => Ok(ServerView { disk_max_rows: Some(n as usize), ..s }),
                None => Err(rows_error()),
            }
        }
    } else if field == "disk_aliases"@ {
        match parse_aliases_spec(value) {
            Ok(e) => Ok(ServerView { disk_aliases: e, ..s }),
            Err(m) => Err(m),
        }
    } else {
        Err(unknown_field_message(field))
    }
}

fn parse_usize(v: &Vec<char>) -> (r: Option<usize>)
    ensures
        match parse_unsigned(v@, usize::MAX as nat) {
            Some(n) => r == Some(n as usize),
            None => r is None,
        },
{
    match crate::text::parse_u64(v) {
        Some(n) => {
            if n <= usize::MAX as u64 {
                Some(n as usize)
            } else {
                None
            }
        },
        None => None,
    }
}

/// Sets `field` of `server` to `value` (see `assign_spec`); a refused
/// assignment leaves the server as it was.
pub fn assign_field(server: &mut ServerConfig, field: &str, value: &str) -> (r: Result<(), EditError>)
    ensures
        match assign_spec(old(server)@, field@, value@) {
            Ok(v) => r is Ok && final(server)@ == v,
            Err(m) => r matches Err(e) && e.message@ == m && final(server)@ == old(server)@,
        },
{
    let f = chars_of(field);
    if eq_str(&f, "id") {
        server.id = String::from_str(value);
    } else if eq_str(&f, "name") {
        server.name = String::from_str(value);
    } else if eq_str(&f, "source") {
        return set_server_source(server, value);
    } else if eq_str(&f, "host") {
        return set_server_host(server, value);
    } else if eq_str(&f, "group") {
        server.group = optional_string(value);
    } else if eq_str(&f, "role") {
        server.role = optional_string(value);
    } else if eq_str(&f, "enabled") {
        let b = parse_bool_field(value)?;
        server.enabled = b;
    } else if eq_str(&f, "optional") {
        let b = parse_bool_field(value)?;
        server.optional = b;
    } else if eq_str(&f, "disk_max_rows") {
        let v = chars_of(value);
        if v.len() == 0 {
            server.disk_max_rows = None;
        } else {
            match parse_usize(&v) {
                Some(n) => server.disk_max_rows = Some(n),
                None => {
                    return Err(edit_error("disk_max_rows must be a positive integer"));
                },
            }
        }
    } else if eq_str(&f, "disk_aliases") {
        let a = parse_disk_aliases(value)?;
        server.disk_aliases = a;
    } else {
        let mut m = String::from_str("unknown field `");
        m.append(field);
        m.append(
            "`; supported: id/name/source/host/group/role/enabled/optional/disk_max_rows/disk_aliases",
        );
        return Err(EditError { message: m });
    }
    Ok(())
}


/// What tells the field names, source kinds and truth values apart.
proof fn lemma_names_distinct()
    ensures
        "id"@.len() == 2,
        "name"@.len() == 4 && "name"@[0] == 'n',
        "source"@.len() == 6,
        "host"@.len() == 4 && "host"@[0] == 'h',
        "group"@.len() == 5,
        "role"@.len() == 4 && "role"@[0] == 'r',
        "enabled"@.len() == 7,
        "optional"@.len() == 8,
        "disk_max_rows"@.len() == 13,
        "disk_aliases"@.len() == 12,
        "local"@.len() == 5,
        "ssh"@.len() == 3,
        "proxmox"@.len() == 7 && "proxmox"@[0] == 'p',
        "truenas"@.len() == 7 && "truenas"@[0] == 't',
        "truenas-scale"@.len() == 13,
        "true"@.len() == 4,
        "yes"@.len() == 3,
        "1"@.len() == 1,
        "false"@.len() == 5,
{
    reveal_strlit("id");
    reveal_strlit("name");
    reveal_strlit("source");
    reveal_strlit("host");
    reveal_strlit("group");
    reveal_strlit("role");
    reveal_strlit("enabled");
    reveal_strlit("optional");
    reveal_strlit("disk_max_rows");
    reveal_strlit("disk_aliases");
    reveal_strlit("local");
    reveal_strlit("ssh");
    reveal_strlit("proxmox");
    reveal_strlit("truenas");
    reveal_strlit("truenas-scale");
    reveal_strlit("true");
    reveal_strlit("yes");
    reveal_strlit("1");
    reveal_strlit("false");
}

/// Assigning a field the text it shows gives back the same server, for
/// every field but the disk aliases; a group or role set to an empty text,
/// and a remote source whose host is empty, show as unset and are left out.
pub proof fn lemma_shown_value_keeps_server(f: ConfigEditField, s: ServerView)
    requires
        !(f is DiskAliases),
        f is Group ==> s.group != Some(Seq::<char>::empty()),
        f is Role ==> s.role != Some(Seq::<char>::empty()),
        f is Source ==> (endpoint_of(s.source) matches Some(h) ==> h.len() > 0),
        f is Host ==> !(s.source is Local),
    ensures
        assign_spec(s, field_label(f), field_value(f, s)) == Ok::<ServerView, Seq<char>>(s),
{
    lemma_names_distinct();
    match f {
        ConfigEditField::DiskMaxRows => {
            if let Some(r) = s.disk_max_rows {
                lemma_decimal_round_trip(r as nat, usize::MAX as nat);
            }
        },
        ConfigEditField::Source => {
            assert(source_change(s.source, kind_name(s.source)) == Ok::<SourceView, Seq<char>>(s.source));
        },
        ConfigEditField::Group => {
            if let Some(t) = s.group {
                if t.len() == 0 {
                    assert(t =~= Seq::<char>::empty());
                }
            }
            assert(optional_text(text_or_empty(s.group)) == s.group);
        },
        ConfigEditField::Role => {
            if let Some(t) = s.role {
                if t.len() == 0 {
                    assert(t =~= Seq::<char>::empty());
                }
            }
            assert(optional_text(text_or_empty(s.role)) == s.role);
        },
        _ => {},
    }
}

/// A text field that was assigned shows the text it was given: the id, the
/// name, the host, the group and the role read back as written.
pub proof fn lemma_assigned_text_reads_back(f: ConfigEditField, s: ServerView, v: Seq<char>)
    requires
        f is Id || f is Name || f is Host || f is Group || f is Role,
        assign_spec(s, field_label(f), v) is Ok,
    ensures
        field_value(f, assign_spec(s, field_label(f), v)->Ok_0) == v,
{
    lemma_names_distinct();
    match f {
        ConfigEditField::Group => {
            assert(text_or_empty(optional_text(v)) == v);
        },
        ConfigEditField::Role => {
            assert(text_or_empty(optional_text(v)) == v);
        },
        _ => {},
    }
}

/// The fields an assignment may name.
pub open spec fn known_field(f: Seq<char>) -> bool {
    ||| f == "id"@ || f == "name"@ || f == "source"@ || f == "host"@ || f == "group"@
    ||| f == "role"@ || f == "enabled"@ || f == "optional"@ || f == "disk_max_rows"@
    ||| f == "disk_aliases"@
}

/// The source names an assignment accepts.
pub open spec fn source_name(v: Seq<char>) -> bool {
    v == "local"@ || v == "ssh"@ || v == "proxmox"@ || v == "truenas"@ || v == "truenas-scale"@
}

/// An assignment is refused exactly when the field is unknown, a flag is
/// not a truth value, a row count is not a number that fits, an alias list
/// is malformed, a source is not one of the five names, or a host is given
/// to a local server.
pub proof fn lemma_assignment_refused_exactly(s: ServerView, f: Seq<char>, v: Seq<char>)
    ensures
        assign_spec(s, f, v) is Err <==> {
            ||| !known_field(f)
            ||| (f == "enabled"@ || f == "optional"@) && bool_value(v) is None
            ||| f == "disk_max_rows"@ && v.len() > 0 && parse_unsigned(v, usize::MAX as nat) is None
            ||| f == "disk_aliases"@ && parse_aliases_spec(v) is Err
            ||| f == "source"@ && !source_name(v)
            ||| f == "host"@ && s.source is Local
        },
{
    lemma_names_distinct();
}

/// `source=<name>` gives a source of the kind it names (`truenas` names
/// `truenas-scale`), keeping the host of a remote source (see
/// `host_or_placeholder`); the name is refused exactly when it is none of the
/// five source names.
pub proof fn lemma_source_change_gives_named_kind(s: SourceView, name: Seq<char>)
    ensures
        source_change(s, name) is Ok <==> source_name(name),
        source_change(s, name) matches Ok(v) ==> kind_name(v) == if name == "truenas"@ {
            "truenas-scale"@
        } else {
            name
        },
        source_change(s, name) matches Ok(v) ==> (name == "local"@ <==> endpoint_of(v) is None),
        source_change(s, name) matches Ok(v) ==> (name != "local"@ ==> endpoint_of(v) == Some(
            host_or_placeholder(s),
        )),
        source_change(s, "truenas"@) == source_change(s, "truenas-scale"@),
{
    lemma_names_distinct();
    reveal_strlit("local");
    reveal_strlit("ssh");
    reveal_strlit("proxmox");
    reveal_strlit("truenas");
    reveal_strlit("truenas-scale");
}

} // verus!
