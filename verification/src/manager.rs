//! The state of the full-screen config manager and the edits it makes to
//! the configuration: selecting, toggling, moving, deleting and adding
//! servers, and `field=value` assignments.
use vstd::prelude::*;
use crate::collectors::{collector_error_text, split_once};
use crate::collectors::ssh::{valid_ssh_host, validate_ssh_host};
use crate::config::{AppConfig, AppView, ServerConfig, ServerView, bool_text};
use crate::edits::{ConfigEditField, EditError, assign_field, assign_spec};
use crate::model::{HostSource, SourceView};
use crate::naming::{
    display_name_from_target, display_name_text, safe_id_text, server_id_from_target, server_ids,
    unique_id_for, unique_server_id_from_base,
};
use crate::sshconfig::{EntryView, SshConfigEntry, entry_views};
use crate::text::{chars_of, decimal, find_first, string_of, sub_chars, trim, trim_chars, u64_text};

verus! {

/// What a health check found for a server, with its short label.
#[derive(Clone, Debug, PartialEq, Eq)]
pub enum ConfigHealthStatus {
    Passed(String),
    Failed(String),
    Pending(String),
}

pub enum HealthView {
    Passed(Seq<char>),
    Failed(Seq<char>),
    Pending(Seq<char>),
}

impl View for ConfigHealthStatus {
    type V = HealthView;

    open spec fn view(&self) -> HealthView {
        match self {
            ConfigHealthStatus::Passed(l) => HealthView::Passed(l@),
            ConfigHealthStatus::Failed(l) => HealthView::Failed(l@),
            ConfigHealthStatus::Pending(l) => HealthView::Pending(l@),
        }
    }
}

/// The label with a check mark, a cross or an ellipsis before it.
pub open spec fn health_label(h: HealthView) -> Seq<char> {
    match h {
        HealthView::Passed(l) => "\u{2713} "@ + l,
        HealthView::Failed(l) => "\u{2717} "@ + l,
        HealthView::Pending(l) => "\u{2026} "@ + l,
    }
}

impl ConfigHealthStatus {
    pub fn label(&self) -> (r: String)
        ensures
            r@ == health_label(self@),
    {
        match self {
            ConfigHealthStatus::Passed(l) => {
                let s = String::from_str("\u{2713} ");
                s.concat(l.as_str())
            },
            ConfigHealthStatus::Failed(l) => {
                let s = String::from_str("\u{2717} ");
                s.concat(l.as_str())
            },
            ConfigHealthStatus::Pending(l) => {
                let s = String::from_str("\u{2026} ");
                s.concat(l.as_str())
            },
        }
    }
}

/// The add-server wizard: the SSH config hosts offered, the highlighted
/// option, and the direct-target input. Option 0 is a direct target, option
/// 1 the local machine where it can be collected, then the hosts.
#[derive(Clone, Debug, PartialEq, Eq)]
pub struct AddServerState {
    pub hosts: Vec<SshConfigEntry>,
    pub selected: usize,
    pub direct_input: bool,
    pub input: String,
    pub local_available: bool,
}

pub struct AddView {
    pub hosts: Seq<EntryView>,
    pub selected: usize,
    pub direct_input: bool,
    pub input: Seq<char>,
    pub local_available: bool,
}

impl View for AddServerState {
    type V = AddView;

    open spec fn view(&self) -> AddView {
        AddView {
            hosts: entry_views(self.hosts@),
            selected: self.selected,
            direct_input: self.direct_input,
            input: self.input@,
            local_available: self.local_available,
        }
    }
}

pub open spec fn host_offset(a: AddView) -> nat {
    if a.local_available {
        2
    } else {
        1
    }
}

pub open spec fn option_total(a: AddView) -> nat {
    a.hosts.len() + host_offset(a)
}

/// The wizard's counts fit a `usize` and the highlight is on an option.
pub open spec fn add_wf(a: AddView) -> bool {
    &&& a.hosts.len() + 2 <= usize::MAX
    &&& a.selected < option_total(a)
}

impl AddServerState {
    pub fn local_option_available(&self) -> (r: bool)
        ensures
            r == self.local_available,
    {
        self.local_available
    }

    pub fn host_option_offset(&self) -> (r: usize)
        ensures
            r == host_offset(self@),
    {
        if self.local_available {
            2
        } else {
            1
        }
    }

    pub fn option_count(&self) -> (r: usize)
        requires
            self@.hosts.len() + 2 <= usize::MAX,
        ensures
            r == option_total(self@),
    {
        self.hosts.len() + self.host_option_offset()
    }

    /// The SSH config host under the highlight, if it is on one.
    pub fn selected_host(&self) -> (r: Option<&SshConfigEntry>)
        ensures
            match r {
                Some(h) => self.selected >= host_offset(self@) && self.selected - host_offset(self@)
                    < self@.hosts.len() && h@ == self@.hosts[self.selected - host_offset(self@)],
                None => self.selected < host_offset(self@) || self.selected - host_offset(self@)
                    >= self@.hosts.len(),
            },
    {
        let off = self.host_option_offset();
        if self.selected < off {
            return None;
        }
        let idx = self.selected - off;
        if idx < self.hosts.len() {
            assert(self@.hosts[idx as int] == self.hosts@[idx as int]@);
            Some(&self.hosts[idx])
        } else {
            None
        }
    }
}

/// A question waiting for yes or no.
#[derive(Clone, Copy, Debug, PartialEq, Eq, Structural)]
pub enum PendingConfirmation {
    Delete,
    GenerateSshKey,
    ExitUnsaved,
}

#[derive(Clone, Copy, Debug, PartialEq, Eq, Structural)]
pub enum ConfigManagerControl {
    Continue,
    Exit,
}

/// The config manager: the configuration being edited and the one last
/// saved, the selection, the editor and wizard state, the health of each
/// server by id, and the messages shown.
#[derive(Clone, Debug)]
pub struct ConfigManagerState {
    pub config: AppConfig,
    pub saved_config: AppConfig,
    pub path: String,
    pub selected: usize,
    pub input: String,
    pub adding: Option<AddServerState>,
    pub editing: bool,
    pub edit_selected: usize,
    pub edit_value_field: Option<ConfigEditField>,
    pub health: Vec<(String, ConfigHealthStatus)>,
    pub health_issues: Vec<(String, String)>,
    pub health_copy_id_hosts: Vec<(String, String)>,
    pub health_refresh_requested: bool,
    pub pending_confirmation: Option<PendingConfirmation>,
    pub control: ConfigManagerControl,
    pub message: String,
    pub health_message: String,
}

pub struct ManagerView {
    pub config: AppView,
    pub saved: AppView,
    pub path: Seq<char>,
    pub selected: usize,
    pub input: Seq<char>,
    pub adding: Option<AddView>,
    pub editing: bool,
    pub edit_selected: usize,
    pub edit_value_field: Option<ConfigEditField>,
    pub health: Seq<(Seq<char>, HealthView)>,
    pub issues: Seq<(Seq<char>, Seq<char>)>,
    pub copy_hosts: Seq<(Seq<char>, Seq<char>)>,
    pub refresh_requested: bool,
    pub pending: Option<PendingConfirmation>,
    pub control: ConfigManagerControl,
    pub message: Seq<char>,
    pub health_message: Seq<char>,
}

pub open spec fn health_views(v: Seq<(String, ConfigHealthStatus)>) -> Seq<(Seq<char>, HealthView)> {
    v.map_values(|p: (String, ConfigHealthStatus)| (p.0@, p.1@))
}

pub open spec fn pair_views(v: Seq<(String, String)>) -> Seq<(Seq<char>, Seq<char>)> {
    v.map_values(|p: (String, String)| (p.0@, p.1@))
}

pub open spec fn add_view(a: Option<AddServerState>) -> Option<AddView> {
    match a {
        Some(x) => Some(x@),
        None => None,
    }
}

impl View for ConfigManagerState {
    type V = ManagerView;

    open spec fn view(&self) -> ManagerView {
        ManagerView {
            config: self.config@,
            saved: self.saved_config@,
            path: self.path@,
            selected: self.selected,
            input: self.input@,
            adding: add_view(self.adding),
            editing: self.editing,
            edit_selected: self.edit_selected,
            edit_value_field: self.edit_value_field,
            health: health_views(self.health@),
            issues: pair_views(self.health_issues@),
            copy_hosts: pair_views(self.health_copy_id_hosts@),
            refresh_requested: self.health_refresh_requested,
            pending: self.pending_confirmation,
            control: self.control,
            message: self.message@,
            health_message: self.health_message@,
        }
    }
}

/// The selection is on a server, or at 0 when there is none; the wizard,
/// when open, is well formed.
pub open spec fn manager_wf(s: ManagerView) -> bool {
    &&& (s.selected == 0 || s.selected < s.config.servers.len())
    &&& match s.adding {
        Some(a) => add_wf(a),
        None => true,
    }
}

/// The server under the selection.
pub open spec fn selected_view(s: ManagerView) -> Option<ServerView> {
    if s.selected < s.config.servers.len() {
        Some(s.config.servers[s.selected as int])
    } else {
        None
    }
}

/// The configuration with the selected server replaced by `v`.
pub open spec fn with_selected(s: ManagerView, v: ServerView) -> ManagerView {
    ManagerView {
        config: AppView { servers: s.config.servers.update(s.selected as int, v), ..s.config },
        ..s
    }
}

impl ConfigManagerState {
    /// A manager for `config`, saved at `path`, with the first server
    /// selected and nothing open.
    pub fn new(config: AppConfig, path: String) -> (r: Self)
        ensures
            r@ == (ManagerView {
                config: config@,
                saved: config@,
                path: path@,
                selected: 0,
                input: Seq::empty(),
                adding: None,
                editing: false,
                edit_selected: 0,
                edit_value_field: None,
                health: Seq::empty(),
                issues: Seq::empty(),
                copy_hosts: Seq::empty(),
                refresh_requested: false,
                pending: None,
                control: ConfigManagerControl::Continue,
                message: Seq::empty(),
                health_message: Seq::empty(),
            }),
            manager_wf(r@),
    {
        let saved = config.duplicate();
        let r = ConfigManagerState {
            config,
            saved_config: saved,
            path,
            selected: 0,
            input: String::new(),
            adding: None,
            editing: false,
            edit_selected: 0,
            edit_value_field: None,
            health: Vec::new(),
            health_issues: Vec::new(),
            health_copy_id_hosts: Vec::new(),
            health_refresh_requested: false,
            pending_confirmation: None,
            control: ConfigManagerControl::Continue,
            message: String::new(),
            health_message: String::new(),
        };
        assert(health_views(r.health@) =~= Seq::<(Seq<char>, HealthView)>::empty());
        assert(pair_views(r.health_issues@) =~= Seq::<(Seq<char>, Seq<char>)>::empty());
        assert(pair_views(r.health_copy_id_hosts@) =~= Seq::<(Seq<char>, Seq<char>)>::empty());
        r
    }

    /// The selected server, if the selection is on one.
    pub fn selected_server(&self) -> (r: Option<&ServerConfig>)
        ensures
            match r {
                Some(s) => selected_view(self@) == Some(s@),
                None => selected_view(self@) is None,
            },
    {
        if self.selected < self.config.servers.len() {
            assert(self@.config.servers[self.selected as int] == self.config.servers@[self.selected as int]@);
            Some(&self.config.servers[self.selected])
        } else {
            None
        }
    }

    /// Keeps the selection on a server (at 0 when there is none).
    pub fn clamp_selection(&mut self)
        ensures
            final(self)@ == (ManagerView {
                selected: if old(self)@.config.servers.len() == 0 {
                    0
                } else if old(self).selected < old(self)@.config.servers.len() {
                    old(self).selected
                } else {
                    (old(self)@.config.servers.len() - 1) as usize
                },
                ..old(self)@
            }),
    {
        if self.config.servers.len() == 0 {
            self.selected = 0;
        } else if self.selected >= self.config.servers.len() {
            self.selected = self.config.servers.len() - 1;
        }
    }

    /// The configuration differs from the one last saved.
    pub fn is_dirty(&self) -> (r: bool)
        ensures
            r == (self@.config != self@.saved),
    {
        !self.config.same_as(&self.saved_config)
    }

    /// The configuration has been written to the path: it is now the saved one.
    pub fn mark_saved(&mut self)
        ensures
            final(self)@ == (ManagerView {
                saved: old(self)@.config,
                message: "saved canonical config: "@ + old(self)@.path,
                ..old(self)@
            }),
    {
        self.saved_config = self.config.duplicate();
        let m = String::from_str("saved canonical config: ");
        self.message = m.concat(self.path.as_str());
    }
}

/// Moving the selection down stops at the last server.
pub open spec fn next_selection(s: ManagerView) -> ManagerView {
    if s.config.servers.len() == 0 {
        s
    } else {
        ManagerView {
            selected: if s.selected + 1 < s.config.servers.len() {
                (s.selected + 1) as usize
            } else {
                (s.config.servers.len() - 1) as usize
            },
            ..s
        }
    }
}

pub fn select_next_server(state: &mut ConfigManagerState)
    requires
        manager_wf(old(state)@),
    ensures
        manager_wf(final(state)@),
        final(state)@ == next_selection(old(state)@),
{
    let n = state.config.servers.len();
    if n > 0 {
        state.selected = if state.selected + 1 < n {
            state.selected + 1
        } else {
            n - 1
        };
    }
}

/// Moving the selection up stops at the first server.
pub fn select_previous_server(state: &mut ConfigManagerState)
    requires
        manager_wf(old(state)@),
    ensures
        manager_wf(final(state)@),
        final(state)@ == (ManagerView {
            selected: if old(state).selected > 0 {
                (old(state).selected - 1) as usize
            } else {
                0
            },
            ..old(state)@
        }),
{
    if state.selected > 0 {
        state.selected = state.selected - 1;
    }
}

/// `"<name>: <field> = <value>"`.
pub open spec fn toggle_message(name: Seq<char>, field: Seq<char>, b: bool) -> Seq<char> {
    name + ": "@ + field + " = "@ + bool_text(b)
}

fn toggle_text(name: &String, field: &str, b: bool) -> (r: String)
    ensures
        r@ == toggle_message(name@, field@, b),
{
    let mut m = name.clone();
    m.append(": ");
    m.append(field);
    m.append(" = ");
    if b {
        m.append("true");
    } else {
        m.append("false");
    }
    m
}

/// Flipping `enabled` of the selected server asks for a health check.
pub open spec fn toggled_enabled(s: ManagerView) -> ManagerView {
    match selected_view(s) {
        Some(v) => ManagerView {
            refresh_requested: true,
            message: toggle_message(v.name, "enabled"@, !v.enabled),
            ..with_selected(s, ServerView { enabled: !v.enabled, ..v })
        },
        None => s,
    }
}

fn take_selected(state: &mut ConfigManagerState) -> (r: ServerConfig)
    requires
        old(state).selected < old(state).config.servers@.len(),
    ensures
        r@ == old(state)@.config.servers[old(state).selected as int],
        final(state).config.servers@ == old(state).config.servers@.remove(old(state).selected as int),
        final(state).selected == old(state).selected,
        final(state)@ == (ManagerView {
            config: AppView {
                servers: old(state)@.config.servers.remove(old(state).selected as int),
                ..old(state)@.config
            },
            ..old(state)@
        }),
{
    let r = state.config.servers.remove(state.selected);
    proof {
        assert(crate::config::server_views(state.config.servers@) =~= old(state)@.config.servers.remove(
            old(state).selected as int,
        ));
    }
    r
}

fn put_selected(state: &mut ConfigManagerState, server: ServerConfig)
    requires
        old(state).selected <= old(state).config.servers@.len(),
    ensures
        final(state)@ == (ManagerView {
            config: AppView {
                servers: old(state)@.config.servers.insert(old(state).selected as int, server@),
                ..old(state)@.config
            },
            ..old(state)@
        }),
{
    state.config.servers.insert(state.selected, server);
    proof {
        assert(crate::config::server_views(state.config.servers@) =~= old(state)@.config.servers.insert(
            old(state).selected as int,
            server@,
        ));
    }
}

pub fn toggle_selected_enabled(state: &mut ConfigManagerState)
    requires
        manager_wf(old(state)@),
    ensures
        manager_wf(final(state)@),
        final(state)@ == toggled_enabled(old(state)@),
{
    if state.selected >= state.config.servers.len() {
        return;
    }
    let ghost s0 = state@;
    let mut server = take_selected(state);
    server.enabled = !server.enabled;
    let m = toggle_text(&server.name, "enabled", server.enabled);
    put_selected(state, server);
    state.health_refresh_requested = true;
    state.message = m;
    assert(state@.config.servers =~= s0.config.servers.update(
        s0.selected as int,
        ServerView { enabled: !s0.config.servers[s0.selected as int].enabled, ..s0.config.servers[s0.selected as int] },
    ));
}

/// Flipping `optional` of the selected server asks for a health check.
pub open spec fn toggled_optional(s: ManagerView) -> ManagerView {
    match selected_view(s) {
        Some(v) => ManagerView {
            refresh_requested: true,
            message: toggle_message(v.name, "optional"@, !v.optional),
            ..with_selected(s, ServerView { optional: !v.optional, ..v })
        },
        None => s,
    }
}

pub fn toggle_selected_optional(state: &mut ConfigManagerState)
    requires
        manager_wf(old(state)@),
    ensures
        manager_wf(final(state)@),
        final(state)@ == toggled_optional(old(state)@),
{
    if state.selected >= state.config.servers.len() {
        return;
    }
    let ghost s0 = state@;
    let mut server = take_selected(state);
    server.optional = !server.optional;
    let m = toggle_text(&server.name, "optional", server.optional);
    put_selected(state, server);
    state.health_refresh_requested = true;
    state.message = m;
    assert(state@.config.servers =~= s0.config.servers.update(
        s0.selected as int,
        ServerView { optional: !s0.config.servers[s0.selected as int].optional, ..s0.config.servers[s0.selected as int] },
    ));
}

/// The servers at `i` and `j` exchanged.
pub open spec fn swapped(v: Seq<ServerView>, i: int, j: int) -> Seq<ServerView> {
    v.update(i, v[j]).update(j, v[i])
}

proof fn lemma_swapped_symmetric(v: Seq<ServerView>, i: int, j: int)
    requires
        0 <= i < v.len(),
        0 <= j < v.len(),
    ensures
        swapped(v, i, j) == swapped(v, j, i),
{
    assert(swapped(v, i, j) =~= swapped(v, j, i));
}

/// The selected server moves one place up, and the selection with it.
pub open spec fn moved_up(s: ManagerView) -> ManagerView {
    if s.selected > 0 && s.selected < s.config.servers.len() {
        ManagerView {
            config: AppView {
                servers: swapped(s.config.servers, s.selected as int, s.selected - 1),
                ..s.config
            },
            selected: (s.selected - 1) as usize,
            refresh_requested: true,
            message: "moved selected server up"@,
            ..s
        }
    } else {
        s
    }
}

fn swap_servers(state: &mut ConfigManagerState, i: usize, j: usize)
    requires
        i < j < old(state).config.servers@.len(),
    ensures
        final(state)@ == (ManagerView {
            config: AppView {
                servers: swapped(old(state)@.config.servers, i as int, j as int),
                ..old(state)@.config
            },
            ..old(state)@
        }),
{
    let ghost v0 = old(state).config.servers@;
    let b = state.config.servers.remove(j);
    let a = state.config.servers.remove(i);
    state.config.servers.insert(i, b);
    state.config.servers.insert(j, a);
    proof {
        assert(state.config.servers@ =~= v0.update(i as int, v0[j as int]).update(j as int, v0[i as int]));
        assert(crate::config::server_views(state.config.servers@) =~= swapped(
            old(state)@.config.servers,
            i as int,
            j as int,
        ));
    }
}

pub fn move_selected_server_up(state: &mut ConfigManagerState)
    requires
        manager_wf(old(state)@),
    ensures
        manager_wf(final(state)@),
        final(state)@ == moved_up(old(state)@),
{
    if state.selected > 0 && state.selected < state.config.servers.len() {
        proof {
            lemma_swapped_symmetric(state@.config.servers, state.selected as int, state.selected - 1);
        }
        swap_servers(state, state.selected - 1, state.selected);
        state.selected = state.selected - 1;
        state.health_refresh_requested = true;
        state.message = String::from_str("moved selected server up");
    }
}

/// The selected server moves one place down, and the selection with it.
pub open spec fn moved_down(s: ManagerView) -> ManagerView {
    if s.selected + 1 < s.config.servers.len() {
        ManagerView {
            config: AppView {
                servers: swapped(s.config.servers, s.selected as int, s.selected + 1),
                ..s.config
            },
            selected: (s.selected + 1) as usize,
            refresh_requested: true,
            message: "moved selected server down"@,
            ..s
        }
    } else {
        s
    }
}

pub fn move_selected_server_down(state: &mut ConfigManagerState)
    requires
        manager_wf(old(state)@),
    ensures
        manager_wf(final(state)@),
        final(state)@ == moved_down(old(state)@),
{
    if state.selected < state.config.servers.len() && state.selected + 1 < state.config.servers.len() {
        swap_servers(state, state.selected, state.selected + 1);
        state.selected = state.selected + 1;
        state.health_refresh_requested = true;
        state.message = String::from_str("moved selected server down");
    }
}

/// The selection after the server at `i` of `n` servers was removed.
pub open spec fn clamped(i: usize, n: nat) -> usize {
    if n == 0 {
        0
    } else if i < n {
        i
    } else {
        (n - 1) as usize
    }
}

/// Deleting removes the selected server and keeps the selection in range.
pub open spec fn deleted(s: ManagerView) -> ManagerView {
    if s.config.servers.len() == 0 {
        ManagerView { message: "nothing to delete"@, ..s }
    } else {
        let v = s.config.servers[s.selected as int];
        let rest = s.config.servers.remove(s.selected as int);
        ManagerView {
            config: AppView { servers: rest, ..s.config },
            selected: clamped(s.selected, rest.len()),
            refresh_requested: true,
            message: "deleted server "@ + v.name + " ("@ + v.id + ")"@,
            ..s
        }
    }
}

pub fn delete_selected_server(state: &mut ConfigManagerState)
    requires
        manager_wf(old(state)@),
    ensures
        final(state)@ == deleted(old(state)@),
        manager_wf(final(state)@),
{
    if state.config.servers.len() == 0 {
        state.message = String::from_str("nothing to delete");
        return;
    }
    let removed = take_selected(state);
    state.clamp_selection();
    state.health_refresh_requested = true;
    let mut m = String::from_str("deleted server ");
    m.append(removed.name.as_str());
    m.append(" (");
    m.append(removed.id.as_str());
    m.append(")");
    state.message = m;
}

/// Leaving with unsaved changes asks first, closing the wizard and the
/// editor; otherwise it leaves.
pub open spec fn exit_requested(s: ManagerView) -> (ManagerView, ConfigManagerControl) {
    if s.config != s.saved {
        (
            ManagerView {
                adding: None,
                editing: false,
                edit_value_field: None,
                input: Seq::empty(),
                pending: Some(PendingConfirmation::ExitUnsaved),
                message: "Unsaved changes. Save before quit?"@,
                ..s
            },
            ConfigManagerControl::Continue,
        )
    } else {
        (s, ConfigManagerControl::Exit)
    }
}

pub fn request_config_exit(state: &mut ConfigManagerState) -> (r: ConfigManagerControl)
    requires
        manager_wf(old(state)@),
    ensures
        manager_wf(final(state)@),
        (final(state)@, r) == exit_requested(old(state)@),
{
    if state.is_dirty() {
        state.adding = None;
        state.editing = false;
        state.edit_value_field = None;
        state.input = String::new();
        state.pending_confirmation = Some(PendingConfirmation::ExitUnsaved);
        state.message = String::from_str("Unsaved changes. Save before quit?");
        ConfigManagerControl::Continue
    } else {
        ConfigManagerControl::Exit
    }
}

/// `field=value` on the selected server: split at the first `=`, both
/// sides trimmed; on success a health check is asked for and the message
/// names the field; otherwise nothing changes and the message is returned.
pub open spec fn assignment_step(s: ManagerView, assignment: Seq<char>) -> (ManagerView, Result<(), Seq<char>>) {
    match split_once(assignment, '=') {
        None => (s, Err("expected field=value"@)),
        Some(p) => {
            let field = trim(p.0);
            let value = trim(p.1);
            match selected_view(s) {
                None => (s, Err("no server selected"@)),
                Some(v) => match assign_spec(v, field, value) {
                    Ok(nv) => (
                        ManagerView {
                            refresh_requested: true,
                            message: "updated "@ + field,
                            ..with_selected(s, nv)
                        },
                        Ok(()),
                    ),
                    Err(m) => (s, Err(m)),
                },
            }
        },
    }
}

pub fn apply_server_assignment(state: &mut ConfigManagerState, assignment: &str) -> (r: Result<(), EditError>)
    requires
        manager_wf(old(state)@),
    ensures
        manager_wf(final(state)@),
        final(state)@ == assignment_step(old(state)@, assignment@).0,
        match assignment_step(old(state)@, assignment@).1 {
            Ok(_) => r is Ok,
            Err(m) => r matches Err(e) && e.message@ == m,
        },
{
    let a = chars_of(assignment);
    let eq = match find_first(&a, '=') {
        Some(i) => i,
        None => {
            return Err(EditError { message: String::from_str("expected field=value") });
        },
    };
    let field = trim_chars(&sub_chars(&a, 0, eq));
    let value = trim_chars(&sub_chars(&a, eq + 1, a.len()));
    assert(a@.take(eq as int) == a@.subrange(0, eq as int));
    assert(a@.skip(eq + 1) == a@.subrange(eq + 1, a@.len() as int));
    if state.selected >= state.config.servers.len() {
        return Err(EditError { message: String::from_str("no server selected") });
    }
    let ghost s0 = state@;
    let fs = string_of(&field);
    let vs = string_of(&value);
    let mut server = take_selected(state);
    let r = assign_field(&mut server, fs.as_str(), vs.as_str());
    let ok = r.is_ok();
    put_selected(state, server);
    assert(state@.config.servers =~= s0.config.servers.update(s0.selected as int, state@.config.servers[s0.selected as int]));
    if ok {
        state.health_refresh_requested = true;
        let m = String::from_str("updated ");
        state.message = m.concat(fs.as_str());
        Ok(())
    } else {
        assert(state@.config.servers =~= s0.config.servers);
        r
    }
}

/// The editor opens on the fields of the selected server, or says to add
/// one first.
pub open spec fn editor_opened(s: ManagerView) -> ManagerView {
    if s.config.servers.len() == 0 {
        ManagerView { message: "add a server first"@, ..s }
    } else {
        ManagerView {
            editing: true,
            edit_value_field: None,
            input: Seq::empty(),
            message: "editing server fields"@,
            ..s
        }
    }
}

pub fn enter_config_field_editor(state: &mut ConfigManagerState)
    requires
        manager_wf(old(state)@),
    ensures
        manager_wf(final(state)@),
        final(state)@ == editor_opened(old(state)@),
{
    if state.config.servers.len() == 0 {
        state.message = String::from_str("add a server first");
        return;
    }
    state.editing = true;
    state.edit_value_field = None;
    state.input = String::new();
    state.message = String::from_str("editing server fields");
}

/// What `c` shows for the selected server: the `ssh-copy-id` command for a
/// valid SSH host, why it is skipped for an invalid one, and that it
/// applies only to SSH servers otherwise.
pub open spec fn copy_id_shown(s: ManagerView) -> ManagerView {
    match selected_view(s) {
        None => s,
        Some(v) => match v.source {
            SourceView::Ssh(h) => if valid_ssh_host(h) {
                ManagerView { message: "Command: ssh-copy-id "@ + h, ..s }
            } else {
                ManagerView { message: "ssh-copy-id skipped: invalid ssh host `"@ + h + "`"@, ..s }
            },
            _ => ManagerView {
                message: "ssh-copy-id applies only to SSH servers; edit source to ssh first"@,
                ..s
            },
        },
    }
}

pub fn show_selected_copy_id_command(state: &mut ConfigManagerState)
    requires
        manager_wf(old(state)@),
    ensures
        manager_wf(final(state)@),
        final(state)@ == copy_id_shown(old(state)@),
{
    let m = match state.selected_server() {
        None => {
            return;
        },
        Some(server) => match &server.source {
            HostSource::Ssh { host } => {
                if validate_ssh_host(host.as_str()).is_ok() {
                    let s = String::from_str("Command: ssh-copy-id ");
                    s.concat(host.as_str())
                } else {
                    let mut s = String::from_str("ssh-copy-id skipped: invalid ssh host `");
                    s.append(host.as_str());
                    s.append("`");
                    s
                }
            },
            _ => String::from_str("ssh-copy-id applies only to SSH servers; edit source to ssh first"),
        },
    };
    state.message = m;
}

/// An added server goes last and is selected, and a health check is asked for.
pub open spec fn server_added(s: ManagerView, v: ServerView, message: Seq<char>) -> ManagerView {
    ManagerView {
        config: AppView { servers: s.config.servers.push(v), ..s.config },
        selected: s.config.servers.len() as usize,
        refresh_requested: true,
        message: message,
        ..s
    }
}

pub open spec fn ids_of(s: ManagerView) -> Seq<Seq<char>> {
    s.config.servers.map_values(|v: ServerView| v.id)
}

/// A server for an SSH target: a unique id and a display name from
/// `name_hint`, the given host.
pub open spec fn ssh_server_added(s: ManagerView, name_hint: Seq<char>, host: Seq<char>) -> ManagerView {
    server_added(
        s,
        ServerView {
            id: unique_id_for(ids_of(s), safe_id_text(safe_id_text(name_hint))),
            name: display_name_text(name_hint),
            source: SourceView::Ssh(host),
            group: None,
            role: None,
            enabled: true,
            optional: true,
            disk_max_rows: None,
            disk_aliases: Seq::empty(),
        },
        "added SSH server: "@ + host + ". Press r to test, c to show ssh-copy-id."@,
    )
}

proof fn lemma_ids_of(c: AppConfig)
    ensures
        server_ids(c) == c@.servers.map_values(|v: ServerView| v.id),
{
    assert(server_ids(c) =~= c@.servers.map_values(|v: ServerView| v.id));
}

pub fn add_ssh_target_server(state: &mut ConfigManagerState, name_hint: &str, host: &str)
    requires
        manager_wf(old(state)@),
        old(state)@.config.servers.len() < usize::MAX,
    ensures
        manager_wf(final(state)@),
        final(state)@ == ssh_server_added(old(state)@, name_hint@, host@),
{
    proof {
        lemma_ids_of(state.config);
    }
    let base = server_id_from_target(name_hint);
    let id = unique_server_id_from_base(&state.config, base.as_str());
    let name = display_name_from_target(name_hint);
    let server = ServerConfig::ssh(id.as_str(), name.as_str(), host);
    let ghost s0 = state@;
    state.config.servers.push(server);
    assert(state@.config.servers =~= s0.config.servers.push(server@));
    state.selected = state.config.servers.len() - 1;
    state.health_refresh_requested = true;
    let mut m = String::from_str("added SSH server: ");
    m.append(host);
    m.append(". Press r to test, c to show ssh-copy-id.");
    state.message = m;
}

/// A server for this machine: id `local` (or the next free `local-<k>`),
/// named `Local`, or `Local <n>` after the id was taken, `n` being the new
/// number of servers.
pub open spec fn local_server_added(s: ManagerView) -> ManagerView {
    let id = unique_id_for(ids_of(s), safe_id_text("local"@));
    server_added(
        s,
        ServerView {
            id: id,
            name: if id == "local"@ {
                "Local"@
            } else {
                "Local "@ + decimal((s.config.servers.len() + 1) as nat)
            },
            source: SourceView::Local,
            group: None,
            role: None,
            enabled: true,
            optional: false,
            disk_max_rows: None,
            disk_aliases: Seq::empty(),
        },
        "added local server"@,
    )
}

pub fn add_local_server(state: &mut ConfigManagerState)
    requires
        manager_wf(old(state)@),
        old(state)@.config.servers.len() + 1 < usize::MAX,
    ensures
        manager_wf(final(state)@),
        final(state)@ == local_server_added(old(state)@),
{
    proof {
        lemma_ids_of(state.config);
    }
    let id = unique_server_id_from_base(&state.config, "local");
    let idc = chars_of(id.as_str());
    let name = if crate::text::eq_str(&idc, "local") {
        String::from_str("Local")
    } else {
        let s = String::from_str("Local ");
        s.concat(u64_text((state.config.servers.len() + 1) as u64).as_str())
    };
    let server = ServerConfig::local(id.as_str(), name.as_str());
    let ghost s0 = state@;
    state.config.servers.push(server);
    assert(state@.config.servers =~= s0.config.servers.push(server@));
    state.selected = state.config.servers.len() - 1;
    state.health_refresh_requested = true;
    state.message = String::from_str("added local server");
}

/// The wizard opens on the SSH config hosts, with the first option
/// highlighted; the message says what was found.
pub open spec fn wizard_opened(s: ManagerView, hosts: Seq<EntryView>, local_available: bool) -> ManagerView {
    ManagerView {
        adding: Some(
            AddView {
                hosts: hosts,
                selected: 0,
                direct_input: false,
                input: Seq::empty(),
                local_available: local_available,
            },
        ),
        editing: false,
        edit_value_field: None,
        pending: None,
        message: if hosts.len() == 0 && local_available {
            "add server: no ~/.ssh/config hosts found; use direct SSH target or local"@
        } else if hosts.len() == 0 {
            "add server: no SSH config hosts found; use direct SSH target"@
        } else {
            "add server: found "@ + decimal(hosts.len()) + " SSH config host(s)"@
        },
        ..s
    }
}

/// Opens the add-server wizard with the hosts read from the SSH config;
/// `local_available` tells whether this machine can be collected.
pub fn enter_add_server_wizard(
    state: &mut ConfigManagerState,
    hosts: Vec<SshConfigEntry>,
    local_available: bool,
)
    requires
        hosts@.len() + 2 <= usize::MAX,
    ensures
        final(state)@ == wizard_opened(old(state)@, entry_views(hosts@), local_available),
        manager_wf(old(state)@) ==> manager_wf(final(state)@),
{
    let count = hosts.len();
    state.adding = Some(
        AddServerState {
            hosts,
            selected: 0,
            direct_input: false,
            input: String::new(),
            local_available,
        },
    );
    state.editing = false;
    state.edit_value_field = None;
    state.pending_confirmation = None;
    state.message = if count == 0 && local_available {
        String::from_str("add server: no ~/.ssh/config hosts found; use direct SSH target or local")
    } else if count == 0 {
        String::from_str("add server: no SSH config hosts found; use direct SSH target")
    } else {
        let mut m = String::from_str("add server: found ");
        m.append(u64_text(count as u64).as_str());
        m.append(" SSH config host(s)");
        m
    };
}


/// Moving the selected server up and then down again gives back the same
/// server order and the same selection.
pub proof fn lemma_move_up_then_down_restores(s: ManagerView)
    requires
        manager_wf(s),
        s.selected > 0,
    ensures
        moved_down(moved_up(s)).config == s.config,
        moved_down(moved_up(s)).selected == s.selected,
{
    let v = s.config.servers;
    let i = s.selected as int;
    assert(swapped(swapped(v, i, i - 1), i - 1, i) =~= v);
}

/// Moving the selected server down and then up again gives back the same
/// server order and the same selection.
pub proof fn lemma_move_down_then_up_restores(s: ManagerView)
    requires
        manager_wf(s),
        s.selected + 1 < s.config.servers.len() <= usize::MAX,
    ensures
        moved_up(moved_down(s)).config == s.config,
        moved_up(moved_down(s)).selected == s.selected,
{
    let v = s.config.servers;
    let i = s.selected as int;
    assert(swapped(swapped(v, i, i + 1), i + 1, i) =~= v);
}

/// Flipping `enabled` of the selected server twice gives back the same
/// configuration and selection.
pub proof fn lemma_toggle_enabled_twice_restores(s: ManagerView)
    requires
        manager_wf(s),
    ensures
        toggled_enabled(toggled_enabled(s)).config == s.config,
        toggled_enabled(toggled_enabled(s)).selected == s.selected,
{
    if s.selected < s.config.servers.len() {
        let v = s.config.servers[s.selected as int];
        let once = toggled_enabled(s);
        assert(selected_view(once) == Some(ServerView { enabled: !v.enabled, ..v }));
        assert(toggled_enabled(once).config.servers =~= s.config.servers);
    }
}

/// Flipping `optional` of the selected server twice gives back the same
/// configuration and selection.
pub proof fn lemma_toggle_optional_twice_restores(s: ManagerView)
    requires
        manager_wf(s),
    ensures
        toggled_optional(toggled_optional(s)).config == s.config,
        toggled_optional(toggled_optional(s)).selected == s.selected,
{
    if s.selected < s.config.servers.len() {
        let v = s.config.servers[s.selected as int];
        let once = toggled_optional(s);
        assert(selected_view(once) == Some(ServerView { optional: !v.optional, ..v }));
        assert(toggled_optional(once).config.servers =~= s.config.servers);
    }
}

/// A refused assignment leaves the manager as it was, and an assignment is
/// refused exactly when it has no `=`, no server is selected, or the
/// selected server refuses the trimmed field and value (see
/// `lemma_assignment_refused_exactly`).
pub proof fn lemma_refused_assignment_changes_nothing(s: ManagerView, a: Seq<char>)
    ensures
        assignment_step(s, a).1 is Err ==> assignment_step(s, a).0 == s,
        assignment_step(s, a).1 is Err <==> match split_once(a, '=') {
            None => true,
            Some(p) => match selected_view(s) {
                None => true,
                Some(v) => assign_spec(v, trim(p.0), trim(p.1)) is Err,
            },
        },
{
}

} // verus!
