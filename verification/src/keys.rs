//! The config manager's key handling: a key and the manager's state give
//! the next state and what the caller must do (save, open the wizard with
//! the SSH config hosts, probe a host, leave).
use vstd::prelude::*;
use crate::collectors::ssh::{valid_ssh_host, validate_ssh_host};
use crate::collectors::collector_error_text;
use crate::config::bool_text;
use crate::edits::{
    ConfigEditField, EDIT_FIELD_COUNT, edit_field_at, field_at, field_hint, field_label, field_value,
};
use crate::manager::{
    AddView, ConfigManagerControl, ConfigManagerState, ManagerView, PendingConfirmation,
    add_local_server, add_ssh_target_server, add_wf, apply_server_assignment, assignment_step,
    copy_id_shown, delete_selected_server, deleted, editor_opened, enter_config_field_editor,
    exit_requested, local_server_added, manager_wf, move_selected_server_down,
    move_selected_server_up, moved_down, moved_up, next_selection, option_total, request_config_exit,
    select_next_server, select_previous_server, selected_view, show_selected_copy_id_command,
    ssh_server_added, toggle_selected_enabled, toggle_selected_optional, toggled_enabled,
    toggled_optional, host_offset, add_view,
};
use crate::text::{chars_of, debug_quoted, string_of, trim, trim_chars};
use crate::tui::{KeyCode, KeyInput};

verus! {

/// What the caller does after a key: nothing more, leave, save (and then
/// leave), open the add-server wizard, or probe the selected server.
#[derive(Clone, Copy, Debug, PartialEq, Eq, Structural)]
pub enum ManagerAction {
    Continue,
    Exit,
    Save,
    SaveAndExit,
    OpenAddWizard,
    ProbeSelected,
}

pub open spec fn control_action(c: ConfigManagerControl) -> ManagerAction {
    match c {
        ConfigManagerControl::Continue => ManagerAction::Continue,
        ConfigManagerControl::Exit => ManagerAction::Exit,
    }
}

pub open spec fn exit_step(s: ManagerView) -> (ManagerView, ManagerAction) {
    (exit_requested(s).0, control_action(exit_requested(s).1))
}

pub open spec fn is_ctrl_c(k: KeyInput) -> bool {
    k.code == KeyCode::Char('c') && k.ctrl
}

pub open spec fn with_message(s: ManagerView, m: Seq<char>) -> ManagerView {
    ManagerView { message: m, ..s }
}

/// The main list: navigation, toggles, moves, the editor, saving, probing,
/// health checks, the key and copy-id commands, and leaving.
pub open spec fn main_key_step(s: ManagerView, k: KeyInput) -> (ManagerView, ManagerAction) {
    let go = ManagerAction::Continue;
    match k.code {
        KeyCode::Esc => exit_step(s),
        KeyCode::Down => (next_selection(s), go),
        KeyCode::Up => (
            ManagerView {
                selected: if s.selected > 0 {
                    (s.selected - 1) as usize
                } else {
                    0
                },
                ..s
            },
            go,
        ),
        KeyCode::Enter => (editor_opened(s), go),
        KeyCode::Char(c) => if c == 'q' || (c == 'c' && k.ctrl) {
            exit_step(s)
        } else if c == 'j' {
            (next_selection(s), go)
        } else if c == 'k' {
            (
                ManagerView {
                    selected: if s.selected > 0 {
                        (s.selected - 1) as usize
                    } else {
                        0
                    },
                    ..s
                },
                go,
            )
        } else if c == 'a' {
            (s, ManagerAction::OpenAddWizard)
        } else if c == 'd' {
            (
                ManagerView {
                    pending: Some(PendingConfirmation::Delete),
                    message: "Delete selected server?"@,
                    ..s
                },
                go,
            )
        } else if c == ' ' {
            (toggled_enabled(s), go)
        } else if c == 'o' {
            (toggled_optional(s), go)
        } else if c == '<' {
            (moved_up(s), go)
        } else if c == '>' {
            (moved_down(s), go)
        } else if c == 'e' || c == 'i' {
            (editor_opened(s), go)
        } else if c == 's' {
            (s, ManagerAction::Save)
        } else if c == 'r' {
            (s, ManagerAction::ProbeSelected)
        } else if c == 'h' {
            (ManagerView { refresh_requested: true, message: "health check queued"@, ..s }, go)
        } else if c == 'g' {
            (
                ManagerView {
                    pending: Some(PendingConfirmation::GenerateSshKey),
                    message: "Show ssh-keygen command? No command is run yet."@,
                    ..s
                },
                go,
            )
        } else if c == 'c' {
            (copy_id_shown(s), go)
        } else {
            (s, go)
        },
        _ => (s, go),
    }
}

/// A pending question: `y` confirms (deleting, showing the key command, or
/// saving before leaving), `n` declines (leaving without saving when that
/// was asked), Esc cancels.
pub open spec fn confirm_key_step(s: ManagerView, k: KeyInput, p: PendingConfirmation) -> (ManagerView, ManagerAction) {
    let cleared = ManagerView { pending: None, ..s };
    match k.code {
        KeyCode::Char(c) => if c == 'y' || c == 'Y' {
            match p {
                PendingConfirmation::Delete => (deleted(cleared), ManagerAction::Continue),
                PendingConfirmation::GenerateSshKey => (
                    with_message(cleared, "Command: ssh-keygen -t ed25519"@),
                    ManagerAction::Continue,
                ),
                PendingConfirmation::ExitUnsaved => (cleared, ManagerAction::SaveAndExit),
            }
        } else if c == 'n' || c == 'N' {
            match p {
                PendingConfirmation::ExitUnsaved => (
                    with_message(cleared, "discarded unsaved changes"@),
                    ManagerAction::Exit,
                ),
                _ => (with_message(cleared, "confirmation cancelled"@), ManagerAction::Continue),
            }
        } else {
            (s, ManagerAction::Continue)
        },
        KeyCode::Esc => (with_message(cleared, "confirmation cancelled"@), ManagerAction::Continue),
        _ => (s, ManagerAction::Continue),
    }
}

/// The outcome of an assignment, its message prefixed on failure.
pub open spec fn assignment_applied(s: ManagerView, a: Seq<char>) -> (ManagerView, bool) {
    let (s2, r) = assignment_step(s, a);
    match r {
        Ok(_) => (s2, true),
        Err(m) => (with_message(s2, "edit error: "@ + m), false),
    }
}

/// Activating the highlighted field: a toggle flips at once; another
/// field opens its value for typing, starting from the current text.
pub open spec fn field_activated(s: ManagerView) -> ManagerView {
    let f = field_at(s.edit_selected as int);
    match selected_view(s) {
        None => if f == ConfigEditField::Enabled || f == ConfigEditField::Optional {
            s
        } else {
            with_message(s, "no server selected"@)
        },
        Some(v) => if f == ConfigEditField::Enabled {
            assignment_applied(s, "enabled="@ + bool_text(!v.enabled)).0
        } else if f == ConfigEditField::Optional {
            assignment_applied(s, "optional="@ + bool_text(!v.optional)).0
        } else {
            ManagerView {
                input: field_value(f, v),
                edit_value_field: Some(f),
                message: "editing "@ + field_label(f) + ": type value, Enter apply, Esc back ("@
                    + field_hint(f) + ")"@,
                ..s
            }
        },
    }
}

/// Choosing a field: Esc closes the editor, `j`/`k` move, space, `e`, `i`
/// and Enter activate, `s` saves.
pub open spec fn select_key_step(s: ManagerView, k: KeyInput) -> (ManagerView, ManagerAction) {
    let go = ManagerAction::Continue;
    let down = ManagerView {
        edit_selected: if s.edit_selected + 1 < EDIT_FIELD_COUNT {
            (s.edit_selected + 1) as usize
        } else {
            (EDIT_FIELD_COUNT - 1) as usize
        },
        ..s
    };
    let up = ManagerView {
        edit_selected: if s.edit_selected > 0 {
            (s.edit_selected - 1) as usize
        } else {
            0
        },
        ..s
    };
    match k.code {
        KeyCode::Esc => (
            ManagerView {
                editing: false,
                edit_value_field: None,
                input: Seq::empty(),
                message: Seq::empty(),
                ..s
            },
            go,
        ),
        KeyCode::Down => (down, go),
        KeyCode::Up => (up, go),
        KeyCode::Enter => (field_activated(s), go),
        KeyCode::Char(c) => if c == 'j' {
            (down, go)
        } else if c == 'k' {
            (up, go)
        } else if c == ' ' || c == 'e' || c == 'i' {
            (field_activated(s), go)
        } else if c == 's' {
            (s, ManagerAction::Save)
        } else {
            (s, go)
        },
        _ => (s, go),
    }
}

/// Typing a value: Esc abandons it, Enter assigns it (trimmed) to the
/// field, Backspace removes the last character, other characters are added.
pub open spec fn value_key_step(s: ManagerView, k: KeyInput, f: ConfigEditField) -> ManagerView {
    match k.code {
        KeyCode::Esc => ManagerView { edit_value_field: None, input: Seq::empty(), message: Seq::empty(), ..s },
        KeyCode::Enter => {
            let (s2, ok) = assignment_applied(s, field_label(f) + "="@ + trim(s.input));
            if ok {
                ManagerView { edit_value_field: None, input: Seq::empty(), ..s2 }
            } else {
                s2
            }
        },
        KeyCode::Backspace => ManagerView {
            input: if s.input.len() > 0 {
                s.input.drop_last()
            } else {
                s.input
            },
            ..s
        },
        KeyCode::Char(c) => ManagerView { input: s.input.push(c), ..s },
        _ => s,
    }
}

pub open spec fn input_key_step(s: ManagerView, k: KeyInput) -> (ManagerView, ManagerAction) {
    if is_ctrl_c(k) {
        exit_step(s)
    } else {
        match s.edit_value_field {
            Some(f) => (value_key_step(s, k, f), ManagerAction::Continue),
            None => select_key_step(s, k),
        }
    }
}

pub open spec fn with_add(s: ManagerView, a: AddView) -> ManagerView {
    ManagerView { adding: Some(a), ..s }
}

/// The message for a direct target that is not a valid SSH host.
pub open spec fn invalid_target_message(t: Seq<char>) -> Seq<char> {
    "invalid SSH target: "@ + ("unsupported source for MVP: "@ + ("invalid SSH host alias: "@
        + debug_quoted(t)))
}

/// Typing a direct target: Esc goes back to the list, Enter adds the
/// trimmed target when it is a valid SSH host, Backspace and characters edit.
pub open spec fn direct_key_step(s: ManagerView, a: AddView, k: KeyInput) -> ManagerView {
    match k.code {
        KeyCode::Esc => with_message(
            with_add(s, AddView { direct_input: false, input: Seq::empty(), ..a }),
            "add server: choose an SSH config host, direct target, or local"@,
        ),
        KeyCode::Enter => {
            let t = trim(a.input);
            if t.len() == 0 {
                with_message(s, "direct SSH target is empty"@)
            } else if !valid_ssh_host(t) {
                with_message(s, invalid_target_message(t))
            } else {
                ssh_server_added(ManagerView { adding: None, ..s }, t, t)
            }
        },
        KeyCode::Backspace => with_add(
            s,
            AddView {
                input: if a.input.len() > 0 {
                    a.input.drop_last()
                } else {
                    a.input
                },
                ..a
            },
        ),
        KeyCode::Char(c) => with_add(s, AddView { input: a.input.push(c), ..a }),
        _ => s,
    }
}

/// The wizard's list: Esc cancels, `j`/`k` move the highlight, Enter picks
/// a direct target, the local machine, or the highlighted SSH config host.
pub open spec fn list_key_step(s: ManagerView, a: AddView, k: KeyInput) -> ManagerView {
    let down = with_add(
        s,
        AddView {
            selected: if a.selected + 1 < option_total(a) {
                (a.selected + 1) as usize
            } else {
                (option_total(a) - 1) as usize
            },
            ..a
        },
    );
    let up = with_add(
        s,
        AddView {
            selected: if a.selected > 0 {
                (a.selected - 1) as usize
            } else {
                0
            },
            ..a
        },
    );
    match k.code {
        KeyCode::Esc => with_message(ManagerView { adding: None, ..s }, "add server cancelled"@),
        KeyCode::Down => down,
        KeyCode::Up => up,
        KeyCode::Enter => if a.selected == 0 {
            with_message(
                with_add(s, AddView { direct_input: true, input: Seq::empty(), ..a }),
                "type SSH target, e.g. user@example.com, then Enter"@,
            )
        } else if a.selected == 1 && a.local_available {
            local_server_added(ManagerView { adding: None, ..s })
        } else if a.selected >= host_offset(a) && a.selected - host_offset(a) < a.hosts.len() {
            let alias = a.hosts[a.selected - host_offset(a)].alias;
            ssh_server_added(ManagerView { adding: None, ..s }, alias, alias)
        } else {
            s
        },
        KeyCode::Char(c) => if c == 'j' {
            down
        } else if c == 'k' {
            up
        } else {
            s
        },
        _ => s,
    }
}

pub open spec fn add_key_step(s: ManagerView, k: KeyInput) -> (ManagerView, ManagerAction) {
    if is_ctrl_c(k) {
        exit_step(s)
    } else {
        match s.adding {
            None => (s, ManagerAction::Continue),
            Some(a) => if a.direct_input {
                (direct_key_step(s, a, k), ManagerAction::Continue)
            } else {
                (list_key_step(s, a, k), ManagerAction::Continue)
            },
        }
    }
}

/// One key in the config manager: the wizard when open, else the field
/// editor when open, else a pending question, else the main list.
pub open spec fn config_key_step(s: ManagerView, k: KeyInput) -> (ManagerView, ManagerAction) {
    if s.adding is Some {
        add_key_step(s, k)
    } else if s.editing {
        input_key_step(s, k)
    } else {
        match s.pending {
            Some(p) => confirm_key_step(s, k, p),
            None => main_key_step(s, k),
        }
    }
}

/// No key leaves the config manager with unsaved changes unless the user
/// was asked about them: a key that exits either finds the configuration
/// saved or answers the unsaved-changes question.
pub proof fn lemma_exit_keeps_unsaved_changes(s: ManagerView, k: KeyInput)
    ensures
        config_key_step(s, k).1 == ManagerAction::Exit ==> s.config == s.saved || s.pending == Some(
            PendingConfirmation::ExitUnsaved,
        ),
        config_key_step(s, k).1 == ManagerAction::SaveAndExit ==> s.pending == Some(
            PendingConfirmation::ExitUnsaved,
        ),
{
}

/// Room for one more server.
pub open spec fn room_to_add(s: ManagerView) -> bool {
    s.config.servers.len() + 1 < usize::MAX
}

fn exit_action(state: &mut ConfigManagerState) -> (r: ManagerAction)
    requires
        manager_wf(old(state)@),
    ensures
        manager_wf(final(state)@),
        (final(state)@, r) == exit_step(old(state)@),
{
    match request_config_exit(state) {
        ConfigManagerControl::Continue => ManagerAction::Continue,
        ConfigManagerControl::Exit => ManagerAction::Exit,
    }
}

fn handle_main_key(state: &mut ConfigManagerState, key: KeyInput) -> (r: ManagerAction)
    requires
        manager_wf(old(state)@),
    ensures
        manager_wf(final(state)@),
        (final(state)@, r) == main_key_step(old(state)@, key),
{
    match key.code {
        KeyCode::Esc => exit_action(state),
        KeyCode::Down => {
            select_next_server(state);
            ManagerAction::Continue
        },
        KeyCode::Up => {
            select_previous_server(state);
            ManagerAction::Continue
        },
        KeyCode::Enter => {
            enter_config_field_editor(state);
            ManagerAction::Continue
        },
        KeyCode::Char(c) => {
            if c == 'q' || (c == 'c' && key.ctrl) {
                exit_action(state)
            } else if c == 'j' {
                select_next_server(state);
                ManagerAction::Continue
            } else if c == 'k' {
                select_previous_server(state);
                ManagerAction::Continue
            } else if c == 'a' {
                ManagerAction::OpenAddWizard
            } else if c == 'd' {
                state.pending_confirmation = Some(PendingConfirmation::Delete);
                state.message = String::from_str("Delete selected server?");
                ManagerAction::Continue
            } else if c == ' ' {
                toggle_selected_enabled(state);
                ManagerAction::Continue
            } else if c == 'o' {
                toggle_selected_optional(state);
                ManagerAction::Continue
            } else if c == '<' {
                move_selected_server_up(state);
                ManagerAction::Continue
            } else if c == '>' {
                move_selected_server_down(state);
                ManagerAction::Continue
            } else if c == 'e' || c == 'i' {
                enter_config_field_editor(state);
                ManagerAction::Continue
            } else if c == 's' {
                ManagerAction::Save
            } else if c == 'r' {
                ManagerAction::ProbeSelected
            } else if c == 'h' {
                state.health_refresh_requested = true;
                state.message = String::from_str("health check queued");
                ManagerAction::Continue
            } else if c == 'g' {
                state.pending_confirmation = Some(PendingConfirmation::GenerateSshKey);
                state.message = String::from_str("Show ssh-keygen command? No command is run yet.");
                ManagerAction::Continue
            } else if c == 'c' {
                show_selected_copy_id_command(state);
                ManagerAction::Continue
            } else {
                ManagerAction::Continue
            }
        },
        _ => ManagerAction::Continue,
    }
}

fn handle_confirmation_key(state: &mut ConfigManagerState, key: KeyInput, confirmation: PendingConfirmation) -> (r: ManagerAction)
    requires
        manager_wf(old(state)@),
    ensures
        manager_wf(final(state)@),
        (final(state)@, r) == confirm_key_step(old(state)@, key, confirmation),
{
    match key.code {
        KeyCode::Char(c) => {
            if c == 'y' || c == 'Y' {
                state.pending_confirmation = None;
                match confirmation {
                    PendingConfirmation::Delete => {
                        delete_selected_server(state);
                        ManagerAction::Continue
                    },
                    PendingConfirmation::GenerateSshKey => {
                        state.message = String::from_str("Command: ssh-keygen -t ed25519");
                        ManagerAction::Continue
                    },
                    PendingConfirmation::ExitUnsaved => ManagerAction::SaveAndExit,
                }
            } else if c == 'n' || c == 'N' {
                state.pending_confirmation = None;
                match confirmation {
                    PendingConfirmation::ExitUnsaved => {
                        state.message = String::from_str("discarded unsaved changes");
                        ManagerAction::Exit
                    },
                    _ => {
                        state.message = String::from_str("confirmation cancelled");
                        ManagerAction::Continue
                    },
                }
            } else {
                ManagerAction::Continue
            }
        },
        KeyCode::Esc => {
            state.pending_confirmation = None;
            state.message = String::from_str("confirmation cancelled");
            ManagerAction::Continue
        },
        _ => ManagerAction::Continue,
    }
}

fn apply_with_message(state: &mut ConfigManagerState, assignment: &str) -> (r: bool)
    requires
        manager_wf(old(state)@),
    ensures
        manager_wf(final(state)@),
        (final(state)@, r) == assignment_applied(old(state)@, assignment@),
{
    match apply_server_assignment(state, assignment) {
        Ok(()) => true,
        Err(e) => {
            let m = String::from_str("edit error: ");
            state.message = m.concat(e.message.as_str());
            false
        },
    }
}

/// Activates the highlighted field (see `field_activated`).
pub fn edit_selected_field_or_toggle(state: &mut ConfigManagerState)
    requires
        manager_wf(old(state)@),
    ensures
        manager_wf(final(state)@),
        final(state)@ == field_activated(old(state)@),
{
    let field = edit_field_at(state.edit_selected);
    if field.is_toggle() {
        let assignment = match state.selected_server() {
            None => {
                return;
            },
            Some(server) => {
                if field == ConfigEditField::Enabled {
                    let s = String::from_str("enabled=");
                    s.concat(if !server.enabled {
                        "true"
                    } else {
                        "false"
                    })
                } else {
                    let s = String::from_str("optional=");
                    s.concat(if !server.optional {
                        "true"
                    } else {
                        "false"
                    })
                }
            },
        };
        apply_with_message(state, assignment.as_str());
        return;
    }
    let (value, msg) = match state.selected_server() {
        None => {
            state.message = String::from_str("no server selected");
            return;
        },
        Some(server) => {
            let value = field.current_value(server);
            let mut m = String::from_str("editing ");
            m.append(field.label());
            m.append(": type value, Enter apply, Esc back (");
            m.append(field.hint());
            m.append(")");
            (value, m)
        },
    };
    state.input = value;
    state.edit_value_field = Some(field);
    state.message = msg;
}

fn handle_field_select_key(state: &mut ConfigManagerState, key: KeyInput) -> (r: ManagerAction)
    requires
        manager_wf(old(state)@),
    ensures
        manager_wf(final(state)@),
        (final(state)@, r) == select_key_step(old(state)@, key),
{
    let down: usize = if state.edit_selected < EDIT_FIELD_COUNT - 1 {
        state.edit_selected + 1
    } else {
        EDIT_FIELD_COUNT - 1
    };
    let up: usize = if state.edit_selected > 0 {
        state.edit_selected - 1
    } else {
        0
    };
    match key.code {
        KeyCode::Esc => {
            state.editing = false;
            state.edit_value_field = None;
            state.input = String::new();
            state.message = String::new();
            ManagerAction::Continue
        },
        KeyCode::Down => {
            state.edit_selected = down;
            ManagerAction::Continue
        },
        KeyCode::Up => {
            state.edit_selected = up;
            ManagerAction::Continue
        },
        KeyCode::Enter => {
            edit_selected_field_or_toggle(state);
            ManagerAction::Continue
        },
        KeyCode::Char(c) => {
            if c == 'j' {
                state.edit_selected = down;
                ManagerAction::Continue
            } else if c == 'k' {
                state.edit_selected = up;
                ManagerAction::Continue
            } else if c == ' ' || c == 'e' || c == 'i' {
                edit_selected_field_or_toggle(state);
                ManagerAction::Continue
            } else if c == 's' {
                ManagerAction::Save
            } else {
                ManagerAction::Continue
            }
        },
        _ => ManagerAction::Continue,
    }
}

fn pop_char(s: &mut String)
    ensures
        final(s)@ == if old(s)@.len() > 0 {
            old(s)@.drop_last()
        } else {
            old(s)@
        },
{
    let v = chars_of(s.as_str());
    if v.len() > 0 {
        let mut w = v;
        w.pop();
        *s = string_of(&w);
    }
}

fn handle_value_key(state: &mut ConfigManagerState, key: KeyInput, field: ConfigEditField)
    requires
        manager_wf(old(state)@),
    ensures
        manager_wf(final(state)@),
        final(state)@ == value_key_step(old(state)@, key, field),
{
    match key.code {
        KeyCode::Esc => {
            state.edit_value_field = None;
            state.input = String::new();
            state.message = String::new();
        },
        KeyCode::Enter => {
            let mut a = String::from_str(field.label());
            a.append("=");
            let t = trim_chars(&chars_of(state.input.as_str()));
            a.append(string_of(&t).as_str());
            if apply_with_message(state, a.as_str()) {
                state.edit_value_field = None;
                state.input = String::new();
            }
        },
        KeyCode::Backspace => {
            pop_char(&mut state.input);
        },
        KeyCode::Char(c) => {
            state.input.push(c);
        },
        _ => {},
    }
}

fn handle_input_key(state: &mut ConfigManagerState, key: KeyInput) -> (r: ManagerAction)
    requires
        manager_wf(old(state)@),
    ensures
        manager_wf(final(state)@),
        (final(state)@, r) == input_key_step(old(state)@, key),
{
    if key.code == KeyCode::Char('c') && key.ctrl {
        return exit_action(state);
    }
    match state.edit_value_field {
        Some(field) => {
            handle_value_key(state, key, field);
            ManagerAction::Continue
        },
        None => handle_field_select_key(state, key),
    }
}

fn handle_direct_key(state: &mut ConfigManagerState, key: KeyInput)
    requires
        manager_wf(old(state)@),
        old(state)@.adding matches Some(a) && a.direct_input,
        room_to_add(old(state)@),
    ensures
        manager_wf(final(state)@),
        final(state)@ == direct_key_step(old(state)@, old(state)@.adding->Some_0, key),
{
    let ghost s0 = state@;
    let mut a = state.adding.take().unwrap();
    match key.code {
        KeyCode::Esc => {
            a.direct_input = false;
            a.input = String::new();
            state.adding = Some(a);
            state.message = String::from_str(
                "add server: choose an SSH config host, direct target, or local",
            );
        },
        KeyCode::Enter => {
            let t = trim_chars(&chars_of(a.input.as_str()));
            if t.len() == 0 {
                state.adding = Some(a);
                state.message = String::from_str("direct SSH target is empty");
                return;
            }
            let target = string_of(&t);
            match validate_ssh_host(target.as_str()) {
                Err(e) => {
                    state.adding = Some(a);
                    let m = String::from_str("invalid SSH target: ");
                    state.message = m.concat(e.message().as_str());
                },
                Ok(()) => {
                    add_ssh_target_server(state, target.as_str(), target.as_str());
                },
            }
        },
        KeyCode::Backspace => {
            pop_char(&mut a.input);
            state.adding = Some(a);
        },
        KeyCode::Char(c) => {
            a.input.push(c);
            state.adding = Some(a);
        },
        _ => {
            state.adding = Some(a);
        },
    }
}

fn handle_list_key(state: &mut ConfigManagerState, key: KeyInput)
    requires
        manager_wf(old(state)@),
        old(state)@.adding matches Some(a) && !a.direct_input && add_wf(a),
        room_to_add(old(state)@),
    ensures
        manager_wf(final(state)@),
        final(state)@ == list_key_step(old(state)@, old(state)@.adding->Some_0, key),
{
    let mut a = state.adding.take().unwrap();
    let count = a.option_count();
    let down: usize = if a.selected + 1 < count {
        a.selected + 1
    } else {
        count - 1
    };
    let up: usize = if a.selected > 0 {
        a.selected - 1
    } else {
        0
    };
    let mut go_down = false;
    let mut go_up = false;
    match key.code {
        KeyCode::Esc => {
            state.message = String::from_str("add server cancelled");
            return;
        },
        KeyCode::Down => {
            go_down = true;
        },
        KeyCode::Up => {
            go_up = true;
        },
        KeyCode::Enter => {
            if a.selected == 0 {
                a.direct_input = true;
                a.input = String::new();
                state.adding = Some(a);
                state.message = String::from_str(
                    "type SSH target, e.g. user@example.com, then Enter",
                );
                return;
            }
            if a.selected == 1 && a.local_option_available() {
                add_local_server(state);
                return;
            }
            let alias = match a.selected_host() {
                Some(h) => h.alias.clone(),
                None => {
                    state.adding = Some(a);
                    return;
                },
            };
            add_ssh_target_server(state, alias.as_str(), alias.as_str());
            return;
        },
        KeyCode::Char(c) => {
            if c == 'j' {
                go_down = true;
            } else if c == 'k' {
                go_up = true;
            }
        },
        _ => {},
    }
    if go_down {
        a.selected = down;
    } else if go_up {
        a.selected = up;
    }
    state.adding = Some(a);
}

fn handle_add_server_key(state: &mut ConfigManagerState, key: KeyInput) -> (r: ManagerAction)
    requires
        manager_wf(old(state)@),
        room_to_add(old(state)@),
    ensures
        manager_wf(final(state)@),
        (final(state)@, r) == add_key_step(old(state)@, key),
{
    if key.code == KeyCode::Char('c') && key.ctrl {
        return exit_action(state);
    }
    let direct = match &state.adding {
        None => {
            return ManagerAction::Continue;
        },
        Some(a) => a.direct_input,
    };
    if direct {
        handle_direct_key(state, key);
    } else {
        handle_list_key(state, key);
    }
    ManagerAction::Continue
}

/// Handles one key (see `config_key_step`).
pub fn handle_config_key(state: &mut ConfigManagerState, key: KeyInput) -> (r: ManagerAction)
    requires
        manager_wf(old(state)@),
        room_to_add(old(state)@),
    ensures
        manager_wf(final(state)@),
        (final(state)@, r) == config_key_step(old(state)@, key),
{
    if state.adding.is_some() {
        return handle_add_server_key(state, key);
    }
    if state.editing {
        return handle_input_key(state, key);
    }
    match state.pending_confirmation {
        Some(p) => handle_confirmation_key(state, key, p),
        None => handle_main_key(state, key),
    }
}

} // verus!
