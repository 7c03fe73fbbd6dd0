use rktop::config::{config_to_toml, AppConfig, ServerConfig};
use rktop::edits::{assign_field, edit_field_at, ConfigEditField};
use rktop::health::{
    apply_config_health_update, begin_selected_probe, finish_selected_probe, health_after_probe,
    health_without_probe, refresh_health_message, start_config_health_check, ProbeOutcome,
};
use rktop::keys::{handle_config_key, ManagerAction};
use rktop::manager::{
    add_local_server, add_ssh_target_server, apply_server_assignment, delete_selected_server,
    enter_add_server_wizard, move_selected_server_down, move_selected_server_up,
    select_next_server, select_previous_server, toggle_selected_enabled, toggle_selected_optional,
    ConfigHealthStatus, ConfigManagerState, PendingConfirmation,
};
use rktop::model::HostSource;
use rktop::sshconfig::{parse_ssh_config_hosts, SshConfigEntry};
use rktop::tui::{KeyCode, KeyInput};

fn key(code: KeyCode) -> KeyInput {
    KeyInput { code, ctrl: false, press: true }
}

fn ch(c: char) -> KeyInput {
    key(KeyCode::Char(c))
}

fn manager(servers: Vec<ServerConfig>) -> ConfigManagerState {
    ConfigManagerState::new(AppConfig { refresh_interval_ms: 1_000, servers }, "config.toml".to_string())
}

/// Hands a key to the manager and carries out what it asks for, as the
/// config manager screen does, with writes kept in memory.
fn press(state: &mut ConfigManagerState, input: KeyInput, written: &mut Vec<String>) -> ManagerAction {
    let action = handle_config_key(state, input);
    match action {
        ManagerAction::OpenAddWizard => enter_add_server_wizard(state, Vec::new(), true),
        ManagerAction::Save | ManagerAction::SaveAndExit => {
            written.push(config_to_toml(&state.config));
            state.mark_saved();
        }
        _ => {}
    }
    action
}

fn type_text(state: &mut ConfigManagerState, text: &str, written: &mut Vec<String>) {
    for c in text.chars() {
        press(state, ch(c), written);
    }
}

/// Runs the health check without SSH probes, as for configs that need none.
fn run_health_check(state: &mut ConfigManagerState) {
    let servers = start_config_health_check(state, false).expect("no check is running");
    for server in &servers {
        let update = health_without_probe(server).expect("no probe needed");
        apply_config_health_update(state, update);
    }
    refresh_health_message(state);
}

#[test]
fn config_manager_adds_direct_ssh_and_edits_source_variants() {
    let mut state = manager(Vec::new());

    add_ssh_target_server(&mut state, "user@example.com", "user@example.com");

    assert!(matches!(state.config.servers[0].source, HostSource::Ssh { .. }));
    apply_server_assignment(&mut state, "source=local").unwrap();
    assert_eq!(state.config.servers[0].source, HostSource::Local);
    apply_server_assignment(&mut state, "source=proxmox").unwrap();
    assert!(matches!(state.config.servers[0].source, HostSource::Proxmox { .. }));
    apply_server_assignment(&mut state, "source=truenas-scale").unwrap();
    assert!(matches!(state.config.servers[0].source, HostSource::TrueNasScale { .. }));
}

#[test]
fn config_manager_uses_add_wizard_edit_and_space_toggle_shortcuts() {
    let mut state = manager(Vec::new());
    let mut written = Vec::new();

    press(&mut state, ch('a'), &mut written);
    assert!(state.adding.is_some(), "a should open add wizard");
    assert_eq!(state.config.servers.len(), 0);

    // Enter on the first option switches to manual SSH target input.
    press(&mut state, key(KeyCode::Enter), &mut written);
    assert!(state.adding.as_ref().unwrap().direct_input);
    type_text(&mut state, "user@example.com", &mut written);
    press(&mut state, key(KeyCode::Enter), &mut written);
    assert!(state.adding.is_none());
    assert_eq!(state.config.servers.len(), 1);
    assert_eq!(state.config.servers[0].source.endpoint(), Some("user@example.com"));

    for legacy_source_shortcut in ['l', 'p', 't'] {
        press(&mut state, ch(legacy_source_shortcut), &mut written);
    }
    assert_eq!(state.config.servers.len(), 1, "source-specific shortcuts should not add servers");

    press(&mut state, ch('e'), &mut written);
    assert!(state.editing, "e should enter field=value edit mode");
    press(&mut state, key(KeyCode::Esc), &mut written);

    assert!(state.config.servers[0].enabled);
    press(&mut state, ch(' '), &mut written);
    assert!(!state.config.servers[0].enabled);
}

#[test]
fn ssh_config_hosts_are_parsed_for_add_wizard() {
    let hosts = parse_ssh_config_hosts(
        r#"
Host *
  User ignored

Host server-1 server-2
  HostName 192.0.2.10
  User admin

Host !blocked *.wildcard literal?
  HostName ignored

Host storage
  HostName storage.example.com
"#,
    );

    assert_eq!(
        hosts,
        vec![
            SshConfigEntry {
                alias: "server-1".to_string(),
                hostname: Some("192.0.2.10".to_string()),
                user: Some("admin".to_string()),
            },
            SshConfigEntry {
                alias: "server-2".to_string(),
                hostname: Some("192.0.2.10".to_string()),
                user: Some("admin".to_string()),
            },
            SshConfigEntry {
                alias: "storage".to_string(),
                hostname: Some("storage.example.com".to_string()),
                user: None,
            },
        ]
    );
}

#[test]
fn config_manager_plain_c_shows_copy_id_and_ctrl_c_exits() {
    let mut state = manager(vec![ServerConfig::ssh("one", "One", "one-host")]);
    let mut written = Vec::new();

    let control = press(&mut state, ch('c'), &mut written);
    assert_eq!(control, ManagerAction::Continue);
    assert_eq!(state.message, "Command: ssh-copy-id one-host");
    assert!(state.pending_confirmation.is_none());

    let control = press(&mut state, KeyInput { code: KeyCode::Char('c'), ctrl: true, press: true }, &mut written);
    assert_eq!(control, ManagerAction::Exit);
}

#[test]
fn config_manager_prompts_to_save_dirty_config_on_quit() {
    let mut state = manager(Vec::new());
    let mut written = Vec::new();

    add_local_server(&mut state);
    assert!(state.is_dirty());
    let control = press(&mut state, ch('q'), &mut written);
    assert_eq!(control, ManagerAction::Continue);
    assert_eq!(state.pending_confirmation, Some(PendingConfirmation::ExitUnsaved));
    assert!(state.message.contains("Unsaved changes"));

    let control = press(&mut state, key(KeyCode::Esc), &mut written);
    assert_eq!(control, ManagerAction::Continue);
    assert!(state.pending_confirmation.is_none());
    assert!(state.is_dirty());

    let _ = press(&mut state, ch('q'), &mut written);
    let control = press(&mut state, ch('y'), &mut written);
    assert_eq!(control, ManagerAction::SaveAndExit);
    assert!(!state.is_dirty());
    assert_eq!(written.len(), 1);
    assert!(written[0].contains("id = \"local\""));
}

#[test]
fn config_manager_can_discard_dirty_config_on_quit() {
    let mut state = manager(Vec::new());
    let mut written = Vec::new();
    add_local_server(&mut state);

    let _ = press(&mut state, ch('q'), &mut written);
    let control = press(&mut state, ch('n'), &mut written);

    assert_eq!(control, ManagerAction::Exit);
    assert_eq!(state.message, "discarded unsaved changes");
    assert!(written.is_empty());
}

#[test]
fn config_manager_health_check_reports_local_ok() {
    let mut state = manager(vec![ServerConfig::local("local", "Local")]);
    let mut written = Vec::new();

    press(&mut state, ch('h'), &mut written);
    assert_eq!(state.message, "health check queued");
    assert!(state.health_refresh_requested);
    run_health_check(&mut state);
    assert_eq!(state.message, "health check queued");
    assert_eq!(state.health_message, "health: 1/1 ok");
    assert!(state.pending_confirmation.is_none());
}

#[test]
fn config_manager_edit_errors_stay_inside_tui() {
    let mut state = manager(vec![ServerConfig::ssh("one", "One", "one-host")]);
    let mut written = Vec::new();

    press(&mut state, ch('e'), &mut written);
    assert!(state.editing, "e should enter field editor");
    assert!(state.edit_value_field.is_none());

    for _ in 0..2 {
        press(&mut state, key(KeyCode::Down), &mut written);
    }
    assert_eq!(edit_field_at(state.edit_selected), ConfigEditField::Source);

    press(&mut state, key(KeyCode::Enter), &mut written);
    assert_eq!(state.edit_value_field, Some(ConfigEditField::Source));

    state.input.clear();
    type_text(&mut state, "not-a-source", &mut written);
    press(&mut state, key(KeyCode::Enter), &mut written);
    assert!(state.editing);
    assert!(state.message.contains("edit error"));

    state.input.clear();
    type_text(&mut state, "local", &mut written);
    press(&mut state, key(KeyCode::Enter), &mut written);
    assert!(state.editing);
    assert!(state.edit_value_field.is_none());
    assert_eq!(state.config.servers[0].source, HostSource::Local);
}

#[test]
fn config_manager_edits_fields_toggles_reorders_and_deletes() {
    let mut state = manager(vec![ServerConfig::ssh("one", "One", "one-host"), ServerConfig::local("two", "Two")]);

    apply_server_assignment(&mut state, "name=Primary").unwrap();
    apply_server_assignment(&mut state, "host=primary-host").unwrap();
    apply_server_assignment(&mut state, "disk_max_rows=3").unwrap();
    apply_server_assignment(&mut state, "disk_aliases=/mnt/tank:tank,/mnt/fast:fast").unwrap();
    toggle_selected_enabled(&mut state);
    toggle_selected_optional(&mut state);

    let selected = state.selected_server().unwrap();
    assert_eq!(selected.name, "Primary");
    assert_eq!(selected.source.endpoint(), Some("primary-host"));
    assert_eq!(selected.disk_max_rows, Some(3));
    let tank: Vec<char> = "/mnt/tank".chars().collect();
    assert_eq!(selected.disk_aliases.get(&tank).map(String::as_str), Some("tank"));
    assert!(!selected.enabled);
    assert!(!selected.optional, "SSH entries default to optional=true, so the optional toggle should turn it off");

    move_selected_server_down(&mut state);
    assert_eq!(state.config.servers[1].id, "one");
    delete_selected_server(&mut state);
    assert_eq!(state.config.servers.len(), 1);
    assert_eq!(state.config.servers[0].id, "two");
}

#[test]
fn config_manager_source_changes_preserve_or_reject_host_by_source() {
    let mut state = manager(vec![ServerConfig::local("box", "Box")]);

    apply_server_assignment(&mut state, "source=ssh").unwrap();
    apply_server_assignment(&mut state, "host=box-host").unwrap();
    assert_eq!(state.config.servers[0].source.endpoint(), Some("box-host"));

    apply_server_assignment(&mut state, "source=local").unwrap();
    assert!(apply_server_assignment(&mut state, "host=ignored").is_err());
}

#[test]
fn assignments_report_their_errors_and_leave_the_server_alone() {
    let mut state = manager(vec![ServerConfig::ssh("one", "One", "one-host")]);
    let before = state.config.clone();
    assert_eq!(apply_server_assignment(&mut state, "no equals").unwrap_err().message, "expected field=value");
    assert!(apply_server_assignment(&mut state, "enabled=maybe").is_err());
    assert!(apply_server_assignment(&mut state, "disk_max_rows=lots").is_err());
    assert!(apply_server_assignment(&mut state, "colour=blue").is_err());
    assert_eq!(state.config, before);

    apply_server_assignment(&mut state, " group = Rack ").unwrap();
    assert_eq!(state.config.servers[0].group.as_deref(), Some("Rack"));
    assert_eq!(state.message, "updated group");
    apply_server_assignment(&mut state, "group=").unwrap();
    assert_eq!(state.config.servers[0].group, None);

    let mut empty = manager(Vec::new());
    assert_eq!(apply_server_assignment(&mut empty, "name=x").unwrap_err().message, "no server selected");
}

#[test]
fn selection_moves_stay_inside_the_list() {
    let mut state = manager(vec![
        ServerConfig::local("a", "A"),
        ServerConfig::local("b", "B"),
        ServerConfig::local("c", "C"),
    ]);
    select_previous_server(&mut state);
    assert_eq!(state.selected, 0);
    select_next_server(&mut state);
    select_next_server(&mut state);
    select_next_server(&mut state);
    assert_eq!(state.selected, 2);
    move_selected_server_down(&mut state);
    assert_eq!(state.selected, 2);
    move_selected_server_up(&mut state);
    let ids = state.config.servers.iter().map(|s| s.id.as_str()).collect::<Vec<_>>();
    assert_eq!(ids, vec!["a", "c", "b"]);
    assert_eq!(state.selected, 1);
    delete_selected_server(&mut state);
    delete_selected_server(&mut state);
    assert_eq!(state.selected, 0);
    delete_selected_server(&mut state);
    assert!(state.config.servers.is_empty());
    delete_selected_server(&mut state);
    assert!(state.config.servers.is_empty());
}

#[test]
fn added_servers_get_unique_ids_and_names() {
    let mut state = manager(vec![ServerConfig::local("local", "Local")]);
    add_local_server(&mut state);
    assert_eq!(state.config.servers[1].id, "local-2");
    assert_eq!(state.config.servers[1].name, "Local 2");
    assert_eq!(state.selected, 1);
    assert_eq!(state.message, "added local server");

    add_ssh_target_server(&mut state, "admin@Web.Example.com", "admin@Web.Example.com");
    let added = &state.config.servers[2];
    assert_eq!(added.source, HostSource::ssh("admin@Web.Example.com"));
    assert!(added.optional);
    assert!(state.health_refresh_requested);
    add_ssh_target_server(&mut state, "admin@Web.Example.com", "admin@Web.Example.com");
    assert_ne!(state.config.servers[3].id, state.config.servers[2].id);
    assert!(state.config.servers[3].id.starts_with(&state.config.servers[2].id));
}

#[test]
fn add_wizard_offers_direct_target_local_and_config_hosts() {
    let hosts = parse_ssh_config_hosts("Host alpha\n  HostName 10.0.0.1\nHost beta\n");
    let mut state = manager(Vec::new());
    let mut written = Vec::new();
    enter_add_server_wizard(&mut state, hosts, true);
    assert_eq!(state.message, "add server: found 2 SSH config host(s)");
    let adding = state.adding.as_ref().unwrap();
    assert_eq!(adding.option_count(), 4);
    assert!(adding.selected_host().is_none());

    for _ in 0..5 {
        press(&mut state, key(KeyCode::Down), &mut written);
    }
    assert_eq!(state.adding.as_ref().unwrap().selected, 3);
    assert_eq!(state.adding.as_ref().unwrap().selected_host().unwrap().alias, "beta");
    press(&mut state, key(KeyCode::Enter), &mut written);
    assert!(state.adding.is_none());
    assert_eq!(state.config.servers[0].source, HostSource::ssh("beta"));

    enter_add_server_wizard(&mut state, Vec::new(), false);
    assert_eq!(state.message, "add server: no SSH config hosts found; use direct SSH target");
    press(&mut state, key(KeyCode::Enter), &mut written);
    press(&mut state, key(KeyCode::Enter), &mut written);
    assert_eq!(state.message, "direct SSH target is empty");
    type_text(&mut state, "-oProxyCommand=x", &mut written);
    press(&mut state, key(KeyCode::Enter), &mut written);
    assert!(state.message.starts_with("invalid SSH target: "));
    press(&mut state, key(KeyCode::Esc), &mut written);
    assert!(!state.adding.as_ref().unwrap().direct_input);
    press(&mut state, key(KeyCode::Esc), &mut written);
    assert!(state.adding.is_none());
    assert_eq!(state.message, "add server cancelled");

    enter_add_server_wizard(&mut state, Vec::new(), true);
    press(&mut state, key(KeyCode::Down), &mut written);
    press(&mut state, key(KeyCode::Enter), &mut written);
    assert_eq!(state.config.servers[1].source, HostSource::Local);
}

#[test]
fn confirmations_delete_show_keygen_or_cancel() {
    let mut state = manager(vec![ServerConfig::ssh("one", "One", "one-host"), ServerConfig::local("two", "Two")]);
    let mut written = Vec::new();
    press(&mut state, ch('d'), &mut written);
    assert_eq!(state.pending_confirmation, Some(PendingConfirmation::Delete));
    press(&mut state, ch('x'), &mut written);
    assert_eq!(state.pending_confirmation, Some(PendingConfirmation::Delete));
    press(&mut state, ch('y'), &mut written);
    assert_eq!(state.config.servers.len(), 1);
    assert!(state.pending_confirmation.is_none());

    press(&mut state, ch('g'), &mut written);
    assert_eq!(state.pending_confirmation, Some(PendingConfirmation::GenerateSshKey));
    press(&mut state, ch('Y'), &mut written);
    assert_eq!(state.message, "Command: ssh-keygen -t ed25519");

    press(&mut state, ch('d'), &mut written);
    press(&mut state, ch('n'), &mut written);
    assert_eq!(state.message, "confirmation cancelled");
    assert_eq!(state.config.servers.len(), 1);

    let action = press(&mut state, ch('s'), &mut written);
    assert_eq!(action, ManagerAction::Save);
    assert_eq!(state.message, "saved canonical config: config.toml");
    assert_eq!(press(&mut state, ch('q'), &mut written), ManagerAction::Exit);
    assert_eq!(press(&mut state, ch('r'), &mut written), ManagerAction::ProbeSelected);
}

#[test]
fn copy_id_needs_a_valid_ssh_server() {
    let mut state = manager(vec![ServerConfig::local("box", "Box"), ServerConfig::ssh("bad", "Bad", "bad host")]);
    let mut written = Vec::new();
    press(&mut state, ch('c'), &mut written);
    assert_eq!(state.message, "ssh-copy-id applies only to SSH servers; edit source to ssh first");
    press(&mut state, ch('j'), &mut written);
    press(&mut state, ch('c'), &mut written);
    assert_eq!(state.message, "ssh-copy-id skipped: invalid ssh host `bad host`");
}

#[test]
fn ssh_probes_record_their_outcome() {
    let mut state = manager(vec![ServerConfig::ssh("one", "One", "one-host"), ServerConfig::local("two", "Two")]);
    let host = begin_selected_probe(&mut state).expect("valid ssh host");
    assert_eq!(host, "one-host");
    finish_selected_probe(&mut state, "one", &host, &ProbeOutcome::Failed { stderr: " denied \n".to_string() });
    assert_eq!(state.health, vec![("one".to_string(), ConfigHealthStatus::Failed("ssh failed".to_string()))]);
    assert_eq!(state.message, "ssh failed for one-host. Press c to show ssh-copy-id. (denied)");
    finish_selected_probe(&mut state, "one", &host, &ProbeOutcome::Success);
    assert_eq!(state.health, vec![("one".to_string(), ConfigHealthStatus::Passed("ssh ok".to_string()))]);
    assert_eq!(state.message, "ssh probe ok for one-host");

    select_next_server(&mut state);
    assert_eq!(begin_selected_probe(&mut state), None);
    assert_eq!(state.message, "ssh probe applies only to source=ssh; selected local");
    assert_eq!(state.health[1], ("two".to_string(), ConfigHealthStatus::Passed("local".to_string())));
}

#[test]
fn health_summary_counts_passed_failed_and_pending_servers() {
    let mut state = manager(vec![
        ServerConfig::local("a", "A"),
        ServerConfig::ssh("b", "B", "b-host"),
        ServerConfig::ssh("c", "C", "bad host"),
        ServerConfig::local("d", "D").enabled(false),
    ]);
    assert!(start_config_health_check(&mut state, true).is_none());
    assert_eq!(state.message, "health check already running");
    let servers = start_config_health_check(&mut state, false).unwrap();
    assert_eq!(servers.len(), 3);
    assert_eq!(state.health_message, "health: checking...");
    assert_eq!(state.health[3], ("d".to_string(), ConfigHealthStatus::Pending("disabled".to_string())));
    for server in &servers {
        if let Some(update) = health_without_probe(server) {
            apply_config_health_update(&mut state, update);
        }
    }
    refresh_health_message(&mut state);
    assert!(state.health_message.starts_with("health: 1/3 ok, 1 issue, 1 checking. C: "));

    let failed = health_after_probe(&servers[1], "b-host", &ProbeOutcome::Failed { stderr: "nope".to_string() });
    assert_eq!(failed.issue.as_deref(), Some("B: ssh failed (nope)"));
    assert_eq!(failed.copy_id_host.as_deref(), Some("b-host"));
    apply_config_health_update(&mut state, failed);
    refresh_health_message(&mut state);
    assert!(state.health_message.starts_with("health: 1/3 ok, 2 issue. B: ssh failed (nope). select it and press c to show ssh-copy-id b-host"));

    let error = health_after_probe(&servers[1], "b-host", &ProbeOutcome::Error { message: "no ssh".to_string() });
    assert_eq!(error.status, ConfigHealthStatus::Failed("probe error".to_string()));
    assert_eq!(error.issue.as_deref(), Some("B: ssh probe error (no ssh)"));
    assert_eq!(ConfigHealthStatus::Pending("checking".to_string()).label(), "… checking");
    assert_eq!(ConfigHealthStatus::Failed("x".to_string()).label(), "✗ x");
    assert_eq!(ConfigHealthStatus::Passed("local".to_string()).label(), "✓ local");
}

#[test]
fn moving_and_toggling_twice_undo_each_other() {
    let servers = vec![
        ServerConfig::local("a", "A"),
        ServerConfig::ssh("b", "B", "b-host"),
        ServerConfig::local("c", "C"),
    ];
    let mut state = manager(servers.clone());
    select_next_server(&mut state);
    move_selected_server_up(&mut state);
    assert_eq!(state.config.servers[0].id, "b");
    move_selected_server_down(&mut state);
    assert_eq!(state.config.servers, servers);
    assert_eq!(state.selected, 1);

    move_selected_server_down(&mut state);
    assert_eq!(state.config.servers[2].id, "b");
    move_selected_server_up(&mut state);
    assert_eq!(state.config.servers, servers);
    assert_eq!(state.selected, 1);

    toggle_selected_enabled(&mut state);
    assert!(!state.config.servers[1].enabled);
    toggle_selected_enabled(&mut state);
    toggle_selected_optional(&mut state);
    toggle_selected_optional(&mut state);
    assert_eq!(state.config.servers, servers);
    assert!(!state.is_dirty());
}

#[test]
fn fields_written_back_as_shown_keep_the_server() {
    let server = ServerConfig::ssh("nas", "NAS", "nas-host")
        .with_group("Storage")
        .with_role("files")
        .with_disk_max_rows(4);
    for index in 0..9 {
        let field = edit_field_at(index);
        let mut copy = server.clone();
        let shown = field.current_value(&copy);
        assert!(assign_field(&mut copy, field.label(), &shown).is_ok(), "{}", field.label());
        assert_eq!(copy, server, "{}", field.label());
    }
    let mut renamed = server.clone();
    assign_field(&mut renamed, "name", "Big NAS").unwrap();
    assert_eq!(ConfigEditField::Name.current_value(&renamed), "Big NAS");
    assign_field(&mut renamed, "group", "").unwrap();
    assert_eq!(ConfigEditField::Group.current_value(&renamed), "");
    assert_eq!(renamed.group, None);
}

#[test]
fn refused_assignments_leave_the_manager_unchanged() {
    let mut state = manager(vec![ServerConfig::local("box", "Box")]);
    let before = state.config.clone();
    for assignment in ["host=ignored", "enabled=maybe", "colour=red", "no equals", "source=ftp", "disk_max_rows=x"] {
        assert!(apply_server_assignment(&mut state, assignment).is_err(), "{assignment}");
        assert_eq!(state.config, before, "{assignment}");
        assert!(!state.is_dirty());
    }
    assert!(apply_server_assignment(&mut state, "role=files").is_ok());
    assert!(state.is_dirty());
}
