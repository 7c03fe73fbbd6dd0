use rktop::cardtext::{
    disk_bar_width, disk_detail_widths, disk_line_text, fit_text as card_fit_text, progress_bar,
    section_rule_len, section_text, short_mount,
};
use rktop::collectors::{
    facts_from_snapshot, failed_command, parse_key_values, ram_metrics, servers_to_collect,
    timed_out_command, unavailable_facts, CollectorError, DEFAULT_STALE_AFTER_NANOS,
};
use rktop::commands::{
    choose_editor, config_ok_line, config_origin_lines, config_path_or_default, doctor_line,
    doctor_outcome_summary, doctor_summary, editor_needs_shell, example_config_write, local_check_message, ssh_check_message, ssh_key_check_failure,
    unsupported_check_message,
};
use rktop::config::{AppConfig, ConfigOrigin, ServerConfig};
use rktop::disks::DiskSnapshot;
use rktop::hostview::{
    live_role, message_tone, mock_status_override, status_from_host_state, visible_hostname, MessageTone,
};
use rktop::listing::{fit_text, health_cell_text, server_list_columns, server_list_header_text, server_list_text, ServerListColumns};
use rktop::manager::ConfigHealthStatus;
use rktop::model::{HostFacts, HostSource, HostStatus};
use rktop::paths::ConfigEnv;
use rktop::theme::Status;

fn row_oracle(marker: &str, number: &str, id: &str, name: &str, source: &str, enabled: &str, required: &str, host: &str) -> String {
    format!(
        "{} {:>2} │ {:<16} │ {:<24} │ {:<11} │ {:<8} │ {:<8} │ {:<32} │",
        marker, number, id, name, source, enabled, required, host
    )
}

fn env(xdg: Option<&str>) -> ConfigEnv {
    ConfigEnv {
        rktop_config: None,
        exe_dir: None,
        xdg_config_home: xdg.map(str::to_string),
        appdata: None,
        home: None,
        userprofile: None,
        windows: false,
    }
}

#[test]
fn config_manager_server_list_truncates_long_fields_with_ellipsis() {
    let server = ServerConfig::ssh(
        "example-server-prod-long-id",
        "Example Server Very Long Display Name",
        "example-server-with-a-very-long-domain.example.com",
    );
    let rendered = format!("{} {}", server_list_text(0, &server, true), health_cell_text(None));

    assert!(rendered.contains('…'), "rendered line: {rendered}");
    assert!(
        !rendered.contains("Example Server Very Long Display Name"),
        "long name should not push later columns: {rendered}"
    );
    assert!(rendered.contains("│"), "list should keep visible column separators: {rendered}");
    assert_eq!(fit_text("Example Server", 24), "Example Server");
    assert_eq!(fit_text("Example Server", 10), "Example S…");
}

#[test]
fn server_list_rows_pad_each_column() {
    let local = ServerConfig::local("a", "A");
    assert_eq!(server_list_text(0, &local, false), row_oracle(" ", "01", "a", "A", "local", "enabled", "required", "-"));
    let ssh = ServerConfig::ssh("web", "Web", "web-host").enabled(false);
    assert_eq!(
        server_list_text(11, &ssh, true),
        row_oracle(">", "12", "web", "Web", "ssh", "disabled", "optional", "web-host")
    );
    assert_eq!(server_list_header_text(), row_oracle(" ", "#", "ID", "NAME", "SOURCE", "STATUS", "REQUIRED", "HOST"));
    let columns = ServerListColumns {
        marker: "*".to_string(),
        number: "123".to_string(),
        id: "x".repeat(20),
        name: String::new(),
        source: "s".to_string(),
        enabled: "e".to_string(),
        required: "r".to_string(),
        host: "h".to_string(),
    };
    assert_eq!(server_list_columns(&columns), row_oracle("*", "123", &"x".repeat(20), "", "s", "e", "r", "h"));
    assert_eq!(fit_text("abc", 0), "");
    assert_eq!(fit_text("abc", 1), "…");
    assert_eq!(health_cell_text(Some(&ConfigHealthStatus::Passed("ssh ok".to_string()))), "✓ ssh ok");
    assert_eq!(health_cell_text(None), "health -");
}

#[test]
fn metric_section_labels_do_not_include_trailing_spaces() {
    let line = section_text("cpu", &vec!["12%".to_string()], 32);
    assert!(line.starts_with("─cpu─"), "rendered: {line}");
    assert_eq!(line, format!("─cpu{}12%─", "─".repeat(24)));
    assert_eq!(section_rule_len("cpu", &vec!["12%".to_string()], 32), 24);
    assert_eq!(section_rule_len("net", &vec!["↓1.0KiB/s".to_string(), "↑2B/s".to_string()], 10), 1);
    assert_eq!(
        section_text("ram", &vec!["1.0G/4.0G".to_string(), "25%".to_string()], 30),
        format!("─ram{}1.0G/4.0G─25%─", "─".repeat(30 - (1 + 3 + 12 + 2)))
    );
    assert_eq!(section_text("disk", &Vec::new(), 4), "─disk──");
}

#[test]
fn disk_lines_combine_label_bar_and_details() {
    let disks = vec![
        DiskSnapshot { mount: "/".to_string(), used_kib: 104_858, total_kib: 236_453_069, percent: 0 },
        DiskSnapshot { mount: "/mnt/tank".to_string(), used_kib: 4_089_446_400, total_kib: 13_316_000_000, percent: 31 },
    ];
    let widths = disk_detail_widths(&disks, 2);
    for disk in &disks {
        let line = disk_line_text(disk, 48, 4, widths);
        assert_eq!(line.mount, card_fit_text(&short_mount(&disk.mount), 4));
        let bar_width = disk_bar_width(48, 4, line.detail.chars().count());
        assert_eq!(line.bar, progress_bar(disk.percent, bar_width));
    }
    let tank = disk_line_text(&disks[1], 48, 4, widths);
    assert_eq!(tank.mount, "tank");
    assert_eq!(tank.detail, " 31% 3.8T/ 12.4T ");
}

#[test]
fn host_cards_show_role_and_host_names() {
    assert_eq!(live_role(Some("NAS"), &HostSource::ssh("h"), Some("boom")), "NAS: boom");
    assert_eq!(live_role(None, &HostSource::Local, None), "local");
    assert_eq!(live_role(None, &HostSource::proxmox("p"), Some("x")), "proxmox: x");
    assert_eq!(visible_hostname("cloud", Some("x"), "C"), "cloud");
    assert_eq!(visible_hostname("local", Some("LOCAL"), "L"), "local");
    assert_eq!(visible_hostname("local", Some("box"), "L"), "box");
    assert_eq!(visible_hostname("local", None, "L"), "local");
    assert_eq!(visible_hostname("web", None, "Web Server"), "web server");
    assert_eq!(visible_hostname("web", Some("h"), "Web"), "h");
}

#[test]
fn host_state_and_mock_names_settle_some_statuses() {
    assert_eq!(status_from_host_state(HostStatus::Offline), Some(Status::Unavailable));
    assert_eq!(status_from_host_state(HostStatus::Disabled), Some(Status::Unavailable));
    assert_eq!(status_from_host_state(HostStatus::Degraded), Some(Status::Warn));
    assert_eq!(status_from_host_state(HostStatus::Unknown), Some(Status::Stale));
    assert_eq!(status_from_host_state(HostStatus::Online), None);
    assert_eq!(mock_status_override("MyNAS"), Some(Status::Stale));
    assert_eq!(mock_status_override("Cloud-1"), Some(Status::Unavailable));
    assert_eq!(mock_status_override("nascloud"), Some(Status::Stale));
    assert_eq!(mock_status_override("web"), None);
}

#[test]
fn status_messages_get_a_tone() {
    assert_eq!(message_tone("Command: ssh-copy-id h"), MessageTone::Command("ssh-copy-id h".to_string()));
    assert_eq!(message_tone("edit error: x"), MessageTone::Problem);
    assert_eq!(message_tone("ssh probe could not run"), MessageTone::Problem);
    assert_eq!(message_tone("saved canonical config: c"), MessageTone::Success);
    assert_eq!(message_tone("health: 1/1 ok"), MessageTone::Success);
    assert_eq!(message_tone("editing server fields"), MessageTone::Attention);
    assert_eq!(message_tone("Delete selected server?"), MessageTone::Info);
    assert_eq!(message_tone("add server cancelled"), MessageTone::Info);
    assert_eq!(message_tone(""), MessageTone::Info);
}

#[test]
fn editor_and_config_path_choices() {
    assert_eq!(choose_editor(Some("  ".to_string()), Some("code -w".to_string()), true, false), "code -w");
    assert_eq!(choose_editor(Some("vim".to_string()), Some("x".to_string()), true, true), "vim");
    assert_eq!(choose_editor(None, None, true, false), "nano");
    assert_eq!(choose_editor(None, Some("".to_string()), false, true), "notepad");
    assert_eq!(choose_editor(None, None, false, false), "vi");
    assert!(editor_needs_shell("code -w"));
    assert!(!editor_needs_shell("  vim  "));
    assert_eq!(config_path_or_default(Some("/p".to_string()), &env(None)), Ok("/p".to_string()));
    assert_eq!(config_path_or_default(None, &env(Some("/x"))), Ok("/x/rktop/config.toml".to_string()));
    assert_eq!(
        config_path_or_default(None, &env(None)),
        Err("could not determine config path; pass --config PATH".to_string())
    );
}

#[test]
fn command_reports_and_doctor_summary() {
    let config = AppConfig {
        refresh_interval_ms: 500,
        servers: vec![ServerConfig::local("a", "A"), ServerConfig::local("b", "B").enabled(false)],
    };
    assert_eq!(config_ok_line(&config), "config ok: 1 enabled / 2 total servers, refresh 500ms");
    assert_eq!(config_origin_lines(&ConfigOrigin::File("/c".to_string())), vec!["config: /c".to_string()]);
    assert_eq!(
        config_origin_lines(&ConfigOrigin::BuiltIn { default_path: Some("/u".to_string()) }),
        vec!["config: built-in defaults".to_string(), "hint: run `rktop config` to create and set up /u".to_string()]
    );
    assert_eq!(
        config_origin_lines(&ConfigOrigin::BuiltIn { default_path: None }),
        vec!["config: built-in defaults".to_string()]
    );

    let local = ServerConfig::local("local", "Local");
    let ok = doctor_line(&local, &Ok("local collector ok (box)".to_string()));
    assert_eq!(ok, (format!("[ok]   {:<10} {:<8} {}", "Local", "required", "local collector ok (box)"), false));
    let remote = ServerConfig::ssh("nas", "A Long Server Name", "nas-host");
    let warn = doctor_line(&remote, &Err("down".to_string()));
    assert_eq!(warn, (format!("[warn] {:<10} {:<8} {}", "A Long Server Name", "optional", "down"), false));
    let fail = doctor_line(&remote.clone().optional(false), &Err("down".to_string()));
    assert_eq!(fail, (format!("[fail] {:<10} {:<8} {}", "A Long Server Name", "required", "down"), true));

    assert_eq!(doctor_summary(0, 0), Err("doctor failed: no enabled servers in config".to_string()));
    assert_eq!(doctor_summary(2, 1), Err("doctor failed: 1 required server(s) unavailable".to_string()));
    assert_eq!(doctor_summary(2, 0), Ok("doctor: ok".to_string()));
    assert_eq!(local_check_message(None), "local collector ok (localhost)");
    assert_eq!(local_check_message(Some("box".to_string())), "local collector ok (box)");
    assert_eq!(ssh_check_message("h", None), "ssh h ok (h)");
    assert_eq!(ssh_check_message("h", Some("box".to_string())), "ssh h ok (box)");
    assert_eq!(ssh_key_check_failure("h", " denied\n"), "ssh key check failed for h: denied");
    assert_eq!(
        unsupported_check_message("proxmox:p"),
        "proxmox:p source is configured but not implemented in the live collector yet"
    );
}

#[test]
fn builds_metrics_from_snapshot() {
    let server = ServerConfig::local("current", "current");
    let snapshot = parse_key_values(
        "loadavg=1 2 3\ncpu_temp_millicelsius=88600\nmem_total_kib=100\nmem_available_kib=25\n", &Vec::new()
    );
    // The load averages stay text and the temperature millidegrees in the
    // library; the program turns them into fractions when it draws.
    assert_eq!(snapshot.loadavg.as_deref(), Some("1 2 3"));
    assert_eq!(snapshot.cpu_temp_millicelsius, Some(88_600), "the sensor reads 88.6 °C in millidegrees");
    let facts: HostFacts = facts_from_snapshot(&server, HostSource::Local, snapshot);
    assert_eq!(facts.ram.used_kib, Some(75));
    assert_eq!(facts.status, HostStatus::Online);
    assert_eq!(facts.freshness.stale_after_nanos, DEFAULT_STALE_AFTER_NANOS);
    assert_eq!(facts.id, "current");
}

#[test]
fn collection_failures_and_memory_figures() {
    let ram = ram_metrics(Some(100), Some(40));
    assert_eq!(ram.used_kib, Some(60));
    assert_eq!(ram_metrics(Some(10), Some(40)).used_kib, Some(0));
    assert_eq!(ram_metrics(None, Some(1)).used_kib, None);
    assert_eq!(
        failed_command(Some(1), "  boom \n"),
        CollectorError::CommandFailed { code: Some(1), stderr: "boom".to_string() }
    );
    assert_eq!(
        timed_out_command(None, 10, " x "),
        CollectorError::CommandFailed { code: None, stderr: "SSH command timed out after 10s: x".to_string() }
    );
    assert_eq!(
        timed_out_command(Some(9), 10, "  "),
        CollectorError::CommandFailed { code: Some(9), stderr: "SSH command timed out after 10s".to_string() }
    );
    let server = ServerConfig::ssh("nas", "NAS", "nas-host").with_group("Rack");
    let facts = unavailable_facts(&server, "ssh failed".to_string());
    assert_eq!(facts.hostname.as_deref(), Some("nas-host"));
    assert_eq!(facts.status, HostStatus::Offline);
    assert_eq!(facts.error.as_deref(), Some("ssh failed"));
    assert_eq!(facts.group.as_deref(), Some("Rack"));
    assert!(facts.storage.disks.is_empty());

    let disabled = HostFacts::disabled("d".to_string(), "D".to_string(), HostSource::Local, None, None);
    assert_eq!(disabled.status, HostStatus::Disabled);
    assert_eq!(disabled.error.as_deref(), Some("host disabled in config"));

    let config = AppConfig {
        refresh_interval_ms: 1_000,
        servers: vec![
            ServerConfig::ssh("a", "A", "a-host"),
            ServerConfig::local("b", "B").enabled(false),
            ServerConfig::local("c", "C"),
        ],
    };
    let ids = |skip: Vec<String>| servers_to_collect(&config, &skip).into_iter().map(|s| s.id).collect::<Vec<_>>();
    assert_eq!(ids(Vec::new()), vec!["a".to_string(), "c".to_string()]);
    assert_eq!(ids(vec!["a".to_string(), "c".to_string()]), vec!["c".to_string()]);
}

#[test]
fn doctor_fails_only_for_required_servers() {
    let servers = vec![
        ServerConfig::local("a", "A"),
        ServerConfig::ssh("b", "B", "b-host"),
        ServerConfig::ssh("c", "C", "c-host").optional(false),
    ];
    let ok = |m: &str| Ok::<String, String>(m.to_string());
    let err = |m: &str| Err::<String, String>(m.to_string());
    assert_eq!(doctor_outcome_summary(&servers, &vec![ok("x"), err("down"), ok("y")]), Ok("doctor: ok".to_string()));
    assert_eq!(
        doctor_outcome_summary(&servers, &vec![err("x"), err("down"), err("y")]),
        Err("doctor failed: 2 required server(s) unavailable".to_string())
    );
    assert_eq!(
        doctor_outcome_summary(&Vec::new(), &Vec::new()),
        Err("doctor failed: no enabled servers in config".to_string())
    );
}

#[test]
fn init_refuses_to_overwrite_without_force() {
    assert_eq!(
        example_config_write("/tmp/c.toml", true, false),
        Err("config already exists: /tmp/c.toml\nrerun with --force to overwrite".to_string())
    );
    assert_eq!(example_config_write("/tmp/c.toml", true, true), Ok(()));
    assert_eq!(example_config_write("/tmp/c.toml", false, false), Ok(()));
}
