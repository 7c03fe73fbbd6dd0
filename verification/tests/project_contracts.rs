use rktop::cli::{run, Cli, CliError, CommandMode, Mode, RunPlan, HELP_TEXT};
use rktop::collectors::local::FIXED_COLLECT_COMMAND;
use rktop::collectors::ssh::{ssh_command_args, ssh_probe_command_args};
use rktop::collectors::{collect_route, parse_key_values, servers_to_collect, truenas, CollectRoute, CollectorError};
use rktop::config::{
    default_config, default_servers, example_config_toml, AppConfig, ServerConfig,
    DEFAULT_REFRESH_INTERVAL_MS,
};
use rktop::fixtures::{disabled_optional_fixture, fixture_hosts, fixture_hosts_for_config, fixture_hosts_with_disabled};
use rktop::model::{HostSource, HostStatus};
use rktop::paths::{default_config_path, ConfigEnv};
use rktop::setup::{setup_effect_for_source, ssh_setup_commands_for_server, SetupEffect, SshSetupCommand};
use rktop::tui::{action_from_key, adjust_refresh_interval, KeyCode, KeyInput, TuiAction};

fn args(list: &[&str]) -> Vec<String> {
    list.iter().map(|a| a.to_string()).collect()
}

#[test]
fn default_refresh_interval_is_one_second() {
    assert_eq!(DEFAULT_REFRESH_INTERVAL_MS, 1_000);
    assert_eq!(default_config().refresh_interval_ms, 1_000);
    assert!(example_config_toml().contains("refresh_interval_ms = 1000"));
}

#[test]
fn default_config_is_empty_and_first_run_does_not_embed_private_servers() {
    assert!(default_config().servers.is_empty(), "default config should start empty for first-run setup");
    let example = example_config_toml();
    assert!(!example.contains("[[servers]]"), "first-run config should not pre-populate any servers");
    assert!(example.contains("disk_aliases = {"), "example keeps commented examples");
    // Optional servers that fail are hidden: they are skipped while they wait for a retry.
    let config = AppConfig {
        refresh_interval_ms: 1_000,
        servers: vec![
            ServerConfig::ssh("optional", "Optional", "optional-host"),
            ServerConfig::ssh("required", "Required", "required-host").optional(false),
        ],
    };
    let skipped = vec!["optional".to_string(), "required".to_string()];
    let ids = servers_to_collect(&config, &skipped).into_iter().map(|s| s.id).collect::<Vec<_>>();
    assert_eq!(ids, vec!["required".to_string()]);
}

#[test]
fn fixture_data_is_config_driven_and_populates_required_metric_fields() {
    assert!(fixture_hosts().is_empty(), "fixtures follow the (empty) default servers");
    let with_disabled = fixture_hosts_with_disabled();
    assert_eq!(with_disabled.len(), 1);
    assert_eq!(with_disabled[0].facts.status, HostStatus::Disabled);

    let config = AppConfig {
        refresh_interval_ms: 1_000,
        servers: vec![
            ServerConfig::ssh("server-1", "Server 1", "Server-1.Example"),
            ServerConfig::local("local", "Local").enabled(false),
            ServerConfig::ssh("storage", "Storage", "storage-host"),
        ],
    };
    let hosts = fixture_hosts_for_config(&config);
    assert_eq!(hosts.len(), 2, "fixture host list must follow enabled hosts");
    let first = &hosts[0];
    assert_eq!(first.facts.id, "server-1");
    assert_eq!(first.facts.hostname.as_deref(), Some("server-1.example"));
    assert_eq!(first.facts.kernel.as_deref(), Some("Linux 6.8.1-fixture"));
    assert_eq!(first.facts.uptime_seconds, Some(86_400 + 25 * 60));
    assert_eq!(first.facts.cores, Some(3));
    assert_eq!(first.cpu_usage_percent, Some(17));
    assert_eq!(first.cpu_temperature_celsius, Some(75));
    assert_eq!(first.load_factor, Some(1));
    assert_eq!(first.facts.ram.total_kib, Some(9 * 1024 * 1024));
    assert_eq!(first.facts.ram.available_kib, Some(4 * 1024 * 1024));
    assert_eq!(first.facts.ram.used_kib, Some(6 * 1024 * 1024));
    assert_eq!(first.facts.network.rx_bytes_total, Some(1_000_000_000));
    assert_eq!(first.facts.network.tx_bytes_total, Some(500_000_000));
    assert_eq!(first.facts.storage.root_total_kib, Some(256 * 1024 * 1024));
    assert_eq!(first.facts.storage.root_used_kib, Some(51 * 1024 * 1024));
    assert_eq!(first.facts.storage.root_available_kib, Some(205 * 1024 * 1024));
    assert_eq!(first.facts.storage.disks.len(), 1);

    let storage = &hosts[1];
    assert_eq!(storage.cpu_temperature_celsius, Some(60));
    let mounts = storage.facts.storage.disks.iter().map(|d| d.mount.as_str()).collect::<Vec<_>>();
    assert_eq!(mounts, vec!["/", "/mnt/tank", "/mnt/backup"], "storage fixture should expose multiple disks");
    assert_eq!(storage.facts.storage.disks[0].used_kib, 62 * 1024 * 1024);

    let disabled = disabled_optional_fixture();
    assert_eq!(disabled.facts.id, "optional-server");
    assert_eq!(disabled.facts.error.as_deref(), Some("disabled fixture: optional server is offline"));
    assert_eq!(disabled.cpu_usage_percent, None);
}

#[test]
fn collector_exports_multiple_disk_mounts_and_runtime_refresh_is_adjustable() {
    for needle in [
        "disk=%s",
        "/proc/uptime",
        "printf 'uptime_seconds=%s\\n'",
        "cpu_temp_millicelsius",
        "coretemp|k10temp",
        "zpool list -Hp -o name,size,alloc,free",
        "df -kP -x tmpfs",
    ] {
        assert!(FIXED_COLLECT_COMMAND.contains(needle), "collector script lacks {needle}");
    }
    let snapshot = parse_key_values("disk=/|1000|250|750\ndisk=/mnt/tank|2000|1200|800\nuptime_seconds=60\n", &Vec::new());
    assert_eq!(snapshot.disks.len(), 2);
    assert_eq!(snapshot.uptime_seconds, Some(60));

    let press = |c: char| action_from_key(KeyInput { code: KeyCode::Char(c), ctrl: false, press: true });
    assert_eq!(press('+'), TuiAction::AdjustRefresh(100));
    assert_eq!(press('='), TuiAction::AdjustRefresh(100));
    assert_eq!(press('-'), TuiAction::AdjustRefresh(-100));
    for removed in ['1', '2', '3', '4'] {
        assert_eq!(press(removed), TuiAction::Ignore);
    }
    assert_eq!(
        action_from_key(KeyInput { code: KeyCode::Char('c'), ctrl: true, press: true }),
        TuiAction::Exit
    );
    assert_eq!(adjust_refresh_interval(100, -100), 100);
    assert_eq!(adjust_refresh_interval(60_000, 100), 60_000);
}

#[test]
fn first_run_config_flow_is_wired_into_cli() {
    let parsed = |list: &[&str]| Cli::parse(args(list)).unwrap();
    assert_eq!(parsed(&["setup"]).command, CommandMode::ConfigManager);
    assert_eq!(parsed(&["config"]).command, CommandMode::ConfigManager);
    assert_eq!(parsed(&["edit"]).command, CommandMode::Edit);
    assert_eq!(parsed(&["doctor"]).command, CommandMode::Doctor);
    assert_eq!(
        parsed(&["init", "--force"]).command,
        CommandMode::Init { force: true, print: false }
    );
    assert_eq!(run(&parsed(&["config"]), true), RunPlan::ConfigManager);
    assert!(HELP_TEXT.contains("server-tui-monitor setup [--config PATH]"));
    assert!(HELP_TEXT.contains("full-screen config manager"));

    let env = ConfigEnv {
        rktop_config: None,
        exe_dir: Some("/opt/rktop".to_string()),
        xdg_config_home: Some("/xdg".to_string()),
        appdata: None,
        home: Some("/home/me".to_string()),
        userprofile: None,
        windows: false,
    };
    assert_eq!(default_config_path(&env), Some("/xdg/rktop/config.toml".to_string()));
}

#[test]
fn cli_arguments_are_checked() {
    let cli = Cli::parse(args(&["--mock", "--snapshot", "--once", "--config", "/c.toml"])).unwrap();
    assert_eq!(cli.command, CommandMode::Run);
    assert_eq!(cli.mode, Mode::Mock);
    assert!(cli.snapshot && cli.once);
    assert_eq!(cli.config_path.as_deref(), Some("/c.toml"));
    assert_eq!(run(&cli, true), RunPlan::Snapshot);
    let once = Cli::parse(args(&["--once"])).unwrap();
    assert_eq!(run(&once, false), RunPlan::Snapshot);
    assert_eq!(run(&once, true), RunPlan::Dashboard);
    assert_eq!(Cli::parse(args(&[])).unwrap().mode, Mode::Live);

    assert_eq!(Cli::parse(args(&["--help"])).unwrap_err(), CliError::HelpRequested);
    assert_eq!(Cli::parse(args(&["-h", "--bogus"])).unwrap_err(), CliError::HelpRequested);
    assert_eq!(
        Cli::parse(args(&["--bogus"])).unwrap_err(),
        CliError::Usage("unknown argument: --bogus".to_string())
    );
    assert_eq!(
        Cli::parse(args(&["--config"])).unwrap_err(),
        CliError::Usage("--config requires a path".to_string())
    );
    assert_eq!(
        Cli::parse(args(&["edit", "doctor"])).unwrap_err(),
        CliError::Usage("only one command can be used at a time".to_string())
    );
    assert_eq!(
        Cli::parse(args(&["--force"])).unwrap_err(),
        CliError::Usage("--force/--print are only valid with `init`".to_string())
    );
    assert_eq!(
        Cli::parse(args(&["--print", "init"])).unwrap().command,
        CommandMode::Init { force: false, print: true }
    );
}

#[test]
fn setup_effects_are_source_aware_and_ssh_only() {
    assert_eq!(setup_effect_for_source(&ServerConfig::local("local", "Local")), SetupEffect::LocalCollect);
    assert_eq!(
        setup_effect_for_source(&ServerConfig::ssh("ssh", "SSH", "ssh-host")),
        SetupEffect::SshKeyProbe { host: "ssh-host".to_string() }
    );

    let mut proxmox = ServerConfig::local("pve", "PVE");
    proxmox.source = HostSource::proxmox("pve-host");
    assert_eq!(setup_effect_for_source(&proxmox), SetupEffect::UnsupportedSource("proxmox:pve-host".to_string()));
}

#[test]
fn ssh_key_setup_commands_are_source_ssh_only_and_confirmation_gated() {
    assert!(ssh_setup_commands_for_server(&ServerConfig::local("local", "Local")).is_empty());

    let mut proxmox = ServerConfig::local("pve", "PVE");
    proxmox.source = HostSource::proxmox("pve-host");
    assert!(ssh_setup_commands_for_server(&proxmox).is_empty());

    let commands = ssh_setup_commands_for_server(&ServerConfig::ssh("ssh", "SSH", "ssh-host"));
    assert_eq!(
        commands,
        vec![SshSetupCommand::GenerateKey, SshSetupCommand::CopyKey { host: "ssh-host".to_string() }]
    );
    assert!(commands.iter().all(SshSetupCommand::requires_confirmation));
    assert_eq!(commands[0].display_command(), "ssh-keygen -t ed25519");
    assert_eq!(commands[1].display_command(), "ssh-copy-id ssh-host");
}

#[test]
fn truenas_scaffold_is_json_rpc_websocket_read_only_and_not_deprecated_rest() {
    let message = match truenas::collect() {
        Err(CollectorError::UnsupportedSource(message)) => message,
        other => panic!("unexpected {other:?}"),
    };
    let lower = message.to_lowercase();
    assert!(lower.contains("json-rpc"), "TrueNAS scaffold must name JSON-RPC as the MVP API contract");
    assert!(lower.contains("websocket"), "TrueNAS scaffold must name WebSocket as the MVP transport");
    for forbidden in ["/api/v2.0", "/api/v1.0", "rest/v1", "rest/v2", "http://", "https://"] {
        assert!(!lower.contains(forbidden), "TrueNAS MVP adapter must not reference `{forbidden}`");
    }
    let mut truenas = ServerConfig::local("nas", "NAS");
    truenas.source = HostSource::truenas_scale("nas-host");
    assert_eq!(
        collect_route(&truenas),
        Err(CollectorError::UnsupportedSource("truenas-scale:nas-host".to_string()))
    );
}

#[test]
fn live_ssh_monitoring_contract_is_read_only_and_noninteractive() {
    for args in [ssh_command_args("host", true), ssh_probe_command_args("host", false)] {
        for option in [
            "-n",
            "BatchMode=yes",
            "PasswordAuthentication=no",
            "KbdInteractiveAuthentication=no",
            "ConnectTimeout=5",
            "ConnectionAttempts=1",
            "NumberOfPasswordPrompts=0",
        ] {
            assert!(args.iter().any(|a| a == option), "missing {option}");
        }
    }
    for forbidden in [
        "ssh-copy-id",
        "ssh-keygen",
        "authorized_keys",
        "apt ",
        "apt-get",
        "dnf ",
        "yum ",
        "sudo ",
        "systemctl",
        "reboot",
        "shutdown",
        "rm -rf",
    ] {
        assert!(!FIXED_COLLECT_COMMAND.contains(forbidden), "collector script must not run `{forbidden}`");
    }
    assert_eq!(
        collect_route(&ServerConfig::ssh("a", "A", "a-host")),
        Ok(CollectRoute::Ssh("a-host".to_string()))
    );
    assert_eq!(collect_route(&ServerConfig::local("b", "B")), Ok(CollectRoute::Local));
    assert_eq!(
        collect_route(&ServerConfig::local("c", "C").enabled(false)),
        Err(CollectorError::DisabledHost("c".to_string()))
    );
    assert!(default_servers().is_empty());
}
