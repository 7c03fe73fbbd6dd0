use rktop::collectors::local::FIXED_COLLECT_COMMAND;
use rktop::collectors::ssh::{shell_quote, ssh_base_args, ssh_command_args, ssh_probe_command_args, validate_ssh_host};
use rktop::collectors::{
    collect_route, failed_collection, parse_key_values, report_value_texts, servers_to_collect, CollectorError, FailedCollection,
};
use rktop::config::{AppConfig, ServerConfig};
use rktop::model::{DiskMetrics, Freshness, HostStatus};

fn contains(args: &[String], wanted: &str) -> bool {
    args.iter().any(|a| a == wanted)
}

#[test]
fn parses_collector_key_values() {
    let snapshot = parse_key_values(
        "hostname=box\nkernel=Linux x\nuptime_seconds=4406700\nloadavg=1.00 0.50 0.25 1/2 3\ncpu_cores=8\ncpu_temp_millicelsius=88600\nmem_total_kib=100\nmem_available_kib=40\nnet_rx_bytes=7\nnet_tx_bytes=9\nroot_total_kib=1000\nroot_used_kib=250\nroot_available_kib=750\n", &Vec::new()
    );
    assert_eq!(snapshot.hostname.as_deref(), Some("box"));
    assert_eq!(snapshot.cpu_cores, Some(8));
    assert_eq!(snapshot.cpu_temp_millicelsius, Some(88_600));
    assert_eq!(snapshot.uptime_seconds, Some(4_406_700));
    assert_eq!(snapshot.mem_available_kib, Some(40));
    assert_eq!(snapshot.root_used_kib, Some(250));
}

#[test]
fn parses_multiple_disk_lines() {
    let snapshot = parse_key_values("disk=/|1000|250|750\ndisk=/mnt/tank|2000|1200|800\n", &Vec::new());
    assert_eq!(snapshot.disks.len(), 2);
    assert_eq!(snapshot.disks[0].mount, "/");
    assert_eq!(snapshot.disks[1].mount, "/mnt/tank");
    assert_eq!(snapshot.disks[1].used_kib, 1200);
}

fn table(entries: &[(&str, Option<u64>)]) -> Vec<(String, Option<u64>)> {
    entries.iter().map(|(text, value)| (text.to_string(), *value)).collect()
}

#[test]
fn parses_scientific_notation_network_counters() {
    let report = "net_rx_bytes=3.2333e+12\nnet_tx_bytes=3.46015e+12\n";
    // The program reads these texts as fractions; the library asks for them
    // and takes the values it is given.
    assert_eq!(report_value_texts(report), vec!["3.2333e+12".to_string(), "3.46015e+12".to_string()]);
    let fallback = table(&[("3.2333e+12", Some(3_233_300_000_000)), ("3.46015e+12", Some(3_460_150_000_000))]);
    let snapshot = parse_key_values(report, &fallback);
    assert_eq!(snapshot.net_rx_bytes, Some(3_233_300_000_000));
    assert_eq!(snapshot.net_tx_bytes, Some(3_460_150_000_000));
}

#[test]
fn odd_lines_and_values_are_skipped() {
    let snapshot = parse_key_values(
        "no separator\n  hostname =  box  \nkernel=\ncpu_cores=70000\nuptime_seconds=-5\nmem_total_kib=12.5\ndisk=|10|1|9\ndisk=/z|0|0|0\ndisk=/a|10|x|9\ndisk= /b |10|1|9|extra\nunknown=1\r\nloadavg=0.1 0.2 0.3",
        &table(&[("12.5", Some(13)), ("-5", None)]),
    );
    assert_eq!(snapshot.hostname.as_deref(), Some("box"));
    assert_eq!(snapshot.kernel, None);
    assert_eq!(snapshot.cpu_cores, None);
    assert_eq!(snapshot.uptime_seconds, None);
    assert_eq!(snapshot.mem_total_kib, Some(13));
    assert_eq!(
        snapshot.disks,
        vec![DiskMetrics { mount: "/b".to_string(), total_kib: 10, used_kib: 1, available_kib: 9 }]
    );
    assert_eq!(snapshot.loadavg.as_deref(), Some("0.1 0.2 0.3"));
    assert_eq!(parse_key_values("", &Vec::new()), parse_key_values("\n\n", &Vec::new()));
}

#[test]
fn counters_that_are_not_integers_take_the_given_values() {
    let report = "net_rx_bytes=2.5\nnet_tx_bytes=1e3\nroot_total_kib=7.49\nroot_used_kib=+4\ndisk=/d|1.5e6|2|x\n";
    assert_eq!(
        report_value_texts(report),
        vec!["2.5", "1e3", "7.49", "+4", "/d|1.5e6|2|x", "1.5e6", "2", "x"]
            .into_iter()
            .map(String::from)
            .collect::<Vec<_>>()
    );
    let fallback = table(&[("2.5", Some(3)), ("1e3", Some(1000)), ("1.5e6", Some(1_500_000)), ("x", None)]);
    let snapshot = parse_key_values(report, &fallback);
    assert_eq!(snapshot.net_rx_bytes, Some(3));
    assert_eq!(snapshot.net_tx_bytes, Some(1000));
    assert_eq!(snapshot.root_total_kib, None, "a text the table lacks reads as nothing");
    assert_eq!(snapshot.root_used_kib, Some(4));
    assert!(snapshot.disks.is_empty());
    let with_avail = parse_key_values("disk=/d|1.5e6|2|3\n", &fallback);
    assert_eq!(with_avail.disks[0].total_kib, 1_500_000);
}

#[test]
fn ssh_collector_uses_non_interactive_stdin_script_command() {
    validate_ssh_host("ExampleHost").unwrap();
    let args = ssh_command_args("ExampleHost", true);
    let debug = format!("{:?}", args);
    for option in [
        "BatchMode=yes",
        "PasswordAuthentication=no",
        "KbdInteractiveAuthentication=no",
        "ConnectTimeout=5",
        "ConnectionAttempts=1",
        "NumberOfPasswordPrompts=0",
    ] {
        assert!(contains(&args, option), "{option} missing from {debug}");
    }
    assert!(contains(&args, "ExampleHost"));
    assert!(contains(&args, "sh"));
    // Standard input is detached (`-n`), so the fixed script travels as the
    // remote command, quoted as one word, rather than on standard input.
    assert_eq!(args[0], "-n");
    assert_eq!(&args[args.len() - 4..args.len() - 1], ["ExampleHost", "sh", "-c"]);
    assert_eq!(args[args.len() - 1], shell_quote(FIXED_COLLECT_COMMAND));
    assert!(args[args.len() - 1].starts_with("'hostname=$(hostname"));
}

#[test]
fn shell_quoting_keeps_single_quotes() {
    assert_eq!(shell_quote("a b"), "'a b'");
    assert_eq!(shell_quote("it's"), "'it'\\''s'");
    assert_eq!(shell_quote(""), "''");
}

#[test]
fn ssh_probe_uses_shared_non_interactive_options_without_collection_script() {
    validate_ssh_host("ExampleHost").unwrap();
    let args = ssh_probe_command_args("ExampleHost", true);
    let debug = format!("{:?}", args);
    for option in [
        "BatchMode=yes",
        "PasswordAuthentication=no",
        "KbdInteractiveAuthentication=no",
        "ConnectTimeout=5",
        "ConnectionAttempts=1",
        "NumberOfPasswordPrompts=0",
    ] {
        assert!(contains(&args, option), "{option} missing from {debug}");
    }
    assert!(contains(&args, "ExampleHost"));
    assert!(contains(&args, "true"));
    assert!(!debug.contains("/proc/loadavg"));
    assert_eq!(args[0], "-n");
}

#[test]
fn ssh_multiplexing_is_disabled_on_windows() {
    let windows = ssh_command_args("ExampleHost", false);
    let unix = ssh_command_args("ExampleHost", true);
    for option in ["ControlMaster=auto", "ControlPersist=10m", "ControlPath=~/.ssh/rktop-%C"] {
        assert!(!contains(&windows, option));
        assert!(contains(&unix, option));
    }
    assert_eq!(ssh_base_args(false, false).len(), 12);
    assert_eq!(windows.len(), 17);
    assert_eq!(ssh_base_args(true, true).len(), 19);
}

#[test]
fn rejects_option_like_hosts() {
    assert!(validate_ssh_host("-oProxyCommand=x").is_err());
    assert!(validate_ssh_host("host name").is_err());
}

#[test]
fn ssh_host_errors_quote_the_host() {
    assert_eq!(
        validate_ssh_host("host name"),
        Err(CollectorError::UnsupportedSource("invalid SSH host alias: \"host name\"".to_string()))
    );
    assert_eq!(
        validate_ssh_host("a\"b"),
        Err(CollectorError::UnsupportedSource(format!("invalid SSH host alias: {:?}", "a\"b")))
    );
    assert!(validate_ssh_host("").is_err());
    assert!(validate_ssh_host("user@host-1.example_net").is_ok());
    assert!(validate_ssh_host("naïve").is_err());
}

#[test]
fn collector_error_messages_match_their_display() {
    assert_eq!(CollectorError::DisabledHost("nas".to_string()).message(), "host 'nas' is disabled");
    assert_eq!(
        CollectorError::UnsupportedSource("proxmox:pve".to_string()).message(),
        "unsupported source for MVP: proxmox:pve"
    );
    assert_eq!(CollectorError::Io("gone".to_string()).message(), "collector I/O error: gone");
    assert_eq!(CollectorError::Utf8("bad".to_string()).message(), "collector output was not UTF-8: bad");
    assert_eq!(
        CollectorError::CommandFailed { code: Some(-2), stderr: "x".to_string() }.message(),
        format!("collector command failed (code {:?}): x", Some(-2))
    );
    assert_eq!(
        CollectorError::CommandFailed { code: None, stderr: String::new() }.message(),
        "collector command failed (code None): "
    );
    assert_eq!(
        CollectorError::CommandFailed { code: Some(i32::MIN), stderr: String::new() }.message(),
        format!("collector command failed (code {:?}): ", Some(i32::MIN))
    );
}

#[test]
fn freshness_goes_stale_only_after_its_window() {
    let freshness = Freshness { collected_at_nanos: 1_000, stale_after_nanos: 500 };
    assert!(!freshness.is_stale_at(999));
    assert!(!freshness.is_stale_at(1_000));
    assert!(!freshness.is_stale_at(1_500));
    assert!(freshness.is_stale_at(1_501));
    let before_epoch = Freshness { collected_at_nanos: -2_000, stale_after_nanos: 500 };
    assert!(!before_epoch.is_stale_at(-1_500));
    assert!(before_epoch.is_stale_at(-1_499));
    assert!(before_epoch.is_stale_at(i128::MAX));
    assert!(!before_epoch.is_stale_at(-2_001));
    let recent = Freshness::now(5_000_000_000);
    assert_eq!(recent.stale_after_nanos, 5_000_000_000);
    assert!(!recent.is_stale_at(recent.collected_at_nanos));
}

/// What a round of collection makes of each enabled server, as far as the
/// library decides it: failures of optional servers are noted, others shown.
fn failed_round(config: &AppConfig) -> (Vec<(ServerConfig, HostStatus)>, Vec<String>) {
    let mut collected = Vec::new();
    let mut optional_failures = Vec::new();
    for server in servers_to_collect(config, &Vec::new()) {
        let error = collect_route(&server).expect_err("the SSH target is refused before any command runs");
        match failed_collection(&server, &error) {
            FailedCollection::Hidden(id) => optional_failures.push(id),
            FailedCollection::Unavailable(facts) => collected.push((server, facts.status)),
        }
    }
    (collected, optional_failures)
}

#[test]
fn optional_unavailable_servers_are_hidden_from_live_collection() {
    let optional = ServerConfig::ssh("optional", "Optional", "bad host");
    let required = ServerConfig::ssh("required", "Required", "bad host").optional(false);

    let optional_config = AppConfig { refresh_interval_ms: 1_000, servers: vec![optional] };
    let (collected, optional_failures) = failed_round(&optional_config);
    assert!(collected.is_empty(), "optional SSH failures should be hidden instead of rendering UNAVAILABLE");
    assert_eq!(optional_failures, vec!["optional"]);

    let required_config = AppConfig { refresh_interval_ms: 1_000, servers: vec![required] };
    let (collected, _) = failed_round(&required_config);
    assert_eq!(collected.len(), 1);
    assert!(matches!(collected[0].1, HostStatus::Offline));
}

#[test]
fn failed_required_servers_carry_the_error_message() {
    let required = ServerConfig::ssh("box", "Box", "-oProxyCommand=x").optional(false);
    let error = collect_route(&required).unwrap_err();
    assert_eq!(error.message(), "unsupported source for MVP: invalid SSH host alias: \"-oProxyCommand=x\"");
    match failed_collection(&required, &error) {
        FailedCollection::Unavailable(facts) => {
            assert_eq!(facts.id, "box");
            assert_eq!(facts.error.as_deref(), Some(error.message().as_str()));
            assert_eq!(facts.hostname.as_deref(), Some("-oProxyCommand=x"));
        }
        other => panic!("required server was hidden: {other:?}"),
    }
    let disabled = ServerConfig::local("off", "Off").enabled(false);
    assert_eq!(collect_route(&disabled), Err(CollectorError::DisabledHost("off".to_string())));
}
