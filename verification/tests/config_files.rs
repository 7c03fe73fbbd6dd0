use rktop::cli::HELP_TEXT;
use rktop::aliases::DiskAliases;
use rktop::config::{
    canonical_config_toml, config_to_toml, default_config, default_config_toml, default_servers,
    enabled_servers, escape_toml_string, example_config_toml, AppConfig, ConfigError, FileConfig,
    FileServer, ServerConfig, SourceDef, DEFAULT_REFRESH_INTERVAL_MS, MAX_REFRESH_INTERVAL_MS,
    MIN_REFRESH_INTERVAL_MS,
};
use rktop::model::HostSource;
use rktop::paths::{
    config_search_paths, default_config_path, default_user_config_path, join_path, paths_equal,
    legacy_user_config_path, load_config, system_config_path, ConfigEnv, ConfigLookup,
};
use toml::{Table, Value};

/// Reads TOML text into the file model by hand, then checks it with the library.
fn parse_config(text: &str) -> Result<AppConfig, String> {
    let table: Table = text.parse().map_err(|e: toml::de::Error| e.to_string())?;
    let int = |t: &Table, key: &str| t.get(key).and_then(Value::as_integer).map(|v| v as u64);
    let string = |t: &Table, key: &str| t.get(key).and_then(Value::as_str).map(str::to_string);
    let boolean = |t: &Table, key: &str| t.get(key).and_then(Value::as_bool);
    let mut servers = Vec::new();
    if let Some(entries) = table.get("servers").and_then(Value::as_array) {
        for entry in entries {
            let t = entry.as_table().ok_or("server entry is not a table")?;
            let source = match t.get("source") {
                Some(Value::String(kind)) => SourceDef::Kind(kind.clone()),
                Some(Value::Table(s)) => SourceDef::Table {
                    kind: string(s, "type").ok_or("source table without type")?,
                    host: string(s, "host"),
                },
                _ => return Err("missing source".to_string()),
            };
            let disk_aliases = t.get("disk_aliases").and_then(Value::as_table).map(|a| {
                let mut aliases = DiskAliases::new();
                for (mount, alias) in a {
                    aliases.insert(mount.clone(), alias.as_str().unwrap_or_default().to_string());
                }
                aliases
            });
            servers.push(FileServer {
                id: string(t, "id").ok_or("missing id")?,
                name: string(t, "name").ok_or("missing name")?,
                group: string(t, "group"),
                role: string(t, "role"),
                enabled: boolean(t, "enabled"),
                optional: boolean(t, "optional"),
                disk_max_rows: int(t, "disk_max_rows").map(|v| v as usize),
                disk_aliases,
                source,
                host: string(t, "host"),
            });
        }
    }
    FileConfig {
        refresh_interval_ms: int(&table, "refresh_interval_ms"),
        refresh_interval_secs: int(&table, "refresh_interval_secs"),
        servers,
    }
    .into_app_config()
    .map_err(|e: ConfigError| e.message)
}

fn file_server(id: &str, name: &str, source: &str, host: Option<&str>) -> FileServer {
    FileServer {
        id: id.to_string(),
        name: name.to_string(),
        group: None,
        role: None,
        enabled: None,
        optional: None,
        disk_max_rows: None,
        disk_aliases: None,
        source: SourceDef::Kind(source.to_string()),
        host: host.map(str::to_string),
    }
}

fn config_file(ms: Option<u64>, secs: Option<u64>, servers: Vec<FileServer>) -> FileConfig {
    FileConfig { refresh_interval_ms: ms, refresh_interval_secs: secs, servers }
}

fn xdg_env(home: &str) -> ConfigEnv {
    ConfigEnv {
        rktop_config: None,
        exe_dir: None,
        xdg_config_home: Some(home.to_string()),
        appdata: None,
        home: None,
        userprofile: None,
        windows: false,
    }
}

#[test]
fn parses_example_config() {
    let config = parse_config(&example_config_toml()).unwrap();
    assert_eq!(config.refresh_interval_ms, 1_000);
    assert!(
        config.servers.is_empty(),
        "first-run default config must not embed any private or environment-specific servers"
    );
}

#[test]
fn canonical_default_config_matches_checked_in_example() {
    assert_eq!(
        parse_config(&config_to_toml(&default_config())).unwrap(),
        parse_config(&example_config_toml()).unwrap()
    );
}

#[test]
fn default_user_config_path_uses_rktop_directory() {
    let home = "/tmp/rktop-test-home";
    let env = xdg_env(home);
    assert_eq!(default_user_config_path(&env).unwrap(), format!("{home}/rktop/config.toml"));
    assert_eq!(default_config_path(&env).unwrap(), default_user_config_path(&env).unwrap());
    assert!(config_search_paths(&env).contains(&format!("{home}/rktop/config.toml")));
    assert!(config_search_paths(&env).contains(&format!("{home}/server-tui-monitor/config.toml")));
}

#[test]
fn load_config_prefers_new_user_path_over_legacy_path() {
    let home = "/tmp/rktop-new-wins";
    let env = xdg_env(home);
    let paths = config_search_paths(&env);
    let exists = paths.iter().map(|p| p.contains("/rktop/") || p.contains("server-tui-monitor")).collect();
    let new_path = format!("{home}/rktop/config.toml");
    assert_eq!(load_config(None, &env, &exists), ConfigLookup::ReadFile(new_path));

    let loaded = parse_config(
        "refresh_interval_ms = 1500\n\n[[servers]]\nid = \"new\"\nname = \"New\"\nsource = \"ssh\"\nhost = \"new-host\"\n",
    )
    .unwrap();
    assert_eq!(loaded.refresh_interval_ms, 1500);
    assert_eq!(loaded.servers[0].id, "new");
}

#[test]
fn load_config_reads_legacy_path_when_new_path_is_missing() {
    let home = "/tmp/rktop-legacy";
    let env = xdg_env(home);
    let paths = config_search_paths(&env);
    let exists = paths.iter().map(|p| p.contains("server-tui-monitor")).collect();
    let legacy_path = format!("{home}/server-tui-monitor/config.toml");
    assert_eq!(load_config(None, &env, &exists), ConfigLookup::ReadFile(legacy_path));

    let loaded = parse_config(
        "refresh_interval_ms = 2500\n\n[[servers]]\nid = \"legacy\"\nname = \"Legacy\"\nsource = \"ssh\"\nhost = \"legacy-host\"\n",
    )
    .unwrap();
    assert_eq!(loaded.refresh_interval_ms, 2500);
    assert_eq!(loaded.servers[0].id, "legacy");
}

#[test]
fn config_lookup_order_and_fallbacks() {
    let env = xdg_env("/cfg");
    assert_eq!(
        config_search_paths(&env),
        vec![
            "/cfg/rktop/config.toml".to_string(),
            "/etc/rktop/config.toml".to_string(),
            "/cfg/server-tui-monitor/config.toml".to_string(),
        ]
    );
    assert_eq!(
        load_config(Some("/explicit.toml".to_string()), &env, &vec![true, true, true]),
        ConfigLookup::ReadFile("/explicit.toml".to_string())
    );
    assert_eq!(
        load_config(None, &env, &vec![false, true]),
        ConfigLookup::ReadFile("/etc/rktop/config.toml".to_string())
    );
    assert_eq!(
        load_config(None, &env, &Vec::new()),
        ConfigLookup::BuiltIn { default_path: Some("/cfg/rktop/config.toml".to_string()) }
    );

    let mut from_home = xdg_env("");
    from_home.xdg_config_home = None;
    from_home.home = Some("/home/me".to_string());
    from_home.rktop_config = Some("/home/me/.config/rktop/config.toml".to_string());
    assert_eq!(
        config_search_paths(&from_home),
        vec![
            "/home/me/.config/rktop/config.toml".to_string(),
            "/etc/rktop/config.toml".to_string(),
            "/home/me/.config/server-tui-monitor/config.toml".to_string(),
        ]
    );
    assert_eq!(
        legacy_user_config_path(&from_home),
        Some("/home/me/.config/server-tui-monitor/config.toml".to_string())
    );

    let empty = ConfigEnv {
        rktop_config: Some(String::new()),
        exe_dir: None,
        xdg_config_home: Some(String::new()),
        appdata: None,
        home: None,
        userprofile: Some("C:/Users/me".to_string()),
        windows: true,
    };
    assert_eq!(default_user_config_path(&empty), Some("C:/Users/me\\.config\\rktop\\config.toml".to_string()));
    assert_eq!(system_config_path(true), None);
    assert_eq!(system_config_path(false), Some("/etc/rktop/config.toml".to_string()));
    assert_eq!(config_search_paths(&empty).len(), 2);
    assert_eq!(join_path("/a/", "b", false), "/a/b");
    assert_eq!(join_path("/a", "b", false), "/a/b");
    assert_eq!(join_path("", "b", false), "b");
    assert_eq!(join_path("C:\\Users\\me", "b", true), "C:\\Users\\me\\b");
    assert_eq!(join_path("C:/Users/me/", "b", true), "C:/Users/me/b");
}

#[test]
fn remote_servers_default_to_optional_and_local_servers_do_not() {
    let config = parse_config(
        r#"refresh_interval_ms = 1000

[[servers]]
id = "local"
name = "Local"
source = "local"

[[servers]]
id = "remote"
name = "Remote"
source = "ssh"
host = "remote-host"

[[servers]]
id = "required"
name = "Required"
source = "ssh"
host = "required-host"
optional = false
"#,
    )
    .unwrap();

    assert!(!config.servers[0].optional);
    assert!(config.servers[1].optional, "SSH servers should hide by default when powered off or unreachable");
    assert!(!config.servers[2].optional);
    assert!(ServerConfig::ssh("ssh", "SSH", "ssh-host").optional);
    assert!(!ServerConfig::local("local", "Local").optional);
}

#[test]
fn canonical_config_writer_escapes_strings_and_round_trips() {
    let config = AppConfig {
        refresh_interval_ms: 250,
        servers: vec![ServerConfig::ssh("box", "Box \"A\"", "host\\alias")
            .with_group("Rack")
            .with_disk_alias("/mnt/quote\"", "quote\"")],
    };

    let toml = canonical_config_toml(&config);
    assert!(toml.contains("name = \"Box \\\"A\\\"\""));
    assert!(toml.contains("host = \"host\\\\alias\""));
    assert_eq!(parse_config(&toml).unwrap(), config);
}

#[test]
fn parses_compact_source_syntax() {
    let config = parse_config(
        r#"
refresh_interval_ms = 500

[[servers]]
id = "box"
name = "Box"
source = "ssh"
host = "Box"
disk_max_rows = 4
disk_aliases = { "/mnt/tank" = "tank" }
"#,
    )
    .unwrap();
    assert_eq!(config.refresh_interval_ms, 500);
    assert_eq!(config.servers[0].source, HostSource::ssh("Box"));
    assert_eq!(config.servers[0].disk_max_rows, Some(4));
    let mount: Vec<char> = "/mnt/tank".chars().collect();
    assert_eq!(config.servers[0].disk_aliases.get(&mount).map(String::as_str), Some("tank"));
}

#[test]
fn preserves_local_ssh_proxmox_and_truenas_source_variants() {
    let config = parse_config(
        r#"
refresh_interval_ms = 1000

[[servers]]
id = "local"
name = "Local"
source = "local"

[[servers]]
id = "ssh"
name = "SSH"
source = "ssh"
host = "ssh-host"

[[servers]]
id = "pve"
name = "Proxmox"
source = { type = "proxmox", host = "https://pve.example.invalid:8006" }

[[servers]]
id = "truenas"
name = "TrueNAS"
source = { type = "truenas", host = "https://truenas.example.invalid" }

[[servers]]
id = "truenas-scale"
name = "TrueNAS SCALE"
source = "truenas-scale"
host = "https://truenas-scale.example.invalid"
"#,
    )
    .unwrap();

    assert_eq!(config.servers[0].source, HostSource::Local);
    assert_eq!(config.servers[1].source, HostSource::ssh("ssh-host"));
    assert_eq!(config.servers[2].source, HostSource::proxmox("https://pve.example.invalid:8006"));
    assert_eq!(config.servers[3].source, HostSource::truenas_scale("https://truenas.example.invalid"));
    assert_eq!(
        config.servers[4].source,
        HostSource::truenas_scale("https://truenas-scale.example.invalid")
    );
}

#[test]
fn clamps_refresh_interval_from_config() {
    let config = parse_config(
        r#"
refresh_interval_ms = 1

[[servers]]
id = "local"
name = "Local"
source = "local"
"#,
    )
    .unwrap();
    assert_eq!(config.refresh_interval_ms, MIN_REFRESH_INTERVAL_MS);
}

#[test]
fn rejects_config_with_both_refresh_units() {
    let error = parse_config(
        r#"
refresh_interval_ms = 1000
refresh_interval_secs = 1

[[servers]]
id = "local"
name = "Local"
source = "local"
"#,
    )
    .unwrap_err();
    assert!(error.contains("use only one"));
}

#[test]
fn refresh_interval_comes_from_milliseconds_or_seconds() {
    let ms = |f: FileConfig| f.into_app_config().unwrap().refresh_interval_ms;
    assert_eq!(ms(config_file(None, None, Vec::new())), DEFAULT_REFRESH_INTERVAL_MS);
    assert_eq!(ms(config_file(None, Some(2), Vec::new())), 2_000);
    assert_eq!(ms(config_file(None, Some(u64::MAX), Vec::new())), MAX_REFRESH_INTERVAL_MS);
    assert_eq!(ms(config_file(Some(90_000), None, Vec::new())), MAX_REFRESH_INTERVAL_MS);
    assert_eq!(ms(config_file(Some(750), None, Vec::new())), 750);
}

#[test]
fn bad_server_entries_are_refused_with_their_reason() {
    let error = |servers: Vec<FileServer>| config_file(None, None, servers).into_app_config().unwrap_err().message;
    assert_eq!(error(vec![file_server("Bad Id", "X", "local", None)]).contains("Bad Id"), true);
    assert_eq!(
        error(vec![file_server("box", "  ", "local", None)]),
        "server `box` has an empty name"
    );
    assert_eq!(
        error(vec![file_server("box", "Box", "local", Some("h"))]),
        "local server `box` must not set host"
    );
    assert_eq!(error(vec![file_server("box", "Box", "ssh", None)]), "server `box` source requires host");
    assert_eq!(error(vec![file_server("box", "Box", "ssh", Some(" "))]), "server `box` has an empty host");
    assert_eq!(
        error(vec![file_server("box", "Box", "ftp", Some("h"))]),
        "server `box` uses unsupported source `ftp`"
    );
    // The first bad entry decides the message.
    assert_eq!(
        error(vec![
            file_server("ok", "Ok", "local", None),
            file_server("one", "One", "ssh", None),
            file_server("two", "", "local", None),
        ]),
        "server `one` source requires host"
    );
    let table_host = FileServer {
        source: SourceDef::Table { kind: "proxmox".to_string(), host: Some("pve".to_string()) },
        ..file_server("pve", "PVE", "unused", None)
    };
    let config = config_file(None, None, vec![table_host]).into_app_config().unwrap();
    assert_eq!(config.servers[0].source, HostSource::proxmox("pve"));
    assert!(config.servers[0].optional);
    assert!(config.servers[0].enabled);
}

#[test]
fn toml_strings_escape_backslashes_and_quotes() {
    assert_eq!(escape_toml_string("plain"), "plain");
    assert_eq!(escape_toml_string("a\"b\\c"), "a\\\"b\\\\c");
    let written = format!("v = \"{}\"", escape_toml_string("x\\\"y"));
    let table: Table = written.parse().unwrap();
    assert_eq!(table["v"].as_str(), Some("x\\\"y"));
}

#[test]
fn canonical_writer_lists_every_server_field() {
    let config = AppConfig {
        refresh_interval_ms: 1_000,
        servers: vec![
            ServerConfig::local("local", "Local").with_role("Workstation"),
            ServerConfig::ssh("nas", "NAS", "nas-host")
                .optional(false)
                .enabled(false)
                .with_disk_max_rows(3)
                .with_disk_alias("/mnt/tank", "tank"),
        ],
    };
    let text = canonical_config_toml(&config);
    assert!(text.starts_with("# rktop config\n"));
    assert!(text.contains("refresh_interval_ms = 1000\n"));
    assert!(text.contains("role = \"Workstation\"\n"));
    assert!(text.contains("disk_max_rows = 3\n"));
    assert!(text.contains("enabled = false\n"));
    assert_eq!(parse_config(&text).unwrap(), config);
    assert_eq!(config_to_toml(&config), text);
    assert_eq!(default_config_toml(), canonical_config_toml(&default_config()));
}

#[test]
fn default_config_is_empty() {
    assert_eq!(default_config().refresh_interval_ms, 1_000);
    assert!(default_servers().is_empty());
    let config = AppConfig {
        refresh_interval_ms: 1_000,
        servers: vec![
            ServerConfig::local("a", "A"),
            ServerConfig::local("b", "B").enabled(false),
            ServerConfig::ssh("c", "C", "c-host"),
        ],
    };
    let ids = enabled_servers(&config).into_iter().map(|s| s.id).collect::<Vec<_>>();
    assert_eq!(ids, vec!["a".to_string(), "c".to_string()]);
}

#[test]
fn search_paths_drop_the_same_path_written_differently() {
    assert!(paths_equal("/etc/rktop/config.toml", "/etc//rktop/./config.toml/", false));
    assert!(!paths_equal("/etc/rktop/config.toml", "etc/rktop/config.toml", false));
    assert!(paths_equal("./a", "./a/", false));
    assert!(!paths_equal("./a", "a", false));
    assert!(paths_equal("C:\\Users\\me", "C:/Users/me", true));
    assert!(!paths_equal("C:\\Users\\me", "C:/Users/me", false));
    let env = ConfigEnv {
        rktop_config: Some("/etc/rktop//config.toml".to_string()),
        exe_dir: None,
        xdg_config_home: Some("/xdg".to_string()),
        appdata: None,
        home: None,
        userprofile: None,
        windows: false,
    };
    assert_eq!(
        config_search_paths(&env),
        vec![
            "/etc/rktop//config.toml".to_string(),
            "/xdg/rktop/config.toml".to_string(),
            "/xdg/server-tui-monitor/config.toml".to_string(),
        ]
    );
}

#[test]
fn config_beside_the_program_is_searched_second() {
    let env = ConfigEnv {
        rktop_config: Some("/custom.toml".to_string()),
        exe_dir: Some("/opt/rktop".to_string()),
        xdg_config_home: Some("/xdg".to_string()),
        appdata: None,
        home: None,
        userprofile: None,
        windows: false,
    };
    assert_eq!(
        config_search_paths(&env),
        vec![
            "/custom.toml".to_string(),
            "/opt/rktop/config.toml".to_string(),
            "/xdg/rktop/config.toml".to_string(),
            "/etc/rktop/config.toml".to_string(),
            "/xdg/server-tui-monitor/config.toml".to_string(),
        ]
    );
    let mut bare = env.clone();
    bare.exe_dir = Some(String::new());
    assert_eq!(config_search_paths(&bare).len(), 4);
    assert!(HELP_TEXT.contains("$RKTOP_CONFIG, ./config.toml beside the executable, ~/.config/rktop/config.toml"));
}
