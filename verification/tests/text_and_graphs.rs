use rktop::aliases::DiskAliases;
use rktop::config::{AppConfig, ServerConfig};
use rktop::graph::{graph_range, resampled_history_points, vertical_braille_graph, GraphCell};
use rktop::history::{blank_history, deterministic_net, percent_history, pseudo_history, HISTORY_LEN};
use rktop::naming::{display_name_from_target, safe_server_id, server_id_from_target, unique_server_id_from_base};
use rktop::sshconfig::{is_selectable_ssh_host_alias, parse_ssh_config_hosts, SshConfigEntry};
use rktop::snapshot::grouped_snapshot_text;
use rktop::text::{ascii_lowercase, chars_of, parse_u16, parse_u64, split_words, u128_text, u64_text};

fn oracle_pseudo_history(current: u16, id: &str, salt: usize, len: usize) -> Vec<u16> {
    let mut seed = id.bytes().map(u32::from).sum::<u32>() + salt as u32 * 97;
    let target = i16::try_from(current).unwrap_or(0);
    let mut value = target;
    (0..len)
        .map(|idx| {
            seed = seed.wrapping_mul(1_664_525).wrapping_add(1_013_904_223);
            let jitter = ((seed >> 16) % 9) as i16 - 4;
            let drift = (((idx as i16 + salt as i16) % 18) - 9) / 3;
            value += jitter + drift;
            value += (target - value) / 5;
            value.clamp(0, 99) as u16
        })
        .collect()
}

fn oracle_resampled(source: &[u16], target_len: usize) -> Vec<u16> {
    if target_len == 0 {
        return Vec::new();
    }
    if source.is_empty() {
        return vec![0; target_len];
    }
    if source.len() == 1 {
        return vec![source[0]; target_len];
    }
    let last = source.len() - 1;
    let target_last = target_len.saturating_sub(1).max(1);
    (0..target_len).map(|idx| source[(idx * last + target_last / 2) / target_last]).collect()
}

fn oracle_range(points: &[u16]) -> Option<(u16, u16)> {
    let max = points.iter().copied().max()?.min(100);
    if max == 0 {
        return None;
    }
    let min = points.iter().copied().min().unwrap_or(max).min(100);
    if max.saturating_sub(min) >= 14 {
        return Some((min, max));
    }
    let center = (u32::from(min) + u32::from(max)) / 2;
    let mut low = center.saturating_sub(7) as u16;
    let mut high = (center + 7).min(100) as u16;
    if high.saturating_sub(low) < 14 {
        low = high.saturating_sub(14);
        high = (low + 14).min(100);
    }
    Some((low, high))
}

fn oracle_graph(history: &[u16], rows: usize, width: usize) -> Vec<Vec<(char, bool)>> {
    const LEFT: [u8; 4] = [0x40, 0x04, 0x02, 0x01];
    const RIGHT: [u8; 4] = [0x80, 0x20, 0x10, 0x08];
    if rows == 0 || width == 0 {
        return Vec::new();
    }
    let total_pixels = rows * 4;
    let source = if history.is_empty() { &[0][..] } else { history };
    let points = oracle_resampled(source, width * 2);
    let mut masks = vec![vec![0u8; width]; rows];
    if let Some((low, high)) = oracle_range(&points) {
        let range = usize::from(high.saturating_sub(low).max(1));
        for (idx, percent) in points.iter().enumerate() {
            let capped = (*percent).clamp(low, high);
            let x = idx / 2;
            let offset = usize::from(capped.saturating_sub(low));
            let y = ((offset * (total_pixels - 1)) + (range / 2)) / range;
            let dots = if idx % 2 == 0 { LEFT } else { RIGHT };
            for filled_y in 0..=y {
                masks[rows - 1 - (filled_y / 4)][x] |= dots[filled_y % 4];
            }
        }
    }
    masks
        .into_iter()
        .map(|row| {
            row.into_iter()
                .map(|m| {
                    (if m == 0 { ' ' } else { char::from_u32(0x2800 + u32::from(m)).unwrap() }, m != 0)
                })
                .collect()
        })
        .collect()
}

fn cells(graph: Vec<Vec<GraphCell>>) -> Vec<Vec<(char, bool)>> {
    graph.into_iter().map(|row| row.into_iter().map(|c| (c.glyph, c.active)).collect()).collect()
}

#[test]
fn history_resampling_picks_the_nearest_source_points() {
    let sources: Vec<Vec<u16>> = vec![vec![], vec![7], vec![1, 2], vec![5, 9, 13, 40, 2, 0, 100], (0..96).collect()];
    for source in &sources {
        for target in [0usize, 1, 2, 3, 10, 36, 200] {
            assert_eq!(resampled_history_points(source, target), oracle_resampled(source, target));
        }
    }
    assert_eq!(resampled_history_points(&vec![1, 2, 3], 5), vec![1, 2, 2, 3, 3]);
}

#[test]
fn graph_range_keeps_at_least_fourteen_points_of_span() {
    let samples: Vec<Vec<u16>> = vec![
        vec![],
        vec![0, 0],
        vec![50],
        vec![10, 60],
        vec![99, 100, 120],
        vec![3, 4],
        vec![200, 0],
        vec![93, 95],
    ];
    for points in &samples {
        assert_eq!(graph_range(points), oracle_range(points), "points {points:?}");
    }
    assert_eq!(graph_range(&vec![50]), Some((43, 57)));
    assert_eq!(graph_range(&vec![3, 4]), Some((0, 14)));
    assert_eq!(graph_range(&vec![0]), None);
}

#[test]
fn braille_graph_fills_columns_from_the_bottom() {
    let histories: Vec<Vec<u16>> = vec![
        vec![],
        vec![0, 0, 0],
        vec![50],
        vec![10, 90, 30, 70, 0, 100],
        (0..96).map(|i| (i * 7 % 101) as u16).collect(),
    ];
    for history in &histories {
        for (rows, width) in [(0, 4), (1, 0), (1, 3), (2, 5), (4, 18), (3, 40)] {
            assert_eq!(
                cells(vertical_braille_graph(history, rows, width)),
                oracle_graph(history, rows, width),
                "history {history:?} rows {rows} width {width}"
            );
        }
    }
    let graph = vertical_braille_graph(&vec![100, 100], 1, 1);
    assert_eq!(graph, vec![vec![GraphCell { glyph: '⣿', active: true }]]);
}

#[test]
fn pseudo_history_is_a_deterministic_walk_toward_the_current_value() {
    for (current, id, salt) in [(0u16, "local", 0usize), (55, "server-1", 3), (99, "storage", 7), (40000, "x", 1), (32700, "", 1000)] {
        assert_eq!(pseudo_history(current, id, salt, HISTORY_LEN), oracle_pseudo_history(current, id, salt, HISTORY_LEN));
    }
    assert_eq!(pseudo_history(20, "a", 0, 0), Vec::<u16>::new());
    let history = pseudo_history(35, "node", 2, 12);
    assert_eq!(history, oracle_pseudo_history(35, "node", 2, 12));
    assert!(history.iter().all(|v| *v <= 99));
}

#[test]
fn percent_history_appends_and_keeps_the_last_samples() {
    assert_eq!(blank_history(), vec![0; HISTORY_LEN]);
    let previous: Vec<u16> = (0..HISTORY_LEN as u16).collect();
    let next = percent_history(Some(&previous), 500, "id", 0);
    assert_eq!(next.len(), HISTORY_LEN);
    assert_eq!(next[0], 1);
    assert_eq!(*next.last().unwrap(), 500);
    let short = percent_history(Some(&vec![1, 2]), 3, "id", 0);
    assert_eq!(short, vec![1, 2, 3]);
    assert_eq!(percent_history(None, 42, "id", 4), oracle_pseudo_history(42, "id", 4, HISTORY_LEN));
}

#[test]
fn deterministic_net_adds_the_byte_sum_modulo_spread() {
    assert_eq!(deterministic_net("ab", 100, 50), 100 + (97 + 98) % 50);
    assert_eq!(deterministic_net("", 7, 3), 7);
    assert_eq!(deterministic_net("é", 0, 1000), (0xC3 + 0xA9) % 1000);
}

#[test]
fn server_ids_come_from_the_host_part_in_lower_case() {
    assert_eq!(safe_server_id("Server@HOST"), "host");
    assert_eq!(safe_server_id("user@Web.Example.com"), "web-example-com");
    assert_eq!(safe_server_id("a--b!!c_d"), "a-b-c_d");
    assert_eq!(safe_server_id("  "), "server");
    assert_eq!(safe_server_id("--x--"), "x");
    assert_eq!(safe_server_id("ÄBC"), "bc");
    assert_eq!(server_id_from_target("admin@Nas-1"), "nas-1");
}

#[test]
fn display_names_are_title_cased_words_of_the_host() {
    assert_eq!(display_name_from_target("admin@web-01.example.com"), "Web 01");
    assert_eq!(display_name_from_target("storage_box"), "Storage Box");
    assert_eq!(display_name_from_target("   "), "Server");
    assert_eq!(display_name_from_target("émile"), "Émile");
    assert_eq!(display_name_from_target(".hidden"), ".hidden");
    assert_eq!(display_name_from_target("x@"), "X@");
}

#[test]
fn unique_ids_number_the_base_from_two() {
    let config = AppConfig {
        refresh_interval_ms: 1_000,
        servers: vec![ServerConfig::local("nas", "A"), ServerConfig::local("nas-2", "B")],
    };
    assert_eq!(unique_server_id_from_base(&config, "NAS"), "nas-3");
    assert_eq!(unique_server_id_from_base(&config, "web"), "web");
}

#[test]
fn text_helpers_match_std() {
    assert_eq!(ascii_lowercase("MiXeD-ÄÖ 1"), "MiXeD-ÄÖ 1".to_ascii_lowercase());
    assert_eq!(u64_text(u64::MAX), u64::MAX.to_string());
    assert_eq!(u128_text(u128::MAX), u128::MAX.to_string());
    assert_eq!(parse_u64(&chars_of("+42")), Some(42));
    assert_eq!(parse_u64(&chars_of("18446744073709551616")), None);
    assert_eq!(parse_u16(&chars_of("65535")), Some(65535));
    assert_eq!(parse_u16(&chars_of("-1")), None);
    let words = split_words(&chars_of("  a  bc\td "));
    assert_eq!(words, vec![vec!['a'], vec!['b', 'c'], vec!['d']]);
}

#[test]
fn ssh_config_entries_describe_their_target() {
    let entry = |user: Option<&str>, hostname: Option<&str>| SshConfigEntry {
        alias: "a".to_string(),
        hostname: hostname.map(str::to_string),
        user: user.map(str::to_string),
    };
    assert_eq!(entry(Some("root"), Some("10.0.0.2")).detail(), "root@10.0.0.2");
    assert_eq!(entry(None, Some("10.0.0.2")).detail(), "10.0.0.2");
    assert_eq!(entry(Some("root"), None).detail(), "ssh config host");
    assert!(is_selectable_ssh_host_alias(&chars_of("web")));
    for bad in ["", "!web", "*", "we?b", "%h"] {
        assert!(!is_selectable_ssh_host_alias(&chars_of(bad)));
    }
    let hosts = parse_ssh_config_hosts("host a b # comment\n  hostname h\nHOST a c\nUser u\n");
    let aliases = hosts.iter().map(|h| h.alias.as_str()).collect::<Vec<_>>();
    assert_eq!(aliases, vec!["a", "b", "c"]);
    assert_eq!(hosts[2].user.as_deref(), Some("u"));
    assert_eq!(hosts[0].hostname.as_deref(), Some("h"));
}

#[test]
fn disk_aliases_are_kept_in_mount_order() {
    let mut aliases = DiskAliases::new();
    assert!(aliases.is_empty());
    aliases.insert("/mnt/z".to_string(), "z".to_string());
    aliases.insert("/mnt/a".to_string(), "a".to_string());
    aliases.insert("/mnt/z".to_string(), "zz".to_string());
    assert_eq!(aliases.len(), 2);
    let (first, alias) = aliases.entry(0);
    assert_eq!((first.as_str(), alias.as_str()), ("/mnt/a", "a"));
    assert_eq!(aliases.get(&chars_of("/mnt/z")).map(String::as_str), Some("zz"));
    assert_eq!(aliases.get(&chars_of("/mnt/q")), None);
    assert!(aliases.same_as(&aliases.duplicate()));
}

#[test]
fn pseudo_history_takes_the_whole_range_that_fits() {
    for (current, id, salt) in [(32_726u16, "z", 0usize), (10, "large-salt", 32_000), (5, "é-host", 20_000)] {
        assert_eq!(pseudo_history(current, id, salt, HISTORY_LEN), oracle_pseudo_history(current, id, salt, HISTORY_LEN));
    }
    assert_eq!(deterministic_net("ab", 4_000_000_000, 7), 4_000_000_000 + (97 + 98) % 7);
}

#[test]
fn snapshot_groups_hosts_in_ascending_group_order() {
    let entries = vec![
        ("Web".to_string(), "- web-1".to_string()),
        ("Storage".to_string(), "- nas".to_string()),
        ("Web".to_string(), "- web-2".to_string()),
        ("Backup".to_string(), "- tape".to_string()),
    ];
    assert_eq!(
        grouped_snapshot_text("head\n", &entries),
        "head\n\n[Backup]\n- tape\n\n[Storage]\n- nas\n\n[Web]\n- web-1\n- web-2\n"
    );
    assert_eq!(grouped_snapshot_text("only\n", &Vec::new()), "only\n");
}
