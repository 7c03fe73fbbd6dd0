use rktop::cardtext::{
    column_disk_mount_widths, compact_size_text, disk_bar_width, disk_detail_text,
    disk_detail_widths, disk_snapshot_text, fit_text, format_refresh_ms, format_uptime,
    header_detail_text, kib_pair, kib_to_compact, kib_to_gib, kib_to_gib_short, progress_bar,
    ram_detail, short_kernel, short_mount, size_pair_text,
};
use rktop::disks::DiskSnapshot;
use rktop::layout::{
    card_content_layout, disk_priority_row_heights, distribute_extra_height, grid_columns,
    history_graph_width, minimum_terminal_size, preferred_row_height, row_layout_infos,
    shrink_row_heights, HostLayout, RowLayoutInfo, CARD_BORDER_ROWS,
};
use rktop::theme::Status;

fn test_disk(mount: &str, used_gib: f64, total_gib: f64, percent: u16) -> DiskSnapshot {
    DiskSnapshot {
        mount: mount.to_string(),
        used_kib: (used_gib * 1_048_576.0).round() as u64,
        total_kib: (total_gib * 1_048_576.0).round() as u64,
        percent,
    }
}

fn host(status: Status, mounts: &[&str]) -> HostLayout {
    HostLayout { status, mounts: mounts.iter().map(|m| m.to_string()).collect() }
}

#[test]
fn overview_header_stays_minimal() {
    let detail = header_detail_text(6, 1_000);
    assert_eq!(detail, "6 hosts · refresh 1000ms · +/- 100ms · q/ctrl-c/esc exits");
    assert!(!detail.contains("MODE"));
    assert!(!detail.contains("ok"));
    assert!(!detail.contains("attention"));
}

#[test]
fn disk_detail_columns_align_to_visible_card_maxima() {
    let disks = vec![
        test_disk("/", 0.1, 225.5, 0),
        test_disk("/mnt/tank", 3.9 * 1024.0, 12.7 * 1024.0, 31),
    ];
    let widths = disk_detail_widths(&disks, disks.len());

    assert_eq!(
        disk_detail_text(disks[0].percent, Some(disks[0].used_kib), Some(disks[0].total_kib), widths),
        "  0% 0.1G/225.5G "
    );
    assert_eq!(
        disk_detail_text(disks[1].percent, Some(disks[1].used_kib), Some(disks[1].total_kib), widths),
        " 31% 3.9T/ 12.7T "
    );
}

#[test]
fn disk_mount_width_aligns_by_grid_column() {
    let hosts = vec![
        host(Status::Healthy, &["/"]),
        host(Status::Healthy, &["/"]),
        host(Status::Healthy, &["tank"]),
        host(Status::Healthy, &["media"]),
    ];

    assert_eq!(column_disk_mount_widths(&hosts, 2), vec![4, 5]);
}

#[test]
fn unavailable_cards_do_not_widen_mount_columns() {
    let hosts = vec![
        host(Status::Healthy, &["/"]),
        host(Status::Unavailable, &["/mnt/a-very-long-mount-name"]),
    ];
    assert_eq!(column_disk_mount_widths(&hosts, 2), vec![1, 1]);
    let long = vec![host(Status::Warn, &["/mnt/a-very-long-mount-name"])];
    assert_eq!(column_disk_mount_widths(&long, 0), vec![12]);
}

#[test]
fn available_card_layout_spends_the_full_height_budget() {
    let layout = card_content_layout(22, 1);
    let used_rows =
        6 + layout.cpu_graph_rows + layout.ram_graph_rows + layout.net_graph_rows + layout.disk_rows;
    assert_eq!(used_rows, 22);
    assert_eq!(layout.disk_rows, 1);
    assert_eq!(layout.cpu_graph_rows, layout.ram_graph_rows);
    assert!(layout.net_graph_rows >= 1);
}

#[test]
fn multi_disk_card_preserves_mount_rows_before_graph_height() {
    let layout = card_content_layout(22, 8);
    let used_rows =
        6 + layout.cpu_graph_rows + layout.ram_graph_rows + layout.net_graph_rows + layout.disk_rows;
    assert_eq!(used_rows, 22);
    assert_eq!(layout.disk_rows, 8);
    assert!(layout.cpu_graph_rows >= 2);
    assert!(layout.ram_graph_rows >= 2);
}

#[test]
fn shared_card_layout_keeps_metric_rows_aligned() {
    let layout = card_content_layout(22, 8);
    assert_eq!(layout.disk_rows, 8);
    assert!(layout.cpu_graph_rows.abs_diff(layout.ram_graph_rows) <= 1);
    assert!(layout.ram_graph_rows.abs_diff(layout.net_graph_rows) <= 1);
    assert!(layout.net_graph_rows >= 2);
}

#[test]
fn small_cards_give_disks_only_the_rows_left_after_fixed_rows() {
    let layout = card_content_layout(9, 8);
    assert_eq!(layout.disk_rows, 3);
    assert_eq!(layout.cpu_graph_rows + layout.ram_graph_rows + layout.net_graph_rows, 0);
    let tiny = card_content_layout(4, 2);
    assert_eq!(tiny.disk_rows, 0);
    assert_eq!(tiny.cpu_graph_rows, 0);
    let split = card_content_layout(14, 0);
    assert_eq!((split.cpu_graph_rows, split.ram_graph_rows, split.net_graph_rows), (3, 3, 2));
}

#[test]
fn disk_heavy_rows_get_height_before_extra_graph_space() {
    let rows = vec![
        RowLayoutInfo { start: 0, end: 2, disk_rows: 1 },
        RowLayoutInfo { start: 2, end: 4, disk_rows: 1 },
        RowLayoutInfo { start: 4, end: 6, disk_rows: 8 },
    ];
    let heights = disk_priority_row_heights(48, &rows);
    assert_eq!(heights.iter().sum::<u16>(), 48);
    assert!(heights[2] > heights[0]);
    assert!(heights[2] > heights[1]);
    let nas_inner_height = heights[2].saturating_sub(CARD_BORDER_ROWS);
    assert_eq!(card_content_layout(nas_inner_height, 8).disk_rows, 8);
}

#[test]
fn row_heights_shrink_the_tallest_rows_first_when_space_is_short() {
    let rows = vec![
        RowLayoutInfo { start: 0, end: 1, disk_rows: 0 },
        RowLayoutInfo { start: 1, end: 2, disk_rows: 8 },
    ];
    assert_eq!(disk_priority_row_heights(20, &rows), vec![8, 12]);
    assert_eq!(disk_priority_row_heights(10, &rows), vec![8, 8]);
    assert_eq!(disk_priority_row_heights(30, &rows), vec![11, 19]);
    assert_eq!(disk_priority_row_heights(30, &Vec::new()), Vec::<u16>::new());
}

#[test]
fn extra_height_is_dealt_round_robin_and_shrinking_stops_at_the_floor() {
    let mut heights = vec![8, 10, 12];
    distribute_extra_height(&mut heights, 4);
    assert_eq!(heights, vec![10, 11, 13]);

    let mut tall = vec![9, 12, 12];
    shrink_row_heights(&mut tall, 3);
    assert_eq!(tall, vec![9, 11, 10]);
    let mut floor = vec![8, 9];
    shrink_row_heights(&mut floor, 5);
    assert_eq!(floor, vec![8, 8]);
}

#[test]
fn rows_group_hosts_by_column_count_and_take_the_tallest_disk_list() {
    let hosts = vec![
        host(Status::Healthy, &["/"]),
        host(Status::Healthy, &["/", "tank", "fast"]),
        host(Status::Unavailable, &["a", "b", "c", "d"]),
    ];
    let infos = row_layout_infos(&hosts, 2);
    assert_eq!(
        infos,
        vec![
            RowLayoutInfo { start: 0, end: 2, disk_rows: 3 },
            RowLayoutInfo { start: 2, end: 3, disk_rows: 0 },
        ]
    );
}

#[test]
fn grid_columns_follow_terminal_width_and_host_count() {
    assert_eq!(grid_columns(200, 5), 3);
    assert_eq!(grid_columns(180, 2), 2);
    assert_eq!(grid_columns(120, 5), 2);
    assert_eq!(grid_columns(87, 5), 1);
    assert_eq!(grid_columns(200, 0), 1);
    assert_eq!(preferred_row_height(0), 8);
    assert_eq!(preferred_row_height(3), 11);
    assert_eq!(preferred_row_height(20), 16);
    assert_eq!(history_graph_width(10), 18);
    assert_eq!(history_graph_width(40), 40);
}

#[test]
fn minimum_terminal_size_matches_btop_style_floor() {
    let requirement = minimum_terminal_size();
    assert_eq!(requirement.width, 80);
    assert_eq!(requirement.height, 24);
}

#[test]
fn sizes_print_one_decimal_like_float_formatting() {
    let samples: Vec<u64> = vec![
        0,
        1,
        52_428,
        52_429,
        104_857,
        157_286,
        1_048_576,
        1_101_005,
        1_153_433,
        1_205_862,
        236_453_069,
        1_073_741_823,
        1_073_741_824,
        1_127_428_915,
        4_089_446_400,
        13_316_000_000,
        262_144,
        786_432,
        1_310_720,
        1_835_008,
        268_435_456 * 5,
        268_435_456 * 7,
        (1u64 << 53) - 1,
    ];
    for kib in samples {
        let gib = kib as f64 / 1_048_576.0;
        let expected =
            if gib >= 1024.0 { format!("{:.1}T", gib / 1024.0) } else { format!("{gib:.1}G") };
        assert_eq!(kib_to_compact(kib), expected, "kib = {kib}");
        assert_eq!(kib_to_gib(kib), format!("{:.1}GiB", gib), "kib = {kib}");
        assert_eq!(kib_to_gib_short(kib), format!("{:.1}G", gib), "kib = {kib}");
    }
    // An exact tie goes to the even tenth, as float printing does.
    assert_eq!(kib_to_compact(262_144), "0.2G");
    assert_eq!(kib_to_compact(786_432), "0.8G");
    assert_eq!(kib_to_compact(1_310_720), "1.2G");
    assert_eq!(kib_to_compact(268_435_456 * 5), "1.2T");
}

#[test]
fn size_texts_fall_back_to_a_dash() {
    assert_eq!(compact_size_text(None), "-");
    assert_eq!(compact_size_text(Some(1_048_576)), "1.0G");
    assert_eq!(size_pair_text(Some(1_048_576), None), "1.0G/-");
    assert_eq!(kib_pair(Some(1_048_576), Some(2_097_152)), "1.0GiB / 2.0GiB");
    assert_eq!(kib_pair(None, Some(2_097_152)), "-");
    assert_eq!(ram_detail(None, None, 0), vec!["no data".to_string()]);
    assert_eq!(
        ram_detail(Some(1_048_576), Some(4_194_304), 25),
        vec!["1.0G/4.0G".to_string(), "25%".to_string()]
    );
    assert_eq!(format_refresh_ms(250), "250ms");
}

#[test]
fn uptime_uses_days_hours_and_padded_minutes() {
    assert_eq!(format_uptime(None), "up -");
    assert_eq!(format_uptime(Some(59)), "up 0:00");
    assert_eq!(format_uptime(Some(3_660)), "up 1:01");
    assert_eq!(format_uptime(Some(4_406_700)), "up 51d 0:05");
    assert_eq!(format_uptime(Some(86_400 + 25 * 60)), "up 1d 0:25");
}

#[test]
fn kernel_keeps_its_first_two_words() {
    assert_eq!(short_kernel(None), "-");
    assert_eq!(short_kernel(Some("   ")), "-");
    assert_eq!(short_kernel(Some("Linux")), "Linux");
    assert_eq!(short_kernel(Some("Linux 6.8.1-fixture #1 SMP")), "Linux 6.8.1-fixture");
    assert_eq!(short_kernel(Some("  Linux\t x ")), "Linux x");
}

#[test]
fn progress_bar_rounds_filled_cells_and_caps_at_full() {
    assert_eq!(progress_bar(0, 4), "▕░░░░▏");
    assert_eq!(progress_bar(50, 4), "▕██░░▏");
    assert_eq!(progress_bar(13, 4), "▕█░░░▏");
    assert_eq!(progress_bar(250, 4), "▕████▏");
    assert_eq!(progress_bar(40, 0), "▕▏");
}

#[test]
fn fit_text_pads_or_cuts_with_an_ellipsis() {
    assert_eq!(fit_text("Example Server", 24), format!("{:<24}", "Example Server"));
    assert_eq!(fit_text("Example Server", 10), "Example S…");
    assert_eq!(fit_text("abc", 0), "…");
    assert_eq!(fit_text("abc", 3), "abc");
}

#[test]
fn short_mount_keeps_the_last_component() {
    assert_eq!(short_mount("/"), "/");
    assert_eq!(short_mount("/mnt/tank/media/"), "media");
    assert_eq!(short_mount("tank"), "tank");
    assert_eq!(short_mount("/mnt/a-very-long-mount-name"), "a-very-long-");
    assert_eq!(short_mount("//"), "//");
}

#[test]
fn disk_bar_width_leaves_room_for_labels_and_keeps_a_minimum() {
    assert_eq!(disk_bar_width(60, 4, 17), 60 - (1 + 4 + 1 + 1 + 1 + 17 + 2));
    assert_eq!(disk_bar_width(20, 4, 17), 12);
}

#[test]
fn disk_snapshot_text_joins_rows() {
    assert_eq!(disk_snapshot_text(&Vec::new()), "-");
    let disks = vec![
        DiskSnapshot { mount: "/".to_string(), used_kib: 1_048_576, total_kib: 4_194_304, percent: 25 },
        DiskSnapshot { mount: "tank".to_string(), used_kib: 0, total_kib: 1_048_576, percent: 0 },
    ];
    assert_eq!(disk_snapshot_text(&disks), "/:25%:1.0G/4.0G,tank:0%:0.0G/1.0G");
}
