use rktop::config::ServerConfig;
use rktop::disks::{
    apply_disk_aliases, dedupe_disk_mounts, depth_of, disk_snapshots, drop_covered_rows,
    meaningful_disk_mount, meaningful_snapshots, parent_mount, sort_rows, DiskSnapshot,
    RowOrder,
};
use rktop::model::{DiskMetrics, StorageMetrics};
use rktop::text::chars_of;

const GIB: u64 = 1024 * 1024;

fn disk(mount: &str, total_kib: u64, used_kib: u64, available_kib: u64) -> DiskMetrics {
    DiskMetrics { mount: mount.to_string(), total_kib, used_kib, available_kib }
}

fn storage(disks: Vec<DiskMetrics>) -> StorageMetrics {
    StorageMetrics { root_total_kib: None, root_used_kib: None, root_available_kib: None, disks }
}

/// Shares for the disks of `storage` (the program works them out from the
/// sizes; here each disk gets a distinct value to follow it through).
fn shares(storage: &StorageMetrics) -> Vec<u16> {
    (0..storage.disks.len()).map(|i| (i as u16 * 11) % 100).collect()
}

fn row(mount: &str, used_kib: u64, total_kib: u64, percent: u16) -> DiskSnapshot {
    DiskSnapshot { mount: mount.to_string(), used_kib, total_kib, percent }
}

#[test]
fn zfs_pool_mount_collapses_child_dataset_mounts() {
    let gib = GIB;
    let storage = storage(vec![
        disk("/mnt/tank", 12 * 1024 * gib, 2 * 1024 * gib, 10 * 1024 * gib),
        disk("/mnt/tank/shared/media", 10 * 1024 * gib, 1400 * gib, 8 * 1024 * gib),
        disk("/mnt/tank/shared/app-data/user-data", 10 * 1024 * gib, 1700 * gib, 8 * 1024 * gib),
        disk("/mnt/fast", 300 * gib, 50 * gib, 250 * gib),
        disk("/mnt/fast/apps/media-service", 300 * gib, 10 * gib, 250 * gib),
        disk("/mnt/.ix-apps/docker", 300 * gib, 50 * gib, 250 * gib),
        disk(
            "/var/lib/incus/storage-pools/tank/containers/backup",
            10 * 1024 * gib,
            700 * gib,
            8 * 1024 * gib,
        ),
    ]);

    let disks = disk_snapshots(&storage, None, &shares(&storage), 0);
    let mounts = disks.iter().map(|disk| disk.mount.as_str()).collect::<Vec<_>>();
    assert_eq!(mounts, vec!["/mnt/tank", "/mnt/fast"]);
    assert_eq!(disks[0].used_kib, 2 * 1024 * gib);
}

#[test]
fn low_usage_parent_mount_does_not_hide_real_child_usage() {
    let gib = GIB;
    let storage = storage(vec![
        disk("/mnt/tank", 10 * 1024 * gib, 128, 10 * 1024 * gib),
        disk("/mnt/tank/shared/media", 10 * 1024 * gib, 1400 * gib, 8 * 1024 * gib),
    ]);

    let mounts = disk_snapshots(&storage, None, &shares(&storage), 0)
        .iter()
        .map(|disk| disk.mount.clone())
        .collect::<Vec<_>>();
    assert!(mounts.contains(&"/mnt/tank".to_string()));
    assert!(mounts.contains(&"/mnt/tank/shared/media".to_string()));
}

#[test]
fn disk_aliases_and_max_rows_apply_after_mount_cleanup() {
    let gib = GIB;
    let storage = storage(vec![
        disk("/mnt/tank", 12 * 1024 * gib, 4 * 1024 * gib, 8 * 1024 * gib),
        disk("/mnt/fast", 472 * gib, 97 * gib, 375 * gib),
    ]);
    let server = ServerConfig::ssh("storage", "Storage", "storage-host")
        .with_disk_max_rows(1)
        .with_disk_alias("/mnt/tank", "tank")
        .with_disk_alias("/mnt/fast", "fast");

    let disks = disk_snapshots(&storage, Some(&server), &shares(&storage), 0);

    assert_eq!(disks.len(), 1);
    assert_eq!(disks[0].mount, "tank");
}

#[test]
fn mount_depth_counts_path_components() {
    assert_eq!(depth_of(&chars_of("/")), 0);
    assert_eq!(depth_of(&chars_of("/mnt")), 1);
    assert_eq!(depth_of(&chars_of("/mnt/tank/shared")), 3);
    assert_eq!(depth_of(&chars_of("/mnt//tank/")), 2);
}

#[test]
fn parent_mount_requires_a_path_boundary() {
    assert!(parent_mount(&chars_of("/mnt/tank"), &chars_of("/mnt/tank/media")));
    assert!(!parent_mount(&chars_of("/mnt/tank"), &chars_of("/mnt/tanker")));
    assert!(!parent_mount(&chars_of("/mnt/tank"), &chars_of("/mnt/tank")));
    assert!(!parent_mount(&chars_of("/"), &chars_of("/mnt")));
}

#[test]
fn meaningful_mounts_skip_small_and_system_filesystems() {
    assert!(meaningful_disk_mount(&chars_of("/"), 10 * GIB));
    assert!(meaningful_disk_mount(&chars_of("/mnt/tank"), 10 * GIB));
    assert!(!meaningful_disk_mount(&chars_of("/mnt/tank"), 0));
    assert!(!meaningful_disk_mount(&chars_of("/mnt/.ix-apps/docker"), 10 * GIB));
    assert!(!meaningful_disk_mount(&chars_of("/boot"), 10 * GIB));
}

#[test]
fn meaningful_snapshots_keep_the_given_shares_and_skip_pseudo_mounts() {
    let rows = meaningful_snapshots(
        &vec![disk("/", 1000 * GIB, 250 * GIB, 750 * GIB), disk("/mnt/.ix-apps/docker", 300 * GIB, 50 * GIB, 250 * GIB)],
        &vec![25, 17],
    );
    assert_eq!(rows, vec![row("/", 250 * GIB, 1000 * GIB, 25)]);
}

#[test]
fn dedupe_keeps_the_fullest_report_at_the_first_place_of_each_mount() {
    let rows = dedupe_disk_mounts(vec![
        row("/mnt/tank", 1, 10, 10),
        row("/mnt/fast", 2, 10, 20),
        row("/mnt/tank", 9, 10, 90),
    ]);
    assert_eq!(rows.len(), 2);
    assert_eq!(rows[0].mount, "/mnt/tank");
    assert_eq!(rows[1].mount, "/mnt/fast");
    assert_eq!(rows[0].used_kib, 9);
}

#[test]
fn covered_children_are_dropped_under_used_parents() {
    let rows = drop_covered_rows(vec![
        row("/mnt/tank", 2 * 1024 * GIB, 12 * 1024 * GIB, 17),
        row("/mnt/tank/media", 1400 * GIB, 10 * 1024 * GIB, 14),
        row("/mnt/fast", 50 * GIB, 300 * GIB, 17),
    ]);
    let mounts = rows.iter().map(|r| r.mount.as_str()).collect::<Vec<_>>();
    assert_eq!(mounts, vec!["/mnt/tank", "/mnt/fast"]);
}

#[test]
fn rows_sort_by_depth_then_mount() {
    let sorted = sort_rows(
        vec![row("/mnt/tank/media", 0, 1, 0), row("/mnt/fast", 0, 1, 0), row("/", 0, 1, 0)],
        RowOrder::ByDepth,
    );
    let mounts = sorted.iter().map(|r| r.mount.as_str()).collect::<Vec<_>>();
    assert_eq!(mounts, vec!["/", "/mnt/fast", "/mnt/tank/media"]);
}

#[test]
fn aliases_rename_matching_rows_only() {
    let server = ServerConfig::ssh("s", "S", "h").with_disk_alias("/mnt/tank", "tank");
    let mut rows = vec![row("/mnt/tank", 1, 2, 50), row("/mnt/fast", 1, 2, 50)];
    apply_disk_aliases(&mut rows, Some(&server));
    assert_eq!(rows[0].mount, "tank");
    assert_eq!(rows[1].mount, "/mnt/fast");

    let mut untouched = vec![row("/mnt/tank", 1, 2, 50)];
    apply_disk_aliases(&mut untouched, None);
    assert_eq!(untouched[0].mount, "/mnt/tank");
}

#[test]
fn root_fallback_is_used_when_no_disk_rows_survive() {
    let storage = StorageMetrics {
        root_total_kib: Some(100 * GIB),
        root_used_kib: Some(25 * GIB),
        root_available_kib: Some(75 * GIB),
        disks: Vec::new(),
    };
    let rows = disk_snapshots(&storage, None, &shares(&storage), 25);
    assert_eq!(rows, vec![row("/", 25 * GIB, 100 * GIB, 25)]);
}
