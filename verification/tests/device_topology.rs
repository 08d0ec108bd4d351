use limedl_core::topology::{
    base_disk_name, channel_count, sync_after_batch, detect_all_disk_types, detect_device_id, detect_disk_type, should_sync,
    strip_partition, DeviceId, SyncMode, ADAPTIVE_SYNC_BYTES, ADAPTIVE_SYNC_INTERVAL_MS,
};
use limedl_core::types::DiskType;

#[test]
fn linux_partitions_map_to_their_disk() {
    assert_eq!(strip_partition("sda1"), "sda");
    assert_eq!(strip_partition("sda"), "sda");
    assert_eq!(strip_partition("nvme0n1p1"), "nvme0n1");
    assert_eq!(strip_partition("nvme0n1"), "nvme0n1");
    assert_eq!(strip_partition("mmcblk0p2"), "mmcblk0");
    assert_eq!(strip_partition("vdb12"), "vdb");
}

#[test]
fn mac_slices_map_to_their_disk() {
    assert_eq!(base_disk_name("disk1s2"), "disk1");
    assert_eq!(base_disk_name("disk0"), "disk0");
    assert_eq!(base_disk_name("disk3s1s1"), "disk3");
}

#[test]
fn rotational_flag_means_hdd() {
    assert_eq!(detect_disk_type(&Some("1\n".to_string())), DiskType::Hdd);
    assert_eq!(detect_disk_type(&Some("0\n".to_string())), DiskType::Ssd);
    assert_eq!(detect_disk_type(&None), DiskType::Ssd);
    let all = detect_all_disk_types(&vec![
        ("sda".to_string(), Some("1".to_string())),
        ("nvme0n1".to_string(), Some("0".to_string())),
    ]);
    assert_eq!(all, vec![("sda".to_string(), DiskType::Hdd), ("nvme0n1".to_string(), DiskType::Ssd)]);
}

#[test]
fn device_ids() {
    assert_eq!(detect_device_id(None, &None), DeviceId::Unknown("stat_failed".to_string()));
    assert_eq!(detect_device_id(Some((8, 1)), &Some("sda1".to_string())), DeviceId::UnixBlock("sda".to_string()));
    assert_eq!(detect_device_id(Some((0, 44)), &None), DeviceId::Volume("dev_0_44".to_string()));
    assert_eq!(DeviceId::UnixBlock("sda".to_string()).to_display_string(), "block:sda");
    assert_eq!(DeviceId::Volume("D:".to_string()).to_display_string(), "vol:D:");
}

#[test]
fn queue_channels_and_sync_policy() {
    assert_eq!(channel_count(DiskType::Hdd), 1);
    assert_eq!(channel_count(DiskType::Ssd), 4);
    assert!(!should_sync(SyncMode::Off, u64::MAX, u64::MAX));
    assert!(should_sync(SyncMode::Force, 0, 0));
    assert!(should_sync(SyncMode::Adaptive, ADAPTIVE_SYNC_BYTES, 0));
    assert!(should_sync(SyncMode::Adaptive, 0, ADAPTIVE_SYNC_INTERVAL_MS));
    assert!(!should_sync(SyncMode::Adaptive, ADAPTIVE_SYNC_BYTES - 1, ADAPTIVE_SYNC_INTERVAL_MS - 1));
}

#[test]
fn sync_counters_after_batches() {
    assert_eq!(sync_after_batch(SyncMode::Off, 5, 10, 99_999), (false, 5));
    assert_eq!(sync_after_batch(SyncMode::Force, 5, 10, 0), (true, 5));
    assert_eq!(sync_after_batch(SyncMode::Adaptive, 5, 10, 0), (false, 15));
    assert_eq!(sync_after_batch(SyncMode::Adaptive, ADAPTIVE_SYNC_BYTES - 10, 10, 0), (true, ADAPTIVE_SYNC_BYTES));
    assert_eq!(sync_after_batch(SyncMode::Adaptive, 0, 0, ADAPTIVE_SYNC_INTERVAL_MS), (true, 0));
}
