use limedl_core::error::DownloadError;
use limedl_core::file_ops::{
    check_disk_space, configured_log_path, destination_exists_message, exceeds_retention_age, finalizing_name,
    is_finalizing_leftover, preallocation_falls_back, rotated_logs_over_count, rotated_log_name, rotation_number, sort_rotated_logs,
};

#[test]
fn check_disk_space_insufficient() {
    let available: u64 = 1_000_000;
    let required_bytes = available + 1;
    let result = check_disk_space(available, required_bytes);
    match result.unwrap_err() {
        DownloadError::InsufficientDiskSpace { available: a, required: r } => {
            assert!(a < r);
            assert_eq!(r, required_bytes + required_bytes / 10);
        }
        other => panic!("expected InsufficientDiskSpace, got {other:?}"),
    }
}

#[test]
fn check_disk_space_sufficient() {
    assert!(check_disk_space(500_000_000_000, 1).is_ok());
}

#[test]
fn unique_finalizing_path_no_existing_files() {
    let name = finalizing_name("myfile.bin", 4242, 0);
    assert!(name.contains("myfile.bin.finalizing."));
    assert_eq!(name, "myfile.bin.finalizing.4242.0.tmp");
}

#[test]
fn unique_finalizing_path_without_extension() {
    let name = finalizing_name("myfile", 7, 3);
    assert!(name.contains("myfile.finalizing."));
    assert_eq!(name, "myfile.finalizing.7.3.tmp");
}

#[test]
fn cleanup_finalizing_paths_removes_matching() {
    assert!(is_finalizing_leftover("myfile.bin.finalizing.1234.0.tmp", "myfile.bin"));
    assert!(is_finalizing_leftover("myfile.bin.finalizing.1234.1.tmp", "myfile.bin"));
    assert!(!is_finalizing_leftover("otherfile.finalizing.1234.0.tmp", "myfile.bin"));
    assert!(!is_finalizing_leftover("unrelated.txt", "myfile.bin"));
}

// ── own scenarios ──────────────────────────────────────

#[test]
fn disk_space_margin_is_exactly_ten_percent() {
    assert!(check_disk_space(1100, 1000).is_ok());
    assert_eq!(
        check_disk_space(1099, 1000),
        Err(DownloadError::InsufficientDiskSpace { available: 1099, required: 1100 })
    );
    assert!(check_disk_space(0, 0).is_ok());
}

#[test]
fn preallocation_fallback_errors() {
    for code in [1, 22, 38, 45, 95, 524] {
        assert!(preallocation_falls_back(Some(code)));
    }
    assert!(!preallocation_falls_back(Some(28)));
    assert!(!preallocation_falls_back(None));
}

#[test]
fn destination_exists_text() {
    assert_eq!(
        destination_exists_message("/tmp/a.bin"),
        "destination file already exists: /tmp/a.bin"
    );
}

#[test]
fn rotation_numbers() {
    assert_eq!(rotation_number("limedl.3", "limedl"), Some(3));
    assert_eq!(rotation_number("limedl.12", "limedl"), Some(12));
    assert_eq!(rotation_number("limedl", "limedl"), None);
    assert_eq!(rotation_number("limedl.x", "limedl"), None);
    assert_eq!(rotation_number("other.3", "limedl"), None);
    assert_eq!(rotation_number("limedl.4294967296", "limedl"), None);
}

#[test]
fn rotated_names() {
    assert_eq!(rotated_log_name("limedl", 2, "log"), "limedl.2.log");
}

#[test]
fn rotated_logs_sorted_newest_number_first() {
    let logs = vec![
        ("a.1.log".to_string(), 1),
        ("a.3.log".to_string(), 3),
        ("a.2.log".to_string(), 2),
    ];
    let sorted = sort_rotated_logs(logs);
    let numbers: Vec<u32> = sorted.iter().map(|(_, n)| *n).collect();
    assert_eq!(numbers, vec![3, 2, 1]);
    assert_eq!(sorted[0].0, "a.3.log");
}

#[test]
fn configured_log_path_trims_or_defaults() {
    assert_eq!(configured_log_path("   "), None);
    assert_eq!(configured_log_path(""), None);
    assert_eq!(configured_log_path("  /var/log/x.log "), Some("/var/log/x.log".to_string()));
}

#[test]
fn retention_by_count_keeps_low_numbers() {
    let logs = vec![
        ("a.5.log".to_string(), 5),
        ("a.3.log".to_string(), 3),
        ("a.2.log".to_string(), 2),
    ];
    assert_eq!(rotated_logs_over_count(&logs, 2), vec!["a.5.log".to_string(), "a.3.log".to_string()]);
    assert_eq!(rotated_logs_over_count(&logs, 5), Vec::<String>::new());
}

#[test]
fn retention_by_age_is_strictly_older() {
    assert!(!exceeds_retention_age(86400, 0, 1));
    assert!(exceeds_retention_age(86400, 1, 1));
    assert!(exceeds_retention_age(86401, 0, 1));
    assert!(exceeds_retention_age(3, 0, 0));
    assert!(!exceeds_retention_age(0, 0, 0));
}
