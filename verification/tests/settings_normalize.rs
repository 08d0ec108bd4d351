use limedl_core::settings::{
    absolute_dir_or_empty, normalize_bt_settings, normalize_download_dir, normalize_logging_settings, normalize_min_threads,
    normalize_settings, normalize_tracker_list, normalize_tracker_list_lossy, resolve_user_agent,
};
use limedl_core::types::{
    AppSettings, AutomaticSchedulerSettings, BtPortRange, BtSettings, DownloadDefaultsSettings,
    IoBaselineSettings, LogSettings, SchedulerSettings, TraditionalSchedulerSettings,
};

#[test]
fn test_normalize_min_threads_zero_with_max_eight() {
    assert_eq!(normalize_min_threads(0, 8), 4);
}

#[test]
fn test_normalize_min_threads_zero_with_max_one() {
    assert_eq!(normalize_min_threads(0, 1), 1);
}

#[test]
fn test_normalize_min_threads_within_range() {
    assert_eq!(normalize_min_threads(3, 8), 3);
}

#[test]
fn test_normalize_min_threads_clamped_to_max() {
    assert_eq!(normalize_min_threads(10, 8), 8);
}

#[test]
fn test_normalize_min_threads_zero_with_max_two() {
    assert_eq!(normalize_min_threads(0, 2), 1);
}

#[test]
fn test_normalize_logging_retention_count_clamped() {
    let input = LogSettings {
        retention_count: Some(500),
        ..LogSettings::default()
    };
    let result = normalize_logging_settings(input);
    assert_eq!(result.retention_count, Some(500));

    let input = LogSettings {
        retention_count: Some(2000),
        ..LogSettings::default()
    };
    let result = normalize_logging_settings(input);
    assert_eq!(result.retention_count, Some(1000));

    let input = LogSettings {
        retention_count: Some(0),
        ..LogSettings::default()
    };
    let result = normalize_logging_settings(input);
    assert_eq!(result.retention_count, Some(0));
}

#[test]
fn test_normalize_logging_retention_days_clamped() {
    let input = LogSettings {
        retention_days: Some(365),
        ..LogSettings::default()
    };
    let result = normalize_logging_settings(input);
    assert_eq!(result.retention_days, Some(365));

    let input = LogSettings {
        retention_days: Some(5000),
        ..LogSettings::default()
    };
    let result = normalize_logging_settings(input);
    assert_eq!(result.retention_days, Some(3650));

    let input = LogSettings {
        retention_days: Some(0),
        ..LogSettings::default()
    };
    let result = normalize_logging_settings(input);
    assert_eq!(result.retention_days, Some(0));
}

#[test]
fn test_normalize_logging_file_path_trimmed() {
    let input = LogSettings {
        file_path: "  /var/log/app/  ".into(),
        ..LogSettings::default()
    };
    let result = normalize_logging_settings(input);
    assert_eq!(result.file_path, "/var/log/app/");
}

#[test]
fn test_normalize_logging_none_preserved() {
    let input = LogSettings {
        retention_count: None,
        retention_days: None,
        ..LogSettings::default()
    };
    let result = normalize_logging_settings(input);
    assert!(result.retention_count.is_none());
    assert!(result.retention_days.is_none());
}

#[test]
fn test_normalize_download_dir_empty() {
    assert_eq!(normalize_download_dir(""), "");
}

#[test]
fn test_normalize_download_dir_whitespace_only() {
    assert_eq!(normalize_download_dir("   \t  "), "");
}

#[test]
fn test_normalize_download_dir_relative_path() {
    assert_eq!(normalize_download_dir("downloads"), "");
}

#[test]
fn test_normalize_download_dir_absolute_unix() {
    assert_eq!(
        normalize_download_dir("/home/user/downloads"),
        "/home/user/downloads"
    );
}

#[test]
fn test_normalize_tracker_list_dedup_sorted() {
    let input = "udp://tracker.opentrackr.org:1337\nhttp://tracker.example.com\nudp://tracker.opentrackr.org:1337";
    let result = normalize_tracker_list(input).unwrap();
    let lines: Vec<&str> = result.lines().collect();
    assert_eq!(lines.len(), 2);
    assert_eq!(lines[0], "http://tracker.example.com/");
    assert_eq!(lines[1], "udp://tracker.opentrackr.org:1337");
}

#[test]
fn test_normalize_tracker_list_empty() {
    let result = normalize_tracker_list("").unwrap();
    assert!(result.is_empty());
}

#[test]
fn test_normalize_tracker_list_invalid_scheme() {
    let err = normalize_tracker_list("ftp://tracker.example.com").unwrap_err();
    assert!(matches!(err, limedl_core::error::DownloadError::InvalidResponse(_)));
    assert!(err.message().contains("unsupported tracker scheme"));
}

#[test]
fn test_normalize_tracker_list_empty_lines_filtered() {
    let input = "udp://tracker.opentrackr.org:1337\n\n\nhttp://example.com\n";
    let result = normalize_tracker_list(input).unwrap();
    let lines: Vec<&str> = result.lines().collect();
    assert_eq!(lines.len(), 2);
}

#[test]
fn test_normalize_tracker_list_lines_trimmed() {
    let input = "  udp://tracker.opentrackr.org:1337  \n  http://example.com  ";
    let result = normalize_tracker_list(input).unwrap();
    let lines: Vec<&str> = result.lines().collect();
    assert_eq!(lines.len(), 2);
}

#[test]
fn test_normalize_tracker_list_unsupported_scheme_err() {
    let err = normalize_tracker_list("ws://tracker.example.com").unwrap_err();
    assert!(matches!(err, limedl_core::error::DownloadError::InvalidResponse(_)));
}

#[test]
fn tracker_list_lossy_drops_invalid_lines() {
    let input = "ftp://bad.example.com\r\nhttps://b.example.com/announce\n\nhttps://a.example.com/announce\nnot a url\nhttps://b.example.com/announce";
    assert_eq!(
        normalize_tracker_list_lossy(input),
        "https://a.example.com/announce\nhttps://b.example.com/announce"
    );
}

#[test]
fn test_resolve_user_agent_custom() {
    let result = resolve_user_agent(Some("MyAgent/1.0"), "Default/1.0").unwrap();
    assert_eq!(result, "MyAgent/1.0");
}

#[test]
fn test_resolve_user_agent_falls_back_to_default() {
    let result = resolve_user_agent(None, "Default/1.0").unwrap();
    assert_eq!(result, "Default/1.0");
}

#[test]
fn test_resolve_user_agent_empty_string_falls_back() {
    let result = resolve_user_agent(Some(""), "Default/1.0").unwrap();
    assert_eq!(result, "Default/1.0");
}

#[test]
fn test_resolve_user_agent_whitespace_falls_back() {
    let result = resolve_user_agent(Some("   "), "Default/1.0").unwrap();
    assert_eq!(result, "Default/1.0");
}

#[test]
fn test_normalize_bt_empty_tracker_list_ok() {
    let input = BtSettings {
        tracker_list: String::new(),
        ..BtSettings::default()
    };
    let result = normalize_bt_settings(input).unwrap();
    assert!(result.tracker_list.is_empty());
}

#[test]
fn test_normalize_bt_upload_limit_clamped() {
    const MAX_UPLOAD_LIMIT_BYTES: u64 = 10 * 1024 * 1024 * 1024 * 1024; // 10 TiB
    let input = BtSettings {
        upload_limit_bytes: MAX_UPLOAD_LIMIT_BYTES + 1,
        ..BtSettings::default()
    };
    let result = normalize_bt_settings(input).unwrap();
    assert_eq!(result.upload_limit_bytes, MAX_UPLOAD_LIMIT_BYTES);

    let input = BtSettings {
        upload_limit_bytes: u64::MAX,
        ..BtSettings::default()
    };
    let result = normalize_bt_settings(input).unwrap();
    assert_eq!(result.upload_limit_bytes, MAX_UPLOAD_LIMIT_BYTES);
}

#[test]
fn test_normalize_bt_listen_port_range_start_gt_end_err() {
    let input = BtSettings {
        listen_port_range: Some(BtPortRange {
            start: 7000,
            end: 6000,
        }),
        ..BtSettings::default()
    };
    let err = normalize_bt_settings(input).unwrap_err();
    assert!(err.message().contains("listen_port_range"));
}

#[test]
fn test_normalize_bt_listen_port_range_below_1025_err() {
    let input = BtSettings {
        listen_port_range: Some(BtPortRange {
            start: 1024,
            end: 2048,
        }),
        ..BtSettings::default()
    };
    let err = normalize_bt_settings(input).unwrap_err();
    assert!(err.message().contains("listen_port_range"));
}

#[test]
fn port_range_error_messages_are_exact() {
    let input = BtSettings {
        listen_port_range: Some(BtPortRange { start: 7000, end: 6000 }),
        ..BtSettings::default()
    };
    assert_eq!(
        normalize_bt_settings(input).unwrap_err().message(),
        "invalid server response: listen_port_range: start (7000) must be <= end (6000)"
    );
    let input = BtSettings {
        listen_port_range: Some(BtPortRange { start: 1024, end: 2048 }),
        ..BtSettings::default()
    };
    assert_eq!(
        normalize_bt_settings(input).unwrap_err().message(),
        "invalid server response: listen_port_range: ports must be >= 1025 (got 1024-2048)"
    );
}

#[test]
fn test_normalize_bt_listen_port_below_1024_filtered() {
    let input = BtSettings {
        listen_port: Some(1023),
        ..BtSettings::default()
    };
    let result = normalize_bt_settings(input).unwrap();
    assert!(result.listen_port.is_none());
}

#[test]
fn test_normalize_bt_listen_port_none_preserved() {
    let input = BtSettings {
        listen_port: None,
        ..BtSettings::default()
    };
    let result = normalize_bt_settings(input).unwrap();
    assert!(result.listen_port.is_none());
}

#[test]
fn test_normalize_bt_valid_port_range_and_settings_ok() {
    let input = BtSettings {
        listen_port_range: Some(BtPortRange {
            start: 6881,
            end: 6889,
        }),
        listen_port: Some(6881),
        ..BtSettings::default()
    };
    let result = normalize_bt_settings(input).unwrap();
    assert_eq!(
        result.listen_port_range,
        Some(BtPortRange {
            start: 6881,
            end: 6889
        })
    );
    assert_eq!(result.listen_port, Some(6881));
}

#[test]
fn test_normalize_settings_clamps_all_fields() {
    let settings = AppSettings {
        scheduler: SchedulerSettings {
            traditional: TraditionalSchedulerSettings {
                max_parallel_tasks: 100,
            },
            automatic: AutomaticSchedulerSettings {
                max_parallel_threads: 128,
                max_threads_per_task: 200,
                ..AutomaticSchedulerSettings::default()
            },
            ..SchedulerSettings::default()
        },
        io_baseline: IoBaselineSettings {
            buffer_limit_mb: 16,
            game_mode_buffer_mb: 8192,
            max_parallel_hdd: 32,
            game_mode_max_parallel: 10,
            ..IoBaselineSettings::default()
        },
        download: DownloadDefaultsSettings {
            default_max_retries: 100,
            ..DownloadDefaultsSettings::default()
        },
        last_setup_step: Some(99),
        max_in_memory_downloads: 5,
        ..AppSettings::default()
    };

    let result = normalize_settings(settings).unwrap();

    assert_eq!(result.scheduler.traditional.max_parallel_tasks, 32);
    assert_eq!(result.scheduler.automatic.max_parallel_threads, 64);
    assert_eq!(result.scheduler.automatic.max_threads_per_task, 32);

    assert_eq!(result.io_baseline.buffer_limit_mb, 64);
    assert_eq!(result.io_baseline.game_mode_buffer_mb, 4096);
    assert_eq!(result.io_baseline.max_parallel_hdd, 16);
    assert_eq!(result.io_baseline.game_mode_max_parallel, 4);

    assert_eq!(result.download.default_max_retries, 20);

    assert_eq!(result.last_setup_step, Some(9));

    assert_eq!(result.max_in_memory_downloads, 10);
}

#[test]
fn test_normalize_settings_clamps_io_opposite_ends() {
    let settings = AppSettings {
        io_baseline: IoBaselineSettings {
            buffer_limit_mb: 65536,
            game_mode_buffer_mb: 1,
            ..IoBaselineSettings::default()
        },
        ..AppSettings::default()
    };
    let result = normalize_settings(settings).unwrap();
    assert_eq!(result.io_baseline.buffer_limit_mb, 32768);
    assert_eq!(result.io_baseline.game_mode_buffer_mb, 16);
}

#[test]
fn test_normalize_settings_max_in_memory_edge_cases() {
    let settings = AppSettings {
        max_in_memory_downloads: 0,
        ..AppSettings::default()
    };
    let result = normalize_settings(settings).unwrap();
    assert_eq!(result.max_in_memory_downloads, 0);

    let settings = AppSettings {
        max_in_memory_downloads: 50000,
        ..AppSettings::default()
    };
    let result = normalize_settings(settings).unwrap();
    assert_eq!(result.max_in_memory_downloads, 10000);
}

#[test]
fn test_normalize_settings_last_setup_step_none_preserved() {
    let settings = AppSettings {
        last_setup_step: None,
        ..AppSettings::default()
    };
    let result = normalize_settings(settings).unwrap();
    assert_eq!(result.last_setup_step, None);
}

#[test]
fn normalize_settings_rejects_bad_user_agent() {
    let settings = AppSettings {
        download: DownloadDefaultsSettings {
            default_user_agent: "bad\nagent".into(),
            ..DownloadDefaultsSettings::default()
        },
        ..AppSettings::default()
    };
    let err = normalize_settings(settings).unwrap_err();
    assert_eq!(err.message(), "invalid server response: invalid user-agent value");
}

#[test]
fn absolute_dir_is_kept_only_when_absolute() {
    assert_eq!(absolute_dir_or_empty("/data/dl".to_string(), true), "/data/dl");
    assert_eq!(absolute_dir_or_empty("/data/dl".to_string(), false), "");
    assert_eq!(absolute_dir_or_empty(String::new(), true), "");
}

#[test]
fn relative_shaped_download_dir_is_dropped() {
    assert_eq!(normalize_download_dir("  data/downloads  "), "");
    assert_eq!(normalize_download_dir("./dl"), "");
}

#[test]
fn normalizing_normalized_settings_keeps_them() {
    let mut settings = AppSettings::default();
    settings.scheduler.automatic.max_parallel_threads = 500;
    settings.scheduler.automatic.min_threads_per_task = 0;
    settings.logging.file_path = "  /var/log/dl.log ".to_string();
    settings.bt.tracker_list = "udp://b.example:80\nhttp://a.example/announce\nudp://b.example:80".to_string();
    settings.max_in_memory_downloads = 3;
    let once = normalize_settings(settings).unwrap();
    let twice = normalize_settings(once.clone()).unwrap();
    assert_eq!(format!("{twice:?}"), format!("{once:?}"));
}
