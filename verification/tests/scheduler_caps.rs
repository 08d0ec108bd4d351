use limedl_core::manifest::Manifest;
use limedl_core::scheduler::{
    effective_allocation_cap, effective_automatic_task_cap, hostname_from_manifest, remaining_bytes,
    Scheduler, DEFAULT_FIXED_THREADS, MAX_TRADITIONAL_THREADS,
};
use limedl_core::types::{
    AppSettings, AutomaticSchedulerSettings, ChecksumMode, DownloadState, Priority, SchedulerMode,
    SchedulerSettings, ThreadMode, TraditionalSchedulerSettings,
};

fn manifest(url: &str) -> Manifest {
    Manifest {
        id: String::new(),
        url: url.to_string(),
        final_url: url.to_string(),
        user_agent: String::new(),
        destination_dir: String::new(),
        file_name: String::new(),
        file_name_locked: false,
        destination_path: String::new(),
        temp_path: String::new(),
        total_bytes: None,
        downloaded_bytes: 0,
        supports_ranges: true,
        chunk_size: 4194304,
        connection_count: 0,
        thread_mode: ThreadMode::Adaptive,
        requested_thread_count: None,
        desired_thread_count: None,
        allocated_thread_count: None,
        adaptive_profile_snapshot: None,
        thread_note: None,
        etag: None,
        last_modified: None,
        state: DownloadState::Queued,
        cdn_accelerated: false,
        checksum_mode: ChecksumMode::Disabled,
        checksum: None,
        expected_checksum: None,
        error: None,
        priority: Priority::Normal,
        created_at_ms: 0,
        updated_at_ms: 0,
        chunks: vec![],
        mirror_url: None,
        mirror_urls: Vec::new(),
        current_mirror_index: 0,
    }
}

fn settings_traditional() -> AppSettings {
    AppSettings {
        scheduler: SchedulerSettings {
            mode: SchedulerMode::Traditional,
            traditional: TraditionalSchedulerSettings { max_parallel_tasks: 3 },
            ..SchedulerSettings::default()
        },
        ..AppSettings::default()
    }
}

fn settings_automatic() -> AppSettings {
    AppSettings {
        scheduler: SchedulerSettings { mode: SchedulerMode::Automatic, ..SchedulerSettings::default() },
        ..AppSettings::default()
    }
}

#[test]
fn cap_no_ranges_returns_one() {
    let mut m = manifest("https://example.com/file.bin");
    m.supports_ranges = false;
    assert_eq!(effective_allocation_cap(&m, &settings_traditional()), 1);
    assert_eq!(effective_allocation_cap(&m, &settings_automatic()), 1);
}

#[test]
fn cap_traditional_uses_requested_threads() {
    let mut m = manifest("https://example.com/file.bin");
    m.requested_thread_count = Some(12);
    assert_eq!(effective_allocation_cap(&m, &settings_traditional()), 12);
}

#[test]
fn cap_traditional_falls_back_to_desired() {
    let mut m = manifest("https://example.com/file.bin");
    m.requested_thread_count = None;
    m.desired_thread_count = Some(6);
    assert_eq!(effective_allocation_cap(&m, &settings_traditional()), 6);
}

#[test]
fn cap_traditional_default_when_none_set() {
    let m = manifest("https://example.com/file.bin");
    assert_eq!(effective_allocation_cap(&m, &settings_traditional()), DEFAULT_FIXED_THREADS);
}

#[test]
fn cap_traditional_clamps_to_max() {
    let mut m = manifest("https://example.com/file.bin");
    m.requested_thread_count = Some(99);
    assert_eq!(effective_allocation_cap(&m, &settings_traditional()), MAX_TRADITIONAL_THREADS);
}

#[test]
fn cap_traditional_clamps_to_min() {
    let mut m = manifest("https://example.com/file.bin");
    m.requested_thread_count = Some(0);
    assert_eq!(effective_allocation_cap(&m, &settings_traditional()), 1);
}

#[test]
fn cap_automatic_fixed_uses_requested() {
    let mut m = manifest("https://example.com/file.bin");
    m.thread_mode = ThreadMode::Fixed;
    m.requested_thread_count = Some(5);
    assert_eq!(effective_allocation_cap(&m, &settings_automatic()), 5);
}

#[test]
fn cap_automatic_fixed_defaults_to_one() {
    let mut m = manifest("https://example.com/file.bin");
    m.thread_mode = ThreadMode::Fixed;
    m.requested_thread_count = None;
    assert_eq!(effective_allocation_cap(&m, &settings_automatic()), 1);
}

#[test]
fn cap_automatic_adaptive_uses_desired() {
    let mut m = manifest("https://example.com/file.bin");
    m.thread_mode = ThreadMode::Adaptive;
    m.desired_thread_count = Some(4);
    assert_eq!(effective_allocation_cap(&m, &settings_automatic()), 4);
}

#[test]
fn cap_automatic_adaptive_defaults_to_one() {
    let mut m = manifest("https://example.com/file.bin");
    m.thread_mode = ThreadMode::Adaptive;
    m.desired_thread_count = None;
    assert_eq!(effective_allocation_cap(&m, &settings_automatic()), 1);
}

#[test]
fn cap_automatic_clamps_to_effective_task_cap() {
    let mut m = manifest("https://example.com/file.bin");
    m.thread_mode = ThreadMode::Adaptive;
    m.desired_thread_count = Some(99);
    let s = AppSettings {
        scheduler: SchedulerSettings {
            mode: SchedulerMode::Automatic,
            automatic: AutomaticSchedulerSettings { max_threads_per_task: 3, ..AutomaticSchedulerSettings::default() },
            ..SchedulerSettings::default()
        },
        ..AppSettings::default()
    };
    assert_eq!(effective_allocation_cap(&m, &s), 3);
}

#[test]
fn hostname_valid_url_returns_host() {
    let m = manifest("https://cdn.example.com/path/file.zip");
    assert_eq!(hostname_from_manifest(&m), Some("cdn.example.com".to_string()));
}

#[test]
fn hostname_domain_with_port() {
    let m = manifest("http://localhost:8080/download/file.iso");
    assert_eq!(hostname_from_manifest(&m), Some("localhost".to_string()));
}

#[test]
fn hostname_no_host_returns_none() {
    let m = manifest("file:///C:/path/to/file.txt");
    assert_eq!(hostname_from_manifest(&m), None);
}

#[test]
fn hostname_invalid_url_does_not_panic() {
    let m = manifest("\0invalid url\t\n");
    assert!(hostname_from_manifest(&m).is_none());
}

#[test]
fn hostname_empty_string_does_not_panic() {
    let m = manifest("");
    assert!(hostname_from_manifest(&m).is_none());
}

#[test]
fn remaining_normal_case() {
    let mut m = manifest("https://example.com/file.bin");
    m.total_bytes = Some(1000);
    m.downloaded_bytes = 300;
    assert_eq!(remaining_bytes(&m), 700);
}

#[test]
fn remaining_no_total_bytes_returns_zero() {
    let mut m = manifest("https://example.com/file.bin");
    m.total_bytes = None;
    m.downloaded_bytes = 500;
    assert_eq!(remaining_bytes(&m), 0);
}

#[test]
fn remaining_total_less_than_downloaded_returns_zero() {
    let mut m = manifest("https://example.com/file.bin");
    m.total_bytes = Some(100);
    m.downloaded_bytes = 500;
    assert_eq!(remaining_bytes(&m), 0);
}

#[test]
fn remaining_equal_values_returns_zero() {
    let mut m = manifest("https://example.com/file.bin");
    m.total_bytes = Some(500);
    m.downloaded_bytes = 500;
    assert_eq!(remaining_bytes(&m), 0);
}

#[test]
fn remaining_zero_total_and_downloaded() {
    let mut m = manifest("https://example.com/file.bin");
    m.total_bytes = Some(0);
    m.downloaded_bytes = 0;
    assert_eq!(remaining_bytes(&m), 0);
}

fn automatic_with_task_cap(max_threads_per_task: usize) -> AppSettings {
    AppSettings {
        scheduler: SchedulerSettings {
            mode: SchedulerMode::Automatic,
            automatic: AutomaticSchedulerSettings { max_threads_per_task, ..AutomaticSchedulerSettings::default() },
            ..SchedulerSettings::default()
        },
        ..AppSettings::default()
    }
}

#[test]
fn task_cap_normal() {
    assert_eq!(effective_automatic_task_cap(&automatic_with_task_cap(8)), 8);
}

#[test]
fn task_cap_zero_clamps_to_one() {
    assert_eq!(effective_automatic_task_cap(&automatic_with_task_cap(0)), 1);
}

#[test]
fn task_cap_default_is_at_least_one() {
    let s = settings_automatic();
    assert_eq!(effective_automatic_task_cap(&s), 8);
}

// ── Rebalancing ──────────────────────────────────────────────────────

fn at(url: &str, created: u64, state: DownloadState) -> Manifest {
    let mut m = manifest(url);
    m.created_at_ms = created;
    m.state = state;
    m
}

#[test]
fn traditional_rebalance_runs_oldest_tasks_up_to_limit() {
    let settings = AppSettings {
        scheduler: SchedulerSettings {
            mode: SchedulerMode::Traditional,
            traditional: TraditionalSchedulerSettings { max_parallel_tasks: 2 },
            ..SchedulerSettings::default()
        },
        ..AppSettings::default()
    };
    let mut ms = vec![
        at("https://a.example/1", 30, DownloadState::Queued),
        at("https://b.example/2", 10, DownloadState::Queued),
        at("https://c.example/3", 20, DownloadState::Paused),
        at("https://d.example/4", 15, DownloadState::Retrying),
    ];
    for m in ms.iter_mut() {
        m.requested_thread_count = Some(4);
    }
    Scheduler.rebalance_allocations(&mut ms, &settings, 99);
    // Creation order: b (10), d (15), c (20, paused), a (30).
    assert_eq!(ms[1].allocated_thread_count, Some(4));
    assert_eq!(ms[1].state, DownloadState::Downloading);
    assert_eq!(ms[3].allocated_thread_count, Some(4));
    assert_eq!(ms[3].state, DownloadState::Downloading);
    assert_eq!(ms[2].allocated_thread_count, Some(0));
    assert_eq!(ms[2].state, DownloadState::Paused);
    assert_eq!(ms[2].updated_at_ms, 0);
    assert_eq!(ms[0].allocated_thread_count, Some(0));
    assert_eq!(ms[0].state, DownloadState::Queued);
    assert_eq!(ms[0].updated_at_ms, 99);
}

#[test]
fn traditional_rebalance_caps_connections_per_host() {
    let mut ms = vec![
        at("https://same.example/1", 1, DownloadState::Queued),
        at("https://same.example/2", 2, DownloadState::Queued),
        at("https://same.example/3", 3, DownloadState::Queued),
    ];
    for m in ms.iter_mut() {
        m.requested_thread_count = Some(4);
    }
    Scheduler.rebalance_allocations(&mut ms, &settings_traditional(), 5);
    assert_eq!(ms[0].connection_count, 4);
    assert_eq!(ms[1].connection_count, 2);
    assert_eq!(ms[2].connection_count, 0);
    assert_eq!(ms[2].state, DownloadState::Queued);
}

#[test]
fn automatic_rebalance_prefers_largest_remaining_and_keeps_retrying() {
    let settings = AppSettings {
        scheduler: SchedulerSettings {
            mode: SchedulerMode::Automatic,
            automatic: AutomaticSchedulerSettings {
                max_parallel_threads: 5,
                max_threads_per_task: 8,
                min_threads_per_task: 2,
                ..AutomaticSchedulerSettings::default()
            },
            ..SchedulerSettings::default()
        },
        ..AppSettings::default()
    };
    let mut small = at("https://a.example/s", 0, DownloadState::Queued);
    small.total_bytes = Some(100);
    small.desired_thread_count = Some(8);
    let mut big = at("https://b.example/b", 0, DownloadState::Retrying);
    big.total_bytes = Some(1000);
    big.desired_thread_count = Some(8);
    let mut paused = at("https://c.example/p", 0, DownloadState::Paused);
    paused.total_bytes = Some(5000);
    let mut ms = vec![small, big, paused];
    Scheduler.rebalance_allocations(&mut ms, &settings, 7);
    // Minimum share: big 2, small 2; the last thread goes round-robin to big.
    assert_eq!(ms[1].allocated_thread_count, Some(3));
    assert_eq!(ms[1].state, DownloadState::Retrying);
    assert_eq!(ms[0].allocated_thread_count, Some(2));
    assert_eq!(ms[0].state, DownloadState::Downloading);
    assert_eq!(ms[2].allocated_thread_count, Some(0));
    assert_eq!(ms[2].state, DownloadState::Paused);
    assert_eq!(ms[2].updated_at_ms, 7);
}
