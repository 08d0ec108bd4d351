use limedl_core::error::DownloadError;
use limedl_core::manager::{
    admit_download, destination_verdict,
    cancel_transition, cancellation_chunk_outcome, cancellation_outcome, check_download_url, choose_file_name,
    client_settings_changed, escapes_root, find_active_by_url, initial_file_name_from_url, millis_of,
    new_download_manifest, numbered_file_name, pause_transition, record_progress_on_managed, resolve_thread_settings,
    resume_check, resume_transition, supports_parallelism, thread_note, validate_destination_dir, ChunkWorkerOutcome,
    ConcurrencyLimits,
    DownloadCore, PathPart, RunOutcome,
};
use limedl_core::manifest::{snapshot_from_manifest, ChunkManifest, Manifest};
use limedl_core::types::{
    AdaptiveProfile, AppSettings, ChecksumMode, DownloadState, Priority, ProxyMode, SchedulerMode,
    StartDownloadRequest, ThreadMode,
};

fn request(url: &str) -> StartDownloadRequest {
    StartDownloadRequest {
        kind: None,
        url: url.to_string(),
        destination_dir: "/downloads".to_string(),
        file_name: None,
        user_agent: None,
        thread_mode: None,
        thread_count: None,
        max_retries: None,
        checksum: None,
        expected_checksum: None,
        selected_file_indices: None,
        start_paused: false,
        mirror_urls: None,
        priority: None,
    }
}

fn manifest(url: &str, state: DownloadState) -> Manifest {
    let mut m = new_download_manifest(
        "id-1".to_string(),
        &request(url),
        "ua".to_string(),
        "/downloads".to_string(),
        "a.bin".to_string(),
        "/downloads/a.bin".to_string(),
        "/state/id-1.part".to_string(),
        (ThreadMode::Fixed, Some(4), Some(4), None),
        1_000,
    )
    .unwrap();
    m.state = state;
    m
}

fn download_core(state: DownloadState) -> DownloadCore {
    let m = manifest("https://example.com/a.bin", state);
    let mut snapshot = snapshot_from_manifest(&m);
    snapshot.state = state;
    DownloadCore { snapshot, manifest: m }
}

#[test]
fn slots_are_limited_and_given_back() {
    let mut c = ConcurrencyLimits::new(2, 1);
    assert!(c.try_acquire_http().is_ok());
    assert!(c.try_acquire_http().is_ok());
    assert!(matches!(c.try_acquire_http(), Err(DownloadError::TooManyConcurrentDownloads)));
    assert_eq!(c.active_http_count, 2);
    c.release_http();
    assert_eq!(c.active_http_count, 1);
    assert!(c.try_acquire_bt().is_ok());
    assert!(matches!(c.try_acquire_bt(), Err(DownloadError::TooManyConcurrentDownloads)));
    c.release_bt();
    c.release_bt();
    assert_eq!(c.active_bt_count, 0);
}

#[test]
fn acquire_then_release_restores_limits() {
    let before = ConcurrencyLimits::initial();
    let mut c = before.clone();
    c.try_acquire_http().unwrap();
    c.release_http();
    assert_eq!(c, before);
    assert_eq!((before.max_concurrent_http, before.max_concurrent_bt), (5, 3));
}

#[test]
fn overclock_toggle() {
    let mut c = ConcurrencyLimits::initial();
    assert!(c.toggle_overclock_mode(None));
    assert!(!c.toggle_overclock_mode(None));
    assert!(c.toggle_overclock_mode(Some(true)));
    assert!(c.toggle_overclock_mode(Some(true)));
    c.update_limits(7, 9);
    assert_eq!((c.max_concurrent_http, c.max_concurrent_bt, c.overclock_mode), (7, 9, true));
}

#[test]
fn pause_only_active_downloads() {
    let mut c = download_core(DownloadState::Downloading);
    assert!(pause_transition(&mut c, 55));
    assert_eq!(c.snapshot.state, DownloadState::Paused);
    assert_eq!(c.manifest.state, DownloadState::Paused);
    assert_eq!(c.manifest.allocated_thread_count, Some(0));
    assert_eq!(c.manifest.updated_at_ms, 55);
    assert!(!pause_transition(&mut c, 56));
    assert_eq!(c.manifest.updated_at_ms, 55);
    assert!(resume_check(c.snapshot.state).is_ok());
}

#[test]
fn cancel_everything_but_completed() {
    let mut c = download_core(DownloadState::Paused);
    assert!(cancel_transition(&mut c, 9));
    assert_eq!(c.snapshot.state, DownloadState::Canceled);
    assert_eq!(resume_check(c.snapshot.state), Err(DownloadError::Canceled));
    let mut done = download_core(DownloadState::Completed);
    assert!(!cancel_transition(&mut done, 9));
    assert_eq!(done.snapshot.state, DownloadState::Completed);
}

#[test]
fn resume_check_errors() {
    assert_eq!(resume_check(DownloadState::Downloading), Err(DownloadError::AlreadyRunning));
    assert_eq!(resume_check(DownloadState::Verifying), Err(DownloadError::AlreadyRunning));
    assert_eq!(resume_check(DownloadState::Completed), Err(DownloadError::NotResumable));
    assert_eq!(resume_check(DownloadState::Failed), Ok(()));
}

#[test]
fn resume_keeps_current_mirror_position() {
    let mut c = download_core(DownloadState::Failed);
    c.manifest.mirror_url = Some("https://m2/a".to_string());
    c.manifest.error = Some("boom".to_string());
    resume_transition(
        &mut c,
        vec!["https://m1/a".to_string(), "https://m2/a".to_string(), "https://m3/a".to_string()],
        77,
    );
    assert_eq!(c.manifest.current_mirror_index, 1);
    assert_eq!(c.manifest.final_url, "https://m2/a");
    assert_eq!(c.manifest.state, DownloadState::Queued);
    assert_eq!(c.manifest.error, None);
    assert_eq!(c.snapshot.state, DownloadState::Queued);
}

#[test]
fn resume_with_unknown_mirror_starts_at_first() {
    let mut c = download_core(DownloadState::Paused);
    c.manifest.mirror_url = Some("https://gone/a".to_string());
    resume_transition(&mut c, vec!["https://m1/a".to_string(), "https://m2/a".to_string()], 1);
    assert_eq!(c.manifest.current_mirror_index, 0);
    assert_eq!(c.manifest.mirror_url, Some("https://m1/a".to_string()));
}

#[test]
fn progress_marks_chunk_completed_when_full() {
    let mut c = download_core(DownloadState::Downloading);
    c.manifest.chunks = vec![
        ChunkManifest { index: 0, start: 0, end: 9, downloaded: 0, completed: false, claimed_by: Some(1), dirty: false },
        ChunkManifest { index: 1, start: 10, end: 19, downloaded: 0, completed: false, claimed_by: Some(2), dirty: false },
    ];
    record_progress_on_managed(&mut c, Some(1), 4, 10);
    assert_eq!(c.manifest.downloaded_bytes, 4);
    assert_eq!(c.snapshot.downloaded_bytes, 4);
    assert!(c.manifest.chunks[1].dirty && !c.manifest.chunks[1].completed);
    record_progress_on_managed(&mut c, Some(1), 6, 11);
    assert!(c.manifest.chunks[1].completed);
    assert_eq!(c.manifest.chunks[1].claimed_by, None);
    assert_eq!(c.manifest.chunks[0].downloaded, 0);
    record_progress_on_managed(&mut c, None, 5, 12);
    assert_eq!(c.manifest.downloaded_bytes, 15);
}

#[test]
fn run_outcomes_after_cancellation() {
    assert_eq!(cancellation_outcome(DownloadState::Canceled), RunOutcome::Canceled);
    assert_eq!(cancellation_outcome(DownloadState::Paused), RunOutcome::Paused);
    assert_eq!(cancellation_chunk_outcome(DownloadState::Canceled), ChunkWorkerOutcome::Canceled);
    assert_eq!(cancellation_chunk_outcome(DownloadState::Downloading), ChunkWorkerOutcome::Paused);
}

#[test]
fn parallelism_needs_ranges_and_two_chunks() {
    assert!(supports_parallelism(Some(8), true, 4));
    assert!(!supports_parallelism(Some(7), true, 4));
    assert!(!supports_parallelism(Some(8), false, 4));
    assert!(!supports_parallelism(None, true, 4));
}

#[test]
fn thread_settings_per_mode() {
    let mut s = AppSettings::default();
    s.scheduler.mode = SchedulerMode::Traditional;
    let mut r = request("https://e/a");
    r.thread_count = Some(100);
    assert_eq!(resolve_thread_settings(&s, &r, true, 4), (ThreadMode::Fixed, Some(32), Some(32), None));
    assert_eq!(resolve_thread_settings(&s, &r, false, 4), (ThreadMode::Fixed, Some(1), Some(1), None));
    s.scheduler.mode = SchedulerMode::Automatic;
    s.scheduler.automatic.max_threads_per_task = 6;
    s.scheduler.automatic.adaptive_profile = AdaptiveProfile::Aggressive;
    assert_eq!(
        resolve_thread_settings(&s, &r, true, 8),
        (ThreadMode::Adaptive, None, Some(6), Some(AdaptiveProfile::Aggressive))
    );
    r.thread_mode = Some(ThreadMode::Fixed);
    r.thread_count = Some(0);
    assert_eq!(resolve_thread_settings(&s, &r, true, 8), (ThreadMode::Fixed, Some(1), Some(1), None));
}

#[test]
fn thread_notes() {
    assert_eq!(thread_note(false, ThreadMode::Adaptive, None), Some("单线程（服务器不支持分段）".to_string()));
    assert_eq!(thread_note(true, ThreadMode::Fixed, None), Some("固定线程".to_string()));
    assert_eq!(
        thread_note(true, ThreadMode::Adaptive, Some(AdaptiveProfile::Balanced)),
        Some("自适应 / 平衡".to_string())
    );
    assert_eq!(thread_note(true, ThreadMode::Adaptive, None), None);
}

#[test]
fn active_download_lookup_by_url() {
    let ms = vec![
        manifest("https://e/a", DownloadState::Completed),
        manifest("https://e/b", DownloadState::Paused),
        manifest("https://e/a", DownloadState::Queued),
    ];
    assert_eq!(find_active_by_url(&ms, "https://e/a"), Some(2));
    assert_eq!(find_active_by_url(&ms, "https://e/b"), Some(1));
    assert_eq!(find_active_by_url(&ms, "https://e/c"), None);
}

#[test]
fn client_rebuild_on_proxy_or_agent_change() {
    let a = AppSettings::default();
    let mut b = a.clone();
    assert!(!client_settings_changed(&a, &b));
    b.proxy.mode = ProxyMode::Manual;
    assert!(client_settings_changed(&a, &b));
    let mut c = a.clone();
    c.download.default_user_agent = "x".to_string();
    assert!(client_settings_changed(&a, &c));
}

#[test]
fn url_schemes() {
    assert!(check_download_url("https://example.com/a").is_ok());
    assert!(check_download_url("http://example.com/a").is_ok());
    assert_eq!(check_download_url("ftp://example.com/a"), Err(DownloadError::UnsupportedScheme));
    assert!(matches!(check_download_url("nope"), Err(DownloadError::InvalidResponse(_))));
}

#[test]
fn parent_components_escape() {
    assert!(escapes_root(&vec![PathPart::ParentDir, PathPart::Normal]));
    assert!(escapes_root(&vec![PathPart::RootDir, PathPart::Normal, PathPart::ParentDir, PathPart::ParentDir]));
    assert!(!escapes_root(&vec![PathPart::RootDir, PathPart::Normal, PathPart::ParentDir]));
    assert!(!escapes_root(&vec![PathPart::Normal, PathPart::CurDir]));
}

#[test]
fn file_names_from_url_and_request() {
    assert_eq!(initial_file_name_from_url("https://e.com/dir/file.zip"), "file.zip");
    assert_eq!(initial_file_name_from_url("https://e.com/"), "download");
    assert_eq!(initial_file_name_from_url("::bad"), "download");
    let mut r = request("https://e.com/dir/file.zip");
    assert_eq!(choose_file_name(&r), Ok("file.zip".to_string()));
    r.file_name = Some("my:name?.txt".to_string());
    assert_eq!(choose_file_name(&r), Ok("myname.txt".to_string()));
    r.file_name = Some("???".to_string());
    assert_eq!(choose_file_name(&r), Err(DownloadError::MissingFileName));
}

#[test]
fn numbered_alternative_names() {
    assert_eq!(numbered_file_name("report", ".pdf", 3), "report (3).pdf");
    assert_eq!(numbered_file_name("README", "", 1), "README (1)");
}

#[test]
fn new_manifest_defaults_and_checksum_rule() {
    let m = manifest("https://e/a", DownloadState::Queued);
    assert_eq!(m.checksum_mode, ChecksumMode::Blake3);
    assert_eq!(m.priority, Priority::Normal);
    assert_eq!(m.allocated_thread_count, Some(0));
    assert_eq!(m.thread_note, Some("等待服务器响应".to_string()));
    let mut r = request("https://e/a");
    r.expected_checksum = Some("abc".to_string());
    r.checksum = Some(ChecksumMode::Disabled);
    let err = new_download_manifest(
        "x".to_string(), &r, String::new(), String::new(), String::new(), String::new(), String::new(),
        (ThreadMode::Fixed, None, None, None), 0,
    )
    .unwrap_err();
    assert_eq!(
        err,
        DownloadError::InvalidRequest("checksum_mode is required when expected_checksum is provided".to_string())
    );
    r.mirror_urls = Some(vec!["https://m1/a".to_string(), "https://m2/a".to_string()]);
    r.checksum = None;
    let m = new_download_manifest(
        "x".to_string(), &r, String::new(), String::new(), String::new(), String::new(), String::new(),
        (ThreadMode::Fixed, None, None, None), 0,
    )
    .unwrap();
    assert_eq!(m.final_url, "https://m1/a");
    assert_eq!(m.mirror_url, Some("https://m1/a".to_string()));
}

#[test]
fn epoch_millis() {
    assert_eq!(millis_of(1, 500_000_000), 1_500);
    assert_eq!(millis_of(0, 999_999), 0);
}

#[test]
fn destination_dir_rules() {
    assert_eq!(
        validate_destination_dir(""),
        Err(DownloadError::InvalidResponse("download destination directory is not set".to_string()))
    );
    assert_eq!(
        validate_destination_dir("relative/dir"),
        Err(DownloadError::InvalidResponse("download destination directory must be an absolute path".to_string()))
    );
    assert_eq!(
        validate_destination_dir("/a/../../b"),
        Err(DownloadError::InvalidResponse(
            "download destination directory must not escape its parent via '..'".to_string()
        ))
    );
    assert_eq!(validate_destination_dir("/a/b/../c"), Ok(()));
}

#[test]
fn clock_reads_after_2020() {
    assert!(limedl_core::manager::now_ms() > 1_577_836_800_000);
}

#[test]
fn destination_verdicts() {
    let parts = vec![PathPart::RootDir, PathPart::Normal, PathPart::ParentDir];
    assert_eq!(destination_verdict(true, &parts), Ok(()));
    let escaping = vec![PathPart::RootDir, PathPart::ParentDir];
    assert_eq!(
        destination_verdict(true, &escaping),
        Err(DownloadError::InvalidResponse(
            "download destination directory must not escape its parent via '..'".to_string()
        ))
    );
    assert_eq!(
        destination_verdict(false, &parts),
        Err(DownloadError::InvalidResponse("download destination directory must be an absolute path".to_string()))
    );
    assert_eq!(
        validate_destination_dir("downloads/x"),
        Err(DownloadError::InvalidResponse("download destination directory must be an absolute path".to_string()))
    );
}

#[test]
fn sanitized_names_keep_clean_names() {
    let mut r = request("https://e.com/dir/file.zip");
    r.file_name = Some("report.pdf".to_string());
    assert_eq!(choose_file_name(&r), Ok("report.pdf".to_string()));
    r.file_name = Some("a/b:c?.txt".to_string());
    assert_eq!(choose_file_name(&r), Ok("abc.txt".to_string()));
    r.file_name = Some("\u{1}/".to_string());
    assert_eq!(choose_file_name(&r), Err(DownloadError::MissingFileName));
}

#[test]
fn admission_checks_in_order_and_give_the_slot_back() {
    let mut limits = ConcurrencyLimits::new(1, 1);
    let r = request("ftp://e.com/a");
    assert_eq!(admit_download(&mut limits, &r, "ua"), Err(DownloadError::UnsupportedScheme));
    assert_eq!(limits.active_http_count, 0);
    let mut bad_dir = request("https://e.com/a");
    bad_dir.destination_dir = String::new();
    assert_eq!(
        admit_download(&mut limits, &bad_dir, "ua"),
        Err(DownloadError::InvalidResponse("download destination directory is not set".to_string()))
    );
    assert_eq!(limits.active_http_count, 0);
    let good = request("https://e.com/a");
    assert_eq!(admit_download(&mut limits, &good, "ua"), Ok("ua".to_string()));
    assert_eq!(limits.active_http_count, 1);
    assert_eq!(admit_download(&mut limits, &good, "ua"), Err(DownloadError::TooManyConcurrentDownloads));
    assert_eq!(limits.active_http_count, 1);
}
