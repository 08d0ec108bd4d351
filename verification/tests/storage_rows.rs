use limedl_core::database::{
    adaptive_profile_to_text, bool_to_i64, checksum_mode_to_text, chunk_to_params, download_state_to_text,
    drain_dirty_chunks, i64_to_bool, i64_to_u64, i64_to_usize, manifest_to_row, progress_batch_entry,
    recover_loaded_manifest, row_to_chunk, row_to_manifest, text_to_adaptive_profile, text_to_checksum_mode,
    text_to_state, text_to_thread_mode, thread_mode_to_text, u64_to_i64, usize_to_i64, ChunkRow, SqlValue,
};
use limedl_core::manifest::{ChunkManifest, Manifest};
use limedl_core::types::{AdaptiveProfile, ChecksumMode, DownloadState, Priority, ThreadMode};

fn manifest() -> Manifest {
    Manifest {
        id: "d1".to_string(),
        url: "https://e/a".to_string(),
        final_url: "https://m2/a".to_string(),
        user_agent: "ua".to_string(),
        destination_dir: "/dl".to_string(),
        file_name: "a.bin".to_string(),
        file_name_locked: true,
        destination_path: "/dl/a.bin".to_string(),
        temp_path: "/state/d1.part".to_string(),
        total_bytes: Some(1234),
        downloaded_bytes: 600,
        supports_ranges: true,
        chunk_size: 4194304,
        connection_count: 2,
        thread_mode: ThreadMode::Adaptive,
        requested_thread_count: None,
        desired_thread_count: Some(5),
        allocated_thread_count: Some(3),
        adaptive_profile_snapshot: Some(AdaptiveProfile::Aggressive),
        thread_note: Some("note".to_string()),
        etag: Some("\"e\"".to_string()),
        last_modified: None,
        state: DownloadState::Downloading,
        cdn_accelerated: true,
        checksum_mode: ChecksumMode::Xxh3128,
        checksum: None,
        expected_checksum: Some("ff".to_string()),
        error: None,
        priority: Priority::High,
        created_at_ms: 10,
        updated_at_ms: 20,
        mirror_url: Some("https://m2/a".to_string()),
        mirror_urls: vec!["https://m1/a".to_string(), "https://m2/a".to_string()],
        current_mirror_index: 1,
        chunks: vec![],
    }
}

fn chunk(index: usize, dirty: bool) -> ChunkManifest {
    ChunkManifest { index, start: index as u64 * 10, end: index as u64 * 10 + 9, downloaded: 3, completed: false, claimed_by: None, dirty }
}

#[test]
fn enum_names_round_trip() {
    for s in [
        DownloadState::Queued, DownloadState::Downloading, DownloadState::Paused, DownloadState::Retrying,
        DownloadState::Verifying, DownloadState::Completed, DownloadState::Failed, DownloadState::Canceled,
    ] {
        assert_eq!(text_to_state(download_state_to_text(&s)), Ok(s));
    }
    for t in [ThreadMode::Fixed, ThreadMode::Adaptive] {
        assert_eq!(text_to_thread_mode(thread_mode_to_text(t)), Ok(t));
    }
    for c in [ChecksumMode::Disabled, ChecksumMode::Blake3, ChecksumMode::Sha256, ChecksumMode::Xxh3128] {
        assert_eq!(text_to_checksum_mode(checksum_mode_to_text(c)), Ok(c));
    }
    for p in [AdaptiveProfile::Conservative, AdaptiveProfile::Balanced, AdaptiveProfile::Aggressive] {
        assert_eq!(text_to_adaptive_profile(adaptive_profile_to_text(p)), Ok(p));
    }
    assert_eq!(download_state_to_text(&DownloadState::Canceled), "canceled");
}

#[test]
fn unknown_enum_names_are_errors() {
    assert_eq!(text_to_state("bogus"), Err("unknown download state: bogus".to_string()));
    assert!(text_to_thread_mode("x").is_err());
    assert!(text_to_checksum_mode("md5").is_err());
    assert!(text_to_adaptive_profile("wild").is_err());
}

#[test]
fn integer_columns() {
    assert_eq!(bool_to_i64(true), 1);
    assert!(i64_to_bool(1) && !i64_to_bool(0));
    assert_eq!(i64_to_u64(u64_to_i64(u64::MAX)), u64::MAX);
    assert_eq!(i64_to_usize(usize_to_i64(7)), 7);
}

#[test]
fn manifest_row_round_trip() {
    let m = manifest();
    let row = manifest_to_row(&m);
    assert_eq!(row.state, "downloading");
    assert_eq!(row.thread_mode, "adaptive");
    assert_eq!(row.file_name_locked, 1);
    assert_eq!(row.mirror_urls.as_deref(), Some("[\"https://m1/a\",\"https://m2/a\"]"));
    let back = row_to_manifest(&row).unwrap();
    assert_eq!(back.id, m.id);
    assert_eq!(back.state, m.state);
    assert_eq!(back.thread_mode, m.thread_mode);
    assert_eq!(back.adaptive_profile_snapshot, m.adaptive_profile_snapshot);
    assert_eq!(back.checksum_mode, m.checksum_mode);
    assert_eq!(back.mirror_urls, m.mirror_urls);
    assert_eq!(back.current_mirror_index, 1);
    assert_eq!(back.priority, Priority::High);
    assert_eq!(back.total_bytes, Some(1234));
    assert!(back.cdn_accelerated && back.file_name_locked && back.supports_ranges);
}

#[test]
fn bad_state_text_fails_row() {
    let mut row = manifest_to_row(&manifest());
    row.state = "sleeping".to_string();
    assert!(row_to_manifest(&row).is_err());
}

#[test]
fn chunk_rows() {
    let c = ChunkManifest { index: 2, start: 20, end: 29, downloaded: 5, completed: true, claimed_by: Some(4), dirty: true };
    let params = chunk_to_params("d1", &c);
    assert_eq!(params.len(), 7);
    assert_eq!(params[0], SqlValue::Text("d1".to_string()));
    let back = row_to_chunk(&ChunkRow {
        chunk_index: 2, start_byte: 20, end_byte: 29, downloaded: 5, completed: 1, claimed_by: Some(4),
    });
    assert_eq!(back, ChunkManifest { dirty: false, ..c });
}

#[test]
fn dirty_chunks_are_drained_once() {
    let mut m = manifest();
    m.chunks = vec![chunk(0, true), chunk(1, false), chunk(2, true)];
    let dirty = drain_dirty_chunks(&mut m);
    assert_eq!(dirty.iter().map(|c| c.index).collect::<Vec<_>>(), vec![0, 2]);
    assert!(dirty.iter().all(|c| !c.dirty));
    assert!(m.chunks.iter().all(|c| !c.dirty));
    assert!(drain_dirty_chunks(&mut m).is_empty());
    m.chunks[1].dirty = true;
    let e = progress_batch_entry(&mut m);
    assert_eq!(e.id, "d1");
    assert_eq!(e.state, "downloading");
    assert_eq!(e.dirty_chunks.len(), 1);
    assert_eq!(e.downloaded_bytes, 600);
}

#[test]
fn recovery_at_startup() {
    let mut m = manifest();
    assert!(recover_loaded_manifest(&mut m, false, true, 99));
    assert_eq!(m.state, DownloadState::Downloading);
    assert_eq!(m.connection_count, 0);
    assert_eq!(m.allocated_thread_count, Some(0));
    let mut v = manifest();
    v.state = DownloadState::Verifying;
    assert!(!recover_loaded_manifest(&mut v, true, false, 99));
    assert_eq!(v.state, DownloadState::Completed);
    let mut q = manifest();
    q.state = DownloadState::Verifying;
    assert!(recover_loaded_manifest(&mut q, true, true, 99));
    assert_eq!(q.state, DownloadState::Paused);
    let mut f = manifest();
    f.state = DownloadState::Failed;
    assert!(!recover_loaded_manifest(&mut f, false, false, 99));
    assert_eq!(f.updated_at_ms, 20);
}
