use limedl_core::http_executor::{
    all_chunks_completed, checksum_mismatch_message, claim_held, claim_lost, claim_next_chunk, complete_chunk_claim,
    content_length_overrun_message, current_allocation, download_complete_gid, exceeds_content_length,
    exceeds_fat32_limit, finalize_checksum_plan, hex_digits, mark_chunk_released, open_range,
    release_all_chunk_claims, release_stalled_chunks, resume_offset, segment_exceeds_range, segment_range,
    should_charge_rate_limiter, single_stream_finished, split_tail_chunk, ssd_buffer_half_size, tail_sprint_state,
    target_workers, ChecksumPlan, TAIL_SPRINT_MIN_SPLIT_SIZE,
};
use limedl_core::error::DownloadError;
use limedl_core::http_executor::{on_stream_piece, pending_charge, PieceAction, StreamBound, StreamCursor};
use limedl_core::manifest::{ChunkManifest, Manifest};
use limedl_core::types::{ChecksumMode, DownloadState, Priority, ThreadMode};

fn chunk(index: usize, start: u64, end: u64) -> ChunkManifest {
    ChunkManifest { index, start, end, downloaded: 0, completed: false, claimed_by: None, dirty: false }
}

fn manifest(chunks: Vec<ChunkManifest>) -> Manifest {
    Manifest {
        id: "d".to_string(),
        url: "https://e/a".to_string(),
        final_url: "https://e/a".to_string(),
        user_agent: String::new(),
        destination_dir: String::new(),
        file_name: "a".to_string(),
        file_name_locked: false,
        destination_path: String::new(),
        temp_path: String::new(),
        total_bytes: Some(100),
        downloaded_bytes: 0,
        supports_ranges: true,
        chunk_size: 25,
        connection_count: 3,
        thread_mode: ThreadMode::Fixed,
        requested_thread_count: Some(4),
        desired_thread_count: Some(4),
        allocated_thread_count: Some(2),
        adaptive_profile_snapshot: None,
        thread_note: None,
        etag: None,
        last_modified: None,
        state: DownloadState::Downloading,
        cdn_accelerated: false,
        checksum_mode: ChecksumMode::Blake3,
        checksum: None,
        expected_checksum: None,
        error: None,
        priority: Priority::Normal,
        created_at_ms: 0,
        updated_at_ms: 0,
        mirror_url: None,
        mirror_urls: Vec::new(),
        current_mirror_index: 0,
        chunks,
    }
}

fn four_chunks() -> Vec<ChunkManifest> {
    vec![chunk(0, 0, 24), chunk(1, 25, 49), chunk(2, 50, 74), chunk(3, 75, 99)]
}

#[test]
fn workers_claim_their_stripe_first() {
    let mut m = manifest(four_chunks());
    let c = claim_next_chunk(&mut m, 1, 2).unwrap();
    assert_eq!(c.index, 1);
    assert_eq!(m.chunks[1].claimed_by, Some(1));
    assert!(m.chunks[1].dirty);
    let c = claim_next_chunk(&mut m, 3, 2).unwrap();
    assert_eq!(c.index, 3);
    // stripe exhausted: fall back to any free chunk
    let c = claim_next_chunk(&mut m, 5, 2).unwrap();
    assert_eq!(c.index, 0);
}

#[test]
fn no_claim_when_all_taken() {
    let mut m = manifest(vec![chunk(0, 0, 9)]);
    m.chunks[0].completed = true;
    assert_eq!(claim_next_chunk(&mut m, 0, 1), None);
    assert!(all_chunks_completed(&m));
}

#[test]
fn release_only_own_claim() {
    let mut m = manifest(four_chunks());
    claim_next_chunk(&mut m, 0, 1);
    mark_chunk_released(&mut m, 0, 9);
    assert_eq!(m.chunks[0].claimed_by, Some(0));
    assert!(claim_held(&m, 0, 0));
    assert!(claim_lost(&m, 0, 9));
    mark_chunk_released(&mut m, 0, 0);
    assert_eq!(m.chunks[0].claimed_by, None);
    assert!(!claim_held(&m, 0, 0));
    mark_chunk_released(&mut m, 42, 0);
}

#[test]
fn release_all_and_stalled() {
    let mut m = manifest(four_chunks());
    for w in 0..4 {
        claim_next_chunk(&mut m, w, 4);
    }
    release_stalled_chunks(&mut m, &vec![1, 3, 99]);
    assert_eq!(m.chunks[1].claimed_by, None);
    assert_eq!(m.chunks[3].claimed_by, None);
    assert_eq!(m.chunks[0].claimed_by, Some(0));
    release_all_chunk_claims(&mut m, 8);
    assert!(m.chunks.iter().all(|c| c.claimed_by.is_none()));
    assert_eq!(m.connection_count, 0);
    assert_eq!(m.updated_at_ms, 8);
}

#[test]
fn completing_a_held_chunk() {
    let mut m = manifest(four_chunks());
    claim_next_chunk(&mut m, 2, 4);
    complete_chunk_claim(&mut m, 2, 2, 5);
    assert!(m.chunks[2].completed);
    assert_eq!(m.chunks[2].downloaded, 25);
    assert_eq!(m.chunks[2].claimed_by, None);
    complete_chunk_claim(&mut m, 1, 7, 6);
    assert!(!m.chunks[1].completed);
}

#[test]
fn worker_targets() {
    assert_eq!(target_workers(8, 10), 5);
    assert_eq!(target_workers(3, 10), 3);
    assert_eq!(target_workers(8, 1), 1);
    assert_eq!(target_workers(8, 0), 8);
    let m = manifest(vec![]);
    assert_eq!(current_allocation(&m), 2);
}

#[test]
fn tail_state() {
    let mut cs = four_chunks();
    cs[0].completed = true;
    cs[1].completed = true;
    cs[2].claimed_by = Some(1);
    assert_eq!(tail_sprint_state(&cs), (2, false, None));
    cs[3].claimed_by = Some(2);
    assert_eq!(tail_sprint_state(&cs), (2, true, None));
    cs[2].completed = true;
    cs[3].claimed_by = None;
    assert_eq!(tail_sprint_state(&cs), (1, false, Some(3)));
}

#[test]
fn split_large_unclaimed_tail() {
    let size = 4 * TAIL_SPRINT_MIN_SPLIT_SIZE;
    let mut m = manifest(vec![ChunkManifest {
        index: 0, start: 0, end: size - 1, downloaded: 1000, completed: false, claimed_by: None, dirty: false,
    }]);
    split_tail_chunk(&mut m, 0);
    assert_eq!(m.chunks.len(), 2);
    let mid = 1000 + (size - 1000) / 2;
    assert_eq!(m.chunks[0].end, mid - 1);
    assert_eq!(m.chunks[1].start, mid);
    assert_eq!(m.chunks[1].end, size - 1);
    assert_eq!(m.chunks[1].index, 1);
    // a small tail is not split
    let mut small = manifest(vec![chunk(0, 0, 99)]);
    split_tail_chunk(&mut small, 0);
    assert_eq!(small.chunks.len(), 1);
}

#[test]
fn ssd_buffer_sizes() {
    assert_eq!(ssd_buffer_half_size(0, 4 * 1024 * 1024), 2 * 1024 * 1024);
    assert_eq!(ssd_buffer_half_size(0, 1024), 65536);
    assert_eq!(ssd_buffer_half_size(64, 0), 8 * 1024 * 1024);
    assert_eq!(ssd_buffer_half_size(4, 0), 2 * 1024 * 1024);
}

#[test]
fn stream_accounting() {
    assert!(should_charge_rate_limiter(262144, 0));
    assert!(should_charge_rate_limiter(0, 8));
    assert!(!should_charge_rate_limiter(262143, 7));
    assert!(exceeds_content_length(90, 11, Some(100)));
    assert!(!exceeds_content_length(90, 10, Some(100)));
    assert!(!exceeds_content_length(90, 11, None));
    assert_eq!(
        content_length_overrun_message(101, 100),
        "server sent more data than Content-Length (101 bytes received, expected 100)"
    );
    assert!(segment_exceeds_range(10, 6, 14));
    assert!(!segment_exceeds_range(10, 5, 14));
    assert_eq!(resume_offset(true, 500), 500);
    assert_eq!(resume_offset(false, 500), 0);
    assert_eq!(segment_range(0, 99), "bytes=0-99");
    assert_eq!(open_range(42), "bytes=42-");
    assert!(exceeds_fat32_limit(Some(4294967296)));
    assert!(!exceeds_fat32_limit(Some(4294967295)));
    let mut m = manifest(vec![]);
    m.downloaded_bytes = 100;
    assert!(single_stream_finished(&m));
    m.downloaded_bytes = 99;
    assert!(!single_stream_finished(&m));
}

#[test]
fn checksum_plans() {
    assert_eq!(finalize_checksum_plan(ChecksumMode::Disabled, Some("x".into())), ChecksumPlan::Skip);
    assert_eq!(finalize_checksum_plan(ChecksumMode::Blake3, Some("x".into())), ChecksumPlan::Use("x".into()));
    assert_eq!(finalize_checksum_plan(ChecksumMode::Sha256, None), ChecksumPlan::Compute(ChecksumMode::Sha256));
    assert_eq!(checksum_mismatch_message(&Some("ABC".into()), &Some("abc".into())), None);
    assert_eq!(
        checksum_mismatch_message(&Some("abc".into()), &Some("abd".into())),
        Some("Checksum mismatch: expected abc, got abd".to_string())
    );
    assert_eq!(checksum_mismatch_message(&None, &Some("abd".into())), None);
}

#[test]
fn aria2_gid_is_xxh3_hex() {
    assert_eq!(hex_digits(0xab, 4), "00ab");
    let gid = download_complete_gid("download-1");
    assert_eq!(gid, format!("{:016x}", xxhash_rust::xxh3::xxh3_64(b"download-1")));
    assert_eq!(gid.len(), 16);
}

#[test]
fn stream_pieces_are_placed_and_charged_in_batches() {
    let mut c = StreamCursor { offset: 100, pending_bytes: 0, pending_pieces: 0 };
    let a = on_stream_piece(&mut c, 1000, StreamBound::FileSize(Some(10_000)));
    assert_eq!(a, PieceAction::Write { charge: None, write_at: 100 });
    assert_eq!(c, StreamCursor { offset: 1100, pending_bytes: 1000, pending_pieces: 1 });
    for _ in 0..6 {
        on_stream_piece(&mut c, 10, StreamBound::FileSize(None));
    }
    assert_eq!(c.pending_pieces, 7);
    let a = on_stream_piece(&mut c, 10, StreamBound::FileSize(None));
    assert_eq!(a, PieceAction::Write { charge: Some(1070), write_at: 1160 });
    assert_eq!((c.pending_bytes, c.pending_pieces, c.offset), (0, 0, 1170));
    let a = on_stream_piece(&mut c, 300_000, StreamBound::FileSize(None));
    assert_eq!(a, PieceAction::Write { charge: Some(300_000), write_at: 1170 });
    assert_eq!(pending_charge(&c), None);
    on_stream_piece(&mut c, 5, StreamBound::FileSize(None));
    assert_eq!(pending_charge(&c), Some(5));
}

#[test]
fn stream_overruns_are_refused() {
    let mut c = StreamCursor { offset: 95, pending_bytes: 0, pending_pieces: 0 };
    let a = on_stream_piece(&mut c, 10, StreamBound::FileSize(Some(100)));
    assert_eq!(
        a,
        PieceAction::Fail {
            charge: None,
            error: DownloadError::InvalidResponse(
                "server sent more data than Content-Length (105 bytes received, expected 100)".to_string()
            ),
        }
    );
    assert_eq!(c.offset, 95);
    let mut s = StreamCursor { offset: 10, pending_bytes: 0, pending_pieces: 0 };
    assert_eq!(on_stream_piece(&mut s, 5, StreamBound::RangeEnd(14)), PieceAction::Write { charge: None, write_at: 10 });
    assert_eq!(
        on_stream_piece(&mut s, 1, StreamBound::RangeEnd(14)),
        PieceAction::Fail {
            charge: None,
            error: DownloadError::InvalidResponse("segment body exceeded requested range".to_string()),
        }
    );
}
