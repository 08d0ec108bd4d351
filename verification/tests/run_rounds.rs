use limedl_core::digest::{chunk_piece_written, store_incremental_checksum, IncrementalChecksum};
use limedl_core::http::pick_file_name;
use limedl_core::http_executor::{
    after_worker, chunk_worker_start, segment_answer, SegmentAnswer, claim_for_new_workers, proposed_from_sanitized, single_response, single_start,
    SingleStart, WorkerStart, round_start, stall_check_applies, stalled_claims, tail_sprint_step,
    AfterWorker, RoundStart, TailSprintStep,
};
use limedl_core::manager::{millis_since_epoch, name_or_missing, ChunkWorkerOutcome, DownloadCore, RunOutcome};
use limedl_core::error::DownloadError;
use limedl_core::manifest::{snapshot_from_manifest, ChunkManifest, Manifest};
use limedl_core::types::{ChecksumMode, DownloadState, Priority, ThreadMode};

const EMPTY_BLAKE3: &str = "af1349b9f5f9a1a6a0404dea36dcc9499bcb25c9adc112b7cc9a93cae41f3262";
const ABC_BLAKE3: &str = "6437b3ac38465133ffb63b75273a8db548c558465d79db03fd359c6cd5bd9d85";

fn chunk(index: usize, start: u64, end: u64) -> ChunkManifest {
    ChunkManifest { index, start, end, downloaded: 0, completed: false, claimed_by: None, dirty: false }
}

fn manifest(chunks: Vec<ChunkManifest>) -> Manifest {
    Manifest {
        id: "d".to_string(),
        url: "https://e/a".to_string(),
        final_url: "https://e/a".to_string(),
        user_agent: String::new(),
        destination_dir: String::new(),
        file_name: "a".to_string(),
        file_name_locked: false,
        destination_path: String::new(),
        temp_path: String::new(),
        total_bytes: Some(100),
        downloaded_bytes: 0,
        supports_ranges: true,
        chunk_size: 25,
        connection_count: 3,
        thread_mode: ThreadMode::Fixed,
        requested_thread_count: Some(4),
        desired_thread_count: Some(4),
        allocated_thread_count: Some(2),
        adaptive_profile_snapshot: None,
        thread_note: None,
        etag: None,
        last_modified: None,
        state: DownloadState::Downloading,
        cdn_accelerated: false,
        checksum_mode: ChecksumMode::Blake3,
        checksum: Some("old".to_string()),
        expected_checksum: None,
        error: None,
        priority: Priority::Normal,
        created_at_ms: 0,
        updated_at_ms: 0,
        mirror_url: None,
        mirror_urls: Vec::new(),
        current_mirror_index: 0,
        chunks,
    }
}

fn download_core(chunks: Vec<ChunkManifest>) -> DownloadCore {
    let m = manifest(chunks);
    DownloadCore { snapshot: snapshot_from_manifest(&m), manifest: m }
}

#[test]
fn incremental_checksum_is_blake3_of_all_fed_bytes() {
    let mut c = IncrementalChecksum::new(ChecksumMode::Blake3);
    assert!(c.is_active());
    assert_eq!(c.finish().as_deref(), Some(EMPTY_BLAKE3));
    c.feed(b"a");
    c.feed(b"bc");
    assert_eq!(c.finish().as_deref(), Some(ABC_BLAKE3));
    let off = IncrementalChecksum::new(ChecksumMode::Sha256);
    assert!(!off.is_active());
    assert_eq!(off.finish(), None);
}

#[test]
fn written_pieces_are_hashed_accounted_and_stop_when_done() {
    let mut k = download_core(vec![chunk(0, 0, 2), chunk(1, 3, 5)]);
    k.manifest.chunks[0].claimed_by = Some(7);
    let mut c = IncrementalChecksum::new(ChecksumMode::Blake3);
    assert!(!chunk_piece_written(&mut k, &mut c, 0, 7, b"ab", 10));
    assert_eq!(k.manifest.chunks[0].downloaded, 2);
    assert_eq!(k.manifest.downloaded_bytes, 2);
    assert!(chunk_piece_written(&mut k, &mut c, 0, 7, b"c", 11));
    assert!(k.manifest.chunks[0].completed);
    assert_eq!(k.snapshot.downloaded_bytes, 3);
    store_incremental_checksum(&mut k, &c);
    assert_eq!(k.manifest.checksum.as_deref(), Some(ABC_BLAKE3));
    assert_eq!(k.snapshot.checksum.as_deref(), Some(ABC_BLAKE3));
}

#[test]
fn stalled_claims_are_older_than_the_window() {
    let claims = vec![(0usize, 1_000u64), (1, 5_000), (2, 20_000)];
    assert_eq!(stalled_claims(&claims, 13_001), vec![0, 1]);
    assert_eq!(stalled_claims(&claims, 9_001), vec![0]);
    assert_eq!(stalled_claims(&claims, 500), Vec::<usize>::new());
    assert!(stall_check_applies((2, true, None), true));
    assert!(!stall_check_applies((3, true, None), true));
    assert!(!stall_check_applies((1, false, Some(0)), true));
    assert!(!stall_check_applies((1, true, None), false));
}

#[test]
fn round_start_decisions() {
    let mut m = manifest(vec![chunk(0, 0, 24), chunk(1, 25, 49), chunk(2, 50, 74), chunk(3, 75, 99)]);
    assert_eq!(round_start(&m, 0), RoundStart::Run(2));
    m.allocated_thread_count = Some(0);
    assert_eq!(round_start(&m, 0), RoundStart::WaitActive);
    assert_eq!(round_start(&m, 1), RoundStart::Run(0));
    for c in m.chunks.iter_mut() {
        c.completed = true;
    }
    assert_eq!(round_start(&m, 0), RoundStart::AllDone);
}

#[test]
fn tail_sprint_releases_stalled_then_splits() {
    let big: u64 = 4 * 1024 * 1024;
    let mut done = chunk(0, 0, 9);
    done.completed = true;
    let mut tail = chunk(1, 10, 10 + big - 1);
    tail.claimed_by = Some(3);
    let mut m = manifest(vec![done, tail]);
    let claims = vec![(1usize, 0u64)];
    assert_eq!(tail_sprint_step(&mut m, true, &claims, 9_000), TailSprintStep::Released);
    assert_eq!(m.chunks[1].claimed_by, None);
    assert_eq!(tail_sprint_step(&mut m, false, &claims, 9_000), TailSprintStep::Unchanged);
    assert_eq!(tail_sprint_step(&mut m, true, &Vec::new(), 9_000), TailSprintStep::Split);
    assert_eq!(m.chunks.len(), 3);
    assert_eq!(m.chunks[1].end + 1, m.chunks[2].start);
    assert_eq!(m.chunks[2].end, 10 + big - 1);
}

#[test]
fn worker_outcomes() {
    let mut k = download_core(vec![chunk(0, 0, 9)]);
    assert_eq!(after_worker(&mut k, ChunkWorkerOutcome::Finished), AfterWorker::Continue);
    assert_eq!(k.manifest.checksum.as_deref(), Some("old"));
    assert_eq!(after_worker(&mut k, ChunkWorkerOutcome::RestartSingle), AfterWorker::RestartSingle);
    assert_eq!(after_worker(&mut k, ChunkWorkerOutcome::Canceled), AfterWorker::Canceled);
    assert_eq!(after_worker(&mut k, ChunkWorkerOutcome::Paused), AfterWorker::Paused);
    assert_eq!(k.manifest.checksum, None);
}

#[test]
fn file_names_from_sanitized_candidates() {
    assert_eq!(pick_file_name(Some("a.zip".to_string()), Some("b.zip".to_string())), "a.zip");
    assert_eq!(pick_file_name(Some(String::new()), Some("b.zip".to_string())), "b.zip");
    assert_eq!(pick_file_name(None, Some(String::new())), "download");
    assert_eq!(name_or_missing("x.bin".to_string()), Ok("x.bin".to_string()));
    assert_eq!(name_or_missing(String::new()), Err(DownloadError::MissingFileName));
    let m = manifest(vec![]);
    assert_eq!(proposed_from_sanitized(&m, "b.iso".to_string()), Some("b.iso".to_string()));
    assert_eq!(proposed_from_sanitized(&m, "a".to_string()), None);
    assert_eq!(proposed_from_sanitized(&m, String::new()), None);
}

#[test]
fn clock_readings_to_millis() {
    assert_eq!(millis_since_epoch(None), 0);
    assert_eq!(millis_since_epoch(Some((2, 345_000_000))), 2_345);
}

#[test]
fn new_workers_claim_until_target_or_nothing_left() {
    let mut k = download_core(vec![chunk(0, 0, 24), chunk(1, 25, 49), chunk(2, 50, 74)]);
    k.manifest.state = DownloadState::Queued;
    let spawned = claim_for_new_workers(&mut k, 0, 2, 4, 77);
    assert_eq!(spawned.iter().map(|(w, c)| (*w, c.index)).collect::<Vec<_>>(), vec![(4, 0), (5, 1)]);
    assert_eq!(k.manifest.state, DownloadState::Downloading);
    assert_eq!(k.manifest.connection_count, 2);
    assert_eq!(k.snapshot.updated_at_ms, 77);
    let more = claim_for_new_workers(&mut k, 2, 5, 6, 78);
    assert_eq!(more.iter().map(|(w, c)| (*w, c.index)).collect::<Vec<_>>(), vec![(6, 2)]);
    assert_eq!(claim_for_new_workers(&mut k, 3, 3, 7, 79).len(), 0);
    assert_eq!(k.manifest.updated_at_ms, 78);
}

#[test]
fn single_stream_steps() {
    let mut k = download_core(vec![]);
    k.manifest.downloaded_bytes = 40;
    assert_eq!(single_start(&k, false), SingleStart::Request(40));
    assert_eq!(single_start(&k, true), SingleStart::Stop(RunOutcome::Paused));
    k.snapshot.state = DownloadState::Canceled;
    assert_eq!(single_start(&k, true), SingleStart::Stop(RunOutcome::Canceled));
    k.manifest.state = DownloadState::Canceled;
    assert_eq!(single_start(&k, false), SingleStart::Stop(RunOutcome::Canceled));
    assert_eq!(single_response(&mut k, true, 40, 5), (40, false));
    assert_eq!(single_response(&mut k, false, 40, 6), (0, true));
    assert_eq!(single_response(&mut k, false, 0, 7), (0, false));
    assert_eq!(k.manifest.state, DownloadState::Downloading);
    assert_eq!(k.snapshot.connection_count, 1);
    assert_eq!(k.manifest.updated_at_ms, 7);
}

#[test]
fn chunk_worker_steps() {
    let mut k = download_core(vec![chunk(0, 0, 9), chunk(1, 10, 19)]);
    k.manifest.chunks[0].claimed_by = Some(1);
    k.manifest.chunks[1].claimed_by = Some(2);
    assert_eq!(chunk_worker_start(&mut k, 0, 1, 3, 9, false), WorkerStart::Request);
    assert_eq!(chunk_worker_start(&mut k, 0, 9, 3, 9, false), WorkerStart::Stop(ChunkWorkerOutcome::Finished));
    assert_eq!(k.manifest.chunks[0].claimed_by, Some(1));
    assert_eq!(chunk_worker_start(&mut k, 0, 1, 3, 9, true), WorkerStart::Stop(ChunkWorkerOutcome::Paused));
    assert_eq!(k.manifest.chunks[0].claimed_by, None);
    assert_eq!(chunk_worker_start(&mut k, 1, 2, 20, 19, false), WorkerStart::Stop(ChunkWorkerOutcome::Finished));
    assert_eq!(k.manifest.chunks[1].claimed_by, None);
}

#[test]
fn segment_answers() {
    let mut m = manifest(vec![chunk(0, 0, 9)]);
    m.chunks[0].claimed_by = Some(4);
    let cr = Some("bytes 0-9/10".to_string());
    assert_eq!(segment_answer(&mut m, 0, 4, 206, &cr, 0, 9), Ok(SegmentAnswer::Stream));
    assert_eq!(m.chunks[0].claimed_by, Some(4));
    assert!(segment_answer(&mut m, 0, 4, 206, &None, 0, 9).is_err());
    assert_eq!(segment_answer(&mut m, 0, 4, 200, &None, 0, 9), Ok(SegmentAnswer::RestartSingle));
    assert_eq!(m.chunks[0].claimed_by, None);
}
