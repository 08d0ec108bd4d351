//! The in-memory pair of a download's manifest and its frontend snapshot,
//! and the per-download decisions of the download manager: thread settings,
//! progress accounting and how an interrupted run ends.
use vstd::prelude::*;

use crate::error::DownloadError;
use crate::http::{
    pick_file_name, sanitize_file_name, spec_clean_of, spec_file_name_clean, spec_pick_file_name, spec_sanitized_from, spec_url_segment,
};
use crate::manifest::{chunk_info_of, spec_chunk_info, ChunkManifest, Manifest, CHUNK_SIZE};
use crate::scheduler::{DEFAULT_FIXED_THREADS, MAX_TRADITIONAL_THREADS};
use crate::settings::{
    path_is_absolute, resolve_user_agent, spec_may_be_absolute, spec_normalize_user_agent, spec_ua_result,
};
use crate::text::{concat, decimal_string, owned, spec_decimal, spec_trim, str_equals};
use crate::types::{
    AdaptiveProfile, AppSettings, ChecksumMode, DiskType, DownloadSnapshot, DownloadState, Priority,
    SchedulerMode, StartDownloadRequest, ThreadMode,
};
use crate::urls::{opt_view, parse_url, spec_url_parse};

verus! {

/// Retries of a failed request when the request does not say.
pub const DEFAULT_RETRIES: u32 = 4;

/// Milliseconds between two persists of a running download's progress.
pub const PERSIST_INTERVAL_MS: u64 = 300;

/// Snapshot and manifest of one download, kept together under one lock.
pub struct DownloadCore {
    pub snapshot: DownloadSnapshot,
    pub manifest: Manifest,
}

/// How a download run ended.
#[derive(Clone, Copy, Debug, PartialEq, Eq, Structural)]
pub enum RunOutcome {
    Finished,
    Paused,
    Canceled,
}

/// How a chunk worker ended.
#[derive(Clone, Copy, Debug, PartialEq, Eq, Structural)]
pub enum ChunkWorkerOutcome {
    Finished,
    RestartSingle,
    Paused,
    Canceled,
}

/// The snapshot `s` after syncing from manifest `m`, starting from `old`:
/// every manifest-backed field copied, the live-only fields kept.
pub open spec fn spec_synced(s: DownloadSnapshot, old: DownloadSnapshot, m: Manifest) -> bool {
    &&& s.state == m.state
    &&& s.final_url == m.final_url
    &&& s.file_name == m.file_name
    &&& s.destination_path == m.destination_path
    &&& s.total_bytes == m.total_bytes
    &&& s.downloaded_bytes == m.downloaded_bytes
    &&& s.supports_ranges == m.supports_ranges
    &&& s.connection_count == m.connection_count
    &&& s.thread_mode == m.thread_mode
    &&& s.requested_thread_count == m.requested_thread_count
    &&& s.desired_thread_count == m.desired_thread_count
    &&& s.allocated_thread_count == m.allocated_thread_count
    &&& s.adaptive_profile == m.adaptive_profile_snapshot
    &&& s.thread_note == m.thread_note
    &&& s.etag == m.etag
    &&& s.last_modified == m.last_modified
    &&& s.error == m.error
    &&& s.updated_at_ms == m.updated_at_ms
    &&& s.chunks@ == m.chunks@.map_values(|c: ChunkManifest| spec_chunk_info(c))
    &&& s.id == old.id
    &&& s.kind == old.kind
    &&& s.url == old.url
    &&& s.temp_path == old.temp_path
    &&& s.checksum == old.checksum
    &&& s.checksum_mode == old.checksum_mode
    &&& s.speed_bytes_per_second == old.speed_bytes_per_second
    &&& s.eta_seconds == old.eta_seconds
    &&& s.uploaded_bytes == old.uploaded_bytes
    &&& s.upload_speed_bytes_per_second == old.upload_speed_bytes_per_second
    &&& s.peer_count == old.peer_count
    &&& s.upload_status == old.upload_status
    &&& s.info_hash == old.info_hash
    &&& s.created_at_ms == old.created_at_ms
    &&& s.priority == old.priority
    &&& s.cdn_accelerated == old.cdn_accelerated
    &&& s.mirror_url == old.mirror_url
    &&& s.seed_count == old.seed_count
    &&& s.leech_count == old.leech_count
    &&& s.download_limit_bps == old.download_limit_bps
    &&& s.upload_limit_bps == old.upload_limit_bps
    &&& s.degraded == old.degraded
    &&& s.disk_type == old.disk_type
    &&& s.flushing == old.flushing
}

fn clone_string(s: &String) -> (r: String)
    ensures
        r == *s,
{
    s.clone()
}

fn clone_opt(s: &Option<String>) -> (r: Option<String>)
    ensures
        r == *s,
{
    match s {
        Some(v) => Some(v.clone()),
        None => None,
    }
}

impl DownloadCore {
    /// Copies the manifest-backed fields into the snapshot (`spec_synced`).
    /// The mirror URL is left alone: the mirror retry loop owns it. Chunk
    /// views are updated in place while the chunk layout is unchanged and
    /// rebuilt otherwise.
    pub fn sync_snapshot_from_manifest(&mut self)
        ensures
            final(self).manifest == old(self).manifest,
            spec_synced(final(self).snapshot, old(self).snapshot, old(self).manifest),
    {
        self.snapshot.state = self.manifest.state;
        self.snapshot.final_url = clone_string(&self.manifest.final_url);
        self.snapshot.file_name = clone_string(&self.manifest.file_name);
        self.snapshot.destination_path = clone_string(&self.manifest.destination_path);
        self.snapshot.total_bytes = self.manifest.total_bytes;
        self.snapshot.downloaded_bytes = self.manifest.downloaded_bytes;
        self.snapshot.supports_ranges = self.manifest.supports_ranges;
        self.snapshot.connection_count = self.manifest.connection_count;
        self.snapshot.thread_mode = self.manifest.thread_mode;
        self.snapshot.requested_thread_count = self.manifest.requested_thread_count;
        self.snapshot.desired_thread_count = self.manifest.desired_thread_count;
        self.snapshot.allocated_thread_count = self.manifest.allocated_thread_count;
        self.snapshot.adaptive_profile = self.manifest.adaptive_profile_snapshot;
        self.snapshot.thread_note = clone_opt(&self.manifest.thread_note);
        self.snapshot.etag = clone_opt(&self.manifest.etag);
        self.snapshot.last_modified = clone_opt(&self.manifest.last_modified);
        self.snapshot.error = clone_opt(&self.manifest.error);
        self.snapshot.updated_at_ms = self.manifest.updated_at_ms;
        let n = self.manifest.chunks.len();
        let mut same_layout = self.snapshot.chunks.len() > 0 && self.snapshot.chunks.len() == n;
        let mut i: usize = 0;
        while same_layout && i < n
            invariant
                n == self.manifest.chunks@.len(),
                same_layout ==> self.snapshot.chunks@.len() == n,
                i <= n,
            decreases n - i,
        {
            let sc = &self.snapshot.chunks[i];
            let mc = &self.manifest.chunks[i];
            if !(sc.index == mc.index && sc.start == mc.start && sc.end == mc.end) {
                same_layout = false;
            }
            i = i + 1;
        }
        if same_layout {
            let ghost target = self.manifest.chunks@.map_values(|c: ChunkManifest| spec_chunk_info(c));
            let ghost s0 = self.snapshot;
            let ghost m0 = self.manifest;
            let mut j: usize = 0;
            while j < n
                invariant
                    self.manifest == m0,
                    self.snapshot == (DownloadSnapshot { chunks: self.snapshot.chunks, ..s0 }),
                    n == self.manifest.chunks@.len(),
                    self.snapshot.chunks@.len() == n,
                    target == self.manifest.chunks@.map_values(|c: ChunkManifest| spec_chunk_info(c)),
                    j <= n,
                    forall|k: int| 0 <= k < j ==> self.snapshot.chunks@[k] == target[k],
                decreases n - j,
            {
                let info = chunk_info_of(&self.manifest.chunks[j]);
                self.snapshot.chunks.set(j, info);
                j = j + 1;
            }
            assert(self.snapshot.chunks@ =~= target);
        } else {
            self.snapshot.chunks = crate::manifest::chunk_infos(&self.manifest.chunks);
        }
    }
}

// ── Progress ─────────────────────────────────────────────────────────

pub open spec fn spec_sat_add(a: u64, b: u64) -> u64 {
    if a + b > u64::MAX { u64::MAX } else { (a + b) as u64 }
}

pub open spec fn spec_sat_sub(a: u64, b: u64) -> u64 {
    if a > b { (a - b) as u64 } else { 0 }
}

/// Position of the first chunk whose index is `index`.
pub open spec fn spec_find_chunk(chunks: Seq<ChunkManifest>, index: usize) -> Option<int> {
    if exists|j: int| 0 <= j < chunks.len() && chunks[j].index == index {
        Some(choose|j: int| 0 <= j < chunks.len() && chunks[j].index == index
            && forall|k: int| 0 <= k < j ==> chunks[k].index != index)
    } else {
        None
    }
}

/// A chunk after `bytes` more of it arrived.
pub open spec fn spec_chunk_progress(c: ChunkManifest, bytes: u64) -> ChunkManifest {
    let downloaded = spec_sat_add(c.downloaded, bytes);
    if downloaded > spec_sat_sub(c.end, c.start) {
        ChunkManifest { downloaded, dirty: true, completed: true, claimed_by: None, ..c }
    } else {
        ChunkManifest { downloaded, dirty: true, ..c }
    }
}

/// The chunk list after `bytes` arrived for the chunk with index `index`.
pub open spec fn spec_chunks_after_progress(chunks: Seq<ChunkManifest>, index: Option<usize>, bytes: u64) -> Seq<ChunkManifest> {
    match index {
        Some(ix) => match spec_find_chunk(chunks, ix) {
            Some(j) => chunks.update(j, spec_chunk_progress(chunks[j], bytes)),
            None => chunks,
        },
        None => chunks,
    }
}

fn first_chunk_with_index(chunks: &Vec<ChunkManifest>, index: usize) -> (r: Option<usize>)
    ensures
        match r {
            Some(j) => spec_find_chunk(chunks@, index) == Some(j as int) && j < chunks@.len(),
            None => spec_find_chunk(chunks@, index) is None,
        },
{
    let mut j: usize = 0;
    while j < chunks.len()
        invariant
            j <= chunks@.len(),
            forall|k: int| 0 <= k < j ==> chunks@[k].index != index,
        decreases chunks@.len() - j,
    {
        if chunks[j].index == index {
            proof {
                let w = choose|w: int| 0 <= w < chunks@.len() && chunks@[w].index == index
                    && forall|k: int| 0 <= k < w ==> chunks@[k].index != index;
                if w < j {
                } else if w > j {
                    assert(chunks@[j as int].index == index);
                }
                assert(w == j);
            }
            return Some(j);
        }
        j = j + 1;
    }
    None
}

/// Accounts `bytes` newly written for the chunk with index `chunk_index`
/// (or for the single stream): byte counters grow (saturating), the error
/// clears, the chunk is marked dirty and completed once it is full.
pub fn record_progress_on_managed(core: &mut DownloadCore, chunk_index: Option<usize>, bytes: u64, now: u64)
    ensures
        final(core).snapshot == (DownloadSnapshot {
            downloaded_bytes: spec_sat_add(old(core).snapshot.downloaded_bytes, bytes),
            error: None,
            updated_at_ms: now,
            ..old(core).snapshot
        }),
        final(core).manifest.downloaded_bytes == spec_sat_add(old(core).manifest.downloaded_bytes, bytes),
        final(core).manifest.error is None,
        final(core).manifest.updated_at_ms == now,
        final(core).manifest.chunks@ == spec_chunks_after_progress(old(core).manifest.chunks@, chunk_index, bytes),
        final(core).manifest == (Manifest {
            downloaded_bytes: final(core).manifest.downloaded_bytes,
            error: None,
            updated_at_ms: now,
            chunks: final(core).manifest.chunks,
            ..old(core).manifest
        }),
{
    core.snapshot.downloaded_bytes = core.snapshot.downloaded_bytes.saturating_add(bytes);
    core.snapshot.error = None;
    core.snapshot.updated_at_ms = now;
    core.manifest.downloaded_bytes = core.manifest.downloaded_bytes.saturating_add(bytes);
    core.manifest.error = None;
    core.manifest.updated_at_ms = now;
    match chunk_index {
        Some(index) => {
            match first_chunk_with_index(&core.manifest.chunks, index) {
                Some(j) => {
                    let mut c = core.manifest.chunks[j];
                    c.downloaded = c.downloaded.saturating_add(bytes);
                    c.dirty = true;
                    if c.downloaded > c.end.saturating_sub(c.start) {
                        c.completed = true;
                        c.claimed_by = None;
                    }
                    core.manifest.chunks.set(j, c);
                },
                None => {},
            }
        },
        None => {},
    }
}

// ── Run outcomes ─────────────────────────────────────────────────────

/// A run stopped by its cancellation token ended as canceled if the user
/// canceled it, and as paused otherwise.
pub fn cancellation_outcome(snapshot_state: DownloadState) -> (r: RunOutcome)
    ensures
        r == (if snapshot_state == DownloadState::Canceled { RunOutcome::Canceled } else { RunOutcome::Paused }),
{
    match snapshot_state {
        DownloadState::Canceled => RunOutcome::Canceled,
        _ => RunOutcome::Paused,
    }
}

/// The same decision for a chunk worker.
pub fn cancellation_chunk_outcome(snapshot_state: DownloadState) -> (r: ChunkWorkerOutcome)
    ensures
        r == (if snapshot_state == DownloadState::Canceled {
            ChunkWorkerOutcome::Canceled
        } else {
            ChunkWorkerOutcome::Paused
        }),
{
    match snapshot_state {
        DownloadState::Canceled => ChunkWorkerOutcome::Canceled,
        _ => ChunkWorkerOutcome::Paused,
    }
}

// ── Thread settings ──────────────────────────────────────────────────

/// A download is split into parallel ranges when the server accepts
/// ranges and the file is at least two chunks long.
pub open spec fn spec_supports_parallelism(total: Option<u64>, supports_ranges: bool, chunk_size: u64) -> bool {
    supports_ranges && match total {
        Some(t) => t >= 2 * chunk_size,
        None => false,
    }
}

pub fn supports_parallelism(total: Option<u64>, supports_ranges: bool, chunk_size: u64) -> (r: bool)
    requires
        supports_ranges && total is Some ==> 2 * chunk_size <= u64::MAX,
    ensures
        r == spec_supports_parallelism(total, supports_ranges, chunk_size),
{
    supports_ranges && match total {
        Some(t) => t >= chunk_size * 2,
        None => false,
    }
}

pub open spec fn spec_clamp(v: usize, lo: usize, hi: usize) -> usize {
    if v < lo { lo } else if v > hi { hi } else { v }
}

pub open spec fn spec_at_least_one(v: usize) -> usize {
    if v > 1 { v } else { 1 }
}

/// Thread mode, requested count, desired count and adaptive profile of a
/// new run. `initial_desired` is the adaptive controller's starting
/// thread count for the configured profile.
pub open spec fn spec_thread_settings(
    settings: AppSettings,
    request_mode: Option<ThreadMode>,
    request_count: Option<usize>,
    supports_parallel: bool,
    initial_desired: usize,
) -> (ThreadMode, Option<usize>, Option<usize>, Option<AdaptiveProfile>) {
    let wanted = match request_count {
        Some(n) => n,
        None => DEFAULT_FIXED_THREADS,
    };
    let task_cap = spec_at_least_one(settings.scheduler.automatic.max_threads_per_task);
    if !supports_parallel {
        (ThreadMode::Fixed, Some(1), Some(1), None)
    } else {
        match settings.scheduler.mode {
            SchedulerMode::Traditional => {
                let n = spec_clamp(wanted, 1, MAX_TRADITIONAL_THREADS);
                (ThreadMode::Fixed, Some(n), Some(n), None)
            },
            SchedulerMode::Automatic => match request_mode {
                Some(ThreadMode::Fixed) => {
                    let n = spec_clamp(wanted, 1, task_cap);
                    (ThreadMode::Fixed, Some(n), Some(n), None)
                },
                _ => {
                    let profile = settings.scheduler.automatic.adaptive_profile;
                    let desired = if initial_desired < task_cap { initial_desired } else { task_cap };
                    (ThreadMode::Adaptive, None, Some(spec_at_least_one(desired)), Some(profile))
                },
            },
        }
    }
}

/// Thread settings of a download run (`spec_thread_settings`).
pub fn resolve_thread_settings(
    settings: &AppSettings,
    request: &StartDownloadRequest,
    supports_parallel: bool,
    initial_desired: usize,
) -> (r: (ThreadMode, Option<usize>, Option<usize>, Option<AdaptiveProfile>))
    ensures
        r == spec_thread_settings(*settings, request.thread_mode, request.thread_count, supports_parallel, initial_desired),
{
    if !supports_parallel {
        return (ThreadMode::Fixed, Some(1), Some(1), None);
    }
    let wanted = match request.thread_count {
        Some(n) => n,
        None => DEFAULT_FIXED_THREADS,
    };
    let m = settings.scheduler.automatic.max_threads_per_task;
    let task_cap = if m > 1 { m } else { 1 };
    match settings.scheduler.mode {
        SchedulerMode::Traditional => {
            let n = if wanted < 1 { 1 } else if wanted > MAX_TRADITIONAL_THREADS { MAX_TRADITIONAL_THREADS } else { wanted };
            (ThreadMode::Fixed, Some(n), Some(n), None)
        },
        SchedulerMode::Automatic => match request.thread_mode {
            Some(ThreadMode::Fixed) => {
                let n = if wanted < 1 { 1 } else if wanted > task_cap { task_cap } else { wanted };
                (ThreadMode::Fixed, Some(n), Some(n), None)
            },
            _ => {
                let profile = settings.scheduler.automatic.adaptive_profile;
                let desired = if initial_desired < task_cap { initial_desired } else { task_cap };
                let desired = if desired > 1 { desired } else { 1 };
                (ThreadMode::Adaptive, None, Some(desired), Some(profile))
            },
        },
    }
}

/// Note shown next to a download's thread count.
pub open spec fn spec_thread_note(
    supports_parallel: bool,
    mode: ThreadMode,
    profile: Option<AdaptiveProfile>,
) -> Option<Seq<char>> {
    if !supports_parallel {
        Some("单线程（服务器不支持分段）"@)
    } else {
        match mode {
            ThreadMode::Fixed => Some("固定线程"@),
            ThreadMode::Adaptive => match profile {
                Some(AdaptiveProfile::Conservative) => Some("自适应 / 保守"@),
                Some(AdaptiveProfile::Balanced) => Some("自适应 / 平衡"@),
                Some(AdaptiveProfile::Aggressive) => Some("自适应 / 激进"@),
                None => None,
            },
        }
    }
}

pub fn thread_note(supports_parallel: bool, thread_mode: ThreadMode, adaptive_profile: Option<AdaptiveProfile>) -> (r: Option<String>)
    ensures
        crate::urls::opt_view(r) == spec_thread_note(supports_parallel, thread_mode, adaptive_profile),
{
    if !supports_parallel {
        return Some(owned("单线程（服务器不支持分段）"));
    }
    match thread_mode {
        ThreadMode::Fixed => Some(owned("固定线程")),
        ThreadMode::Adaptive => match adaptive_profile {
            Some(AdaptiveProfile::Conservative) => Some(owned("自适应 / 保守")),
            Some(AdaptiveProfile::Balanced) => Some(owned("自适应 / 平衡")),
            Some(AdaptiveProfile::Aggressive) => Some(owned("自适应 / 激进")),
            None => None,
        },
    }
}

// ── User actions ─────────────────────────────────────────────────────

/// A running, retrying or queued download can be paused.
pub open spec fn spec_pausable(state: DownloadState) -> bool {
    state == DownloadState::Downloading || state == DownloadState::Retrying || state == DownloadState::Queued
}

/// Pauses a download that is running, retrying or queued: both views go
/// to `Paused` with no connections and no threads. Returns whether it did.
pub fn pause_transition(core: &mut DownloadCore, now: u64) -> (changed: bool)
    ensures
        changed == spec_pausable(old(core).snapshot.state),
        changed ==> final(core).snapshot == (DownloadSnapshot {
            state: DownloadState::Paused,
            connection_count: 0,
            allocated_thread_count: Some(0),
            updated_at_ms: now,
            ..old(core).snapshot
        }),
        changed ==> final(core).manifest == (Manifest {
            state: DownloadState::Paused,
            connection_count: 0,
            allocated_thread_count: Some(0),
            updated_at_ms: now,
            ..old(core).manifest
        }),
        !changed ==> final(core).snapshot == old(core).snapshot && final(core).manifest == old(core).manifest,
{
    match core.snapshot.state {
        DownloadState::Downloading | DownloadState::Retrying | DownloadState::Queued => {},
        _ => return false,
    }
    core.snapshot.state = DownloadState::Paused;
    core.snapshot.connection_count = 0;
    core.snapshot.allocated_thread_count = Some(0);
    core.snapshot.updated_at_ms = now;
    core.manifest.state = DownloadState::Paused;
    core.manifest.connection_count = 0;
    core.manifest.allocated_thread_count = Some(0);
    core.manifest.updated_at_ms = now;
    true
}

/// Cancels a download that has not completed: both views go to `Canceled`
/// with no connections and no threads. Returns whether it did (a completed
/// download is only removed).
pub fn cancel_transition(core: &mut DownloadCore, now: u64) -> (changed: bool)
    ensures
        changed == (old(core).snapshot.state != DownloadState::Completed),
        changed ==> final(core).snapshot == (DownloadSnapshot {
            state: DownloadState::Canceled,
            connection_count: 0,
            allocated_thread_count: Some(0),
            updated_at_ms: now,
            ..old(core).snapshot
        }),
        changed ==> final(core).manifest == (Manifest {
            state: DownloadState::Canceled,
            connection_count: 0,
            allocated_thread_count: Some(0),
            updated_at_ms: now,
            ..old(core).manifest
        }),
        !changed ==> final(core).snapshot == old(core).snapshot && final(core).manifest == old(core).manifest,
{
    if core.snapshot.state == DownloadState::Completed {
        return false;
    }
    core.snapshot.state = DownloadState::Canceled;
    core.snapshot.connection_count = 0;
    core.snapshot.allocated_thread_count = Some(0);
    core.snapshot.updated_at_ms = now;
    core.manifest.state = DownloadState::Canceled;
    core.manifest.connection_count = 0;
    core.manifest.allocated_thread_count = Some(0);
    core.manifest.updated_at_ms = now;
    true
}

/// Whether a download in `state` can be resumed, and the error otherwise.
pub open spec fn spec_resume_check(state: DownloadState) -> Result<(), DownloadError> {
    match state {
        DownloadState::Downloading | DownloadState::Retrying | DownloadState::Queued | DownloadState::Verifying => Err(
            DownloadError::AlreadyRunning,
        ),
        DownloadState::Canceled => Err(DownloadError::Canceled),
        DownloadState::Completed => Err(DownloadError::NotResumable),
        _ => Ok(()),
    }
}

/// Only paused and failed downloads resume (`spec_resume_check`).
pub fn resume_check(state: DownloadState) -> (r: Result<(), DownloadError>)
    ensures
        r == spec_resume_check(state),
{
    match state {
        DownloadState::Downloading | DownloadState::Retrying | DownloadState::Queued | DownloadState::Verifying => Err(
            DownloadError::AlreadyRunning,
        ),
        DownloadState::Canceled => Err(DownloadError::Canceled),
        DownloadState::Completed => Err(DownloadError::NotResumable),
        _ => Ok(()),
    }
}

/// Position in `urls` of the mirror in use, 0 when it is not listed.
pub open spec fn spec_mirror_position(urls: Seq<String>, current: Option<String>) -> int {
    match current {
        Some(c) => if exists|k: int| 0 <= k < urls.len() && urls[k]@ == c@ {
            choose|k: int| 0 <= k < urls.len() && urls[k]@ == c@ && forall|j: int| 0 <= j < k ==> urls[j]@ != c@
        } else {
            0
        },
        None => 0,
    }
}

fn mirror_position(urls: &Vec<String>, current: &Option<String>) -> (r: usize)
    ensures
        r == spec_mirror_position(urls@, *current),
        urls@.len() > 0 ==> r < urls@.len(),
{
    match current {
        Some(c) => {
            let mut k: usize = 0;
            while k < urls.len()
                invariant
                    k <= urls@.len(),
                    *current == Some(*c),
                    forall|j: int| 0 <= j < k ==> urls@[j]@ != c@,
                decreases urls@.len() - k,
            {
                if str_equals(urls[k].as_str(), c.as_str()) {
                    proof {
                        assert(urls@[k as int]@ == c@);
                        let w = choose|w: int| 0 <= w < urls@.len() && urls@[w]@ == c@ && forall|j: int| 0 <= j < w ==> urls@[j]@ != c@;
                        if w > k {
                            assert(urls@[k as int]@ != c@);
                        }
                        assert(w == k);
                        assert(*current == Some(*c));
                        assert(spec_mirror_position(urls@, Some(*c)) == k);
                    }
                    return k;
                }
                k = k + 1;
            }
            0
        },
        None => 0,
    }
}

/// Prepares a resume: with more than one mirror URL the list is replaced,
/// keeping the position of the mirror in use (else the first), and the
/// final URL follows it; both views go to `Queued` with no error.
pub fn resume_transition(core: &mut DownloadCore, new_mirror_urls: Vec<String>, now: u64)
    ensures
        final(core).snapshot == (DownloadSnapshot {
            state: DownloadState::Queued,
            error: None,
            updated_at_ms: now,
            ..old(core).snapshot
        }),
        new_mirror_urls@.len() > 1 ==> ({
            let idx = spec_mirror_position(new_mirror_urls@, old(core).manifest.mirror_url);
            &&& final(core).manifest.mirror_urls@ == new_mirror_urls@
            &&& final(core).manifest.current_mirror_index == idx
            &&& final(core).manifest.mirror_url == Some(new_mirror_urls@[idx])
            &&& final(core).manifest == (Manifest {
                mirror_urls: final(core).manifest.mirror_urls,
                current_mirror_index: idx as usize,
                mirror_url: Some(new_mirror_urls@[idx]),
                final_url: new_mirror_urls@[idx],
                state: DownloadState::Queued,
                error: None,
                updated_at_ms: now,
                ..old(core).manifest
            })
        }),
        new_mirror_urls@.len() <= 1 ==> final(core).manifest == (Manifest {
            state: DownloadState::Queued,
            error: None,
            updated_at_ms: now,
            ..old(core).manifest
        }),
{
    if new_mirror_urls.len() > 1 {
        let idx = mirror_position(&new_mirror_urls, &core.manifest.mirror_url);
        let url = new_mirror_urls[idx].clone();
        core.manifest.mirror_urls = new_mirror_urls;
        core.manifest.current_mirror_index = idx;
        core.manifest.mirror_url = Some(url.clone());
        core.manifest.final_url = url;
    }
    core.snapshot.state = DownloadState::Queued;
    core.snapshot.error = None;
    core.snapshot.updated_at_ms = now;
    core.manifest.state = DownloadState::Queued;
    core.manifest.error = None;
    core.manifest.updated_at_ms = now;
}

/// A download of `url` that has not completed, failed or been canceled.
pub open spec fn spec_active_for_url(m: Manifest, url: Seq<char>) -> bool {
    m.url@ == url && !(m.state == DownloadState::Completed || m.state == DownloadState::Failed
        || m.state == DownloadState::Canceled)
}

/// Position of the first download of `url` that is still active.
pub fn find_active_by_url(manifests: &Vec<Manifest>, url: &str) -> (r: Option<usize>)
    ensures
        match r {
            Some(i) => i < manifests@.len() && spec_active_for_url(manifests@[i as int], url@)
                && forall|j: int| 0 <= j < i ==> !spec_active_for_url(#[trigger] manifests@[j], url@),
            None => forall|j: int| 0 <= j < manifests@.len() ==> !spec_active_for_url(#[trigger] manifests@[j], url@),
        },
{
    let mut i: usize = 0;
    while i < manifests.len()
        invariant
            i <= manifests@.len(),
            forall|j: int| 0 <= j < i ==> !spec_active_for_url(#[trigger] manifests@[j], url@),
        decreases manifests@.len() - i,
    {
        let m = &manifests[i];
        let ended = match m.state {
            DownloadState::Completed | DownloadState::Failed | DownloadState::Canceled => true,
            _ => false,
        };
        if str_equals(m.url.as_str(), url) && !ended {
            return Some(i);
        }
        i = i + 1;
    }
    None
}

/// The HTTP client must be rebuilt when the proxy or the default user agent changed.
pub fn client_settings_changed(current: &AppSettings, next: &AppSettings) -> (r: bool)
    ensures
        r == (current.proxy.mode != next.proxy.mode || current.proxy.manual_url@ != next.proxy.manual_url@
            || current.download.default_user_agent@ != next.download.default_user_agent@),
{
    current.proxy.mode != next.proxy.mode || !str_equals(current.proxy.manual_url.as_str(), next.proxy.manual_url.as_str())
        || !str_equals(current.download.default_user_agent.as_str(), next.download.default_user_agent.as_str())
}

/// The disk type the user configured for a directory, if any.
pub fn disk_type_override(settings: &AppSettings, dir: &str) -> (r: Option<DiskType>)
    ensures
        match r {
            Some(t) => exists|i: int| 0 <= i < settings.io_baseline.disk_type_overrides@.len()
                && (#[trigger] settings.io_baseline.disk_type_overrides@[i]).path@ == dir@
                && settings.io_baseline.disk_type_overrides@[i].disk_type == t,
            None => forall|i: int| 0 <= i < settings.io_baseline.disk_type_overrides@.len()
                ==> (#[trigger] settings.io_baseline.disk_type_overrides@[i]).path@ != dir@,
        },
{
    let overrides = &settings.io_baseline.disk_type_overrides;
    let mut i: usize = 0;
    while i < overrides.len()
        invariant
            i <= overrides@.len(),
            overrides == &settings.io_baseline.disk_type_overrides,
            forall|j: int| 0 <= j < i ==> (#[trigger] overrides@[j]).path@ != dir@,
        decreases overrides@.len() - i,
    {
        if str_equals(overrides[i].path.as_str(), dir) {
            return Some(overrides[i].disk_type);
        }
        i = i + 1;
    }
    None
}

/// The host whose connections may go through the CDN accelerator: only
/// when acceleration is on and the URL's domain is served by Cloudflare,
/// and only for a URL that parses and has a host.
pub fn cdn_host(cdn_enabled: bool, is_cloudflare: bool, url: &str) -> (r: Option<String>)
    ensures
        opt_view(r) == (if cdn_enabled && is_cloudflare {
            match spec_url_parse(url@) {
                Ok(u) => u.2,
                Err(_) => None,
            }
        } else {
            None
        }),
{
    if !cdn_enabled || !is_cloudflare {
        return None;
    }
    match parse_url(url) {
        Ok(parts) => parts.host,
        Err(_) => None,
    }
}

/// Name of the `index`-th alternative when a destination file already
/// exists: `<stem> (<index>)<extension>`, where the extension keeps its dot.
pub fn numbered_file_name(stem: &str, extension: &str, index: u32) -> (r: String)
    ensures
        r@ == stem@ + " ("@ + spec_decimal(index as nat) + ")"@ + extension@,
{
    let t = concat(stem, " (");
    let t = concat(t.as_str(), decimal_string(index as u64).as_str());
    let t = concat(t.as_str(), ")");
    concat(t.as_str(), extension)
}

// ── Starting a download ──────────────────────────────────────────────

/// Only absolute `http` and `https` URLs are downloaded.
pub fn check_download_url(url: &str) -> (r: Result<(), DownloadError>)
    ensures
        match spec_url_parse(url@) {
            Err(m) => r matches Err(DownloadError::InvalidResponse(x)) && x@ == m,
            Ok(u) => if u.1 == "http"@ || u.1 == "https"@ {
                r is Ok
            } else {
                r == Err::<(), DownloadError>(DownloadError::UnsupportedScheme)
            },
        },
{
    match parse_url(url) {
        Err(m) => Err(DownloadError::InvalidResponse(m)),
        Ok(parts) => {
            if str_equals(parts.scheme.as_str(), "http") || str_equals(parts.scheme.as_str(), "https") {
                Ok(())
            } else {
                Err(DownloadError::UnsupportedScheme)
            }
        },
    }
}

/// Kinds of the components of a path, as `std::path::Path::components` sees them.
#[derive(Clone, Copy, Debug, PartialEq, Eq, Structural)]
pub enum PathPart {
    Prefix,
    RootDir,
    CurDir,
    ParentDir,
    Normal,
}

/// Calls `std::path::Path::components` and keeps each component's kind.
/// How a path splits depends on the platform, so nothing is claimed.
#[verifier::external_body]
fn path_components(path: &str) -> (r: Vec<PathPart>) {
    std::path::Path::new(path).components().map(|c| match c {
        std::path::Component::Prefix(_) => PathPart::Prefix,
        std::path::Component::RootDir => PathPart::RootDir,
        std::path::Component::CurDir => PathPart::CurDir,
        std::path::Component::ParentDir => PathPart::ParentDir,
        std::path::Component::Normal(_) => PathPart::Normal,
    }).collect()
}

/// Named components left after resolving the first `k` parts, or `None`
/// once a `..` would climb above the root.
pub open spec fn spec_depth(parts: Seq<PathPart>, k: int) -> Option<nat>
    decreases k,
{
    if k <= 0 {
        Some(0)
    } else {
        match spec_depth(parts, k - 1) {
            None => None,
            Some(d) => match parts[k - 1] {
                PathPart::ParentDir => if d == 0 { None } else { Some((d - 1) as nat) },
                PathPart::Normal => Some(d + 1),
                _ => Some(d),
            },
        }
    }
}

proof fn lemma_depth_stays_none(parts: Seq<PathPart>, k: int, j: int)
    requires
        0 <= k <= j,
        spec_depth(parts, k) is None,
    ensures
        spec_depth(parts, j) is None,
    decreases j - k,
{
    if j > k {
        lemma_depth_stays_none(parts, k, j - 1);
    }
}

/// Some `..` of the path climbs above its root.
pub open spec fn spec_escapes_root(parts: Seq<PathPart>) -> bool {
    spec_depth(parts, parts.len() as int) is None
}

/// Whether resolving `..` in the components climbs above the root.
pub fn escapes_root(parts: &Vec<PathPart>) -> (r: bool)
    ensures
        r == spec_escapes_root(parts@),
{
    let mut depth: usize = 0;
    let mut k: usize = 0;
    while k < parts.len()
        invariant
            k <= parts@.len(),
            spec_depth(parts@, k as int) == Some(depth as nat),
            depth <= k,
        decreases parts@.len() - k,
    {
        match parts[k] {
            PathPart::ParentDir => {
                if depth == 0 {
                    proof {
                        assert(spec_depth(parts@, k + 1) is None);
                        lemma_depth_stays_none(parts@, k + 1, parts@.len() as int);
                    }
                    return true;
                }
                depth = depth - 1;
            },
            PathPart::Normal => {
                depth = depth + 1;
            },
            _ => {},
        }
        k = k + 1;
    }
    false
}

/// The verdict on a set destination directory, given whether the platform
/// takes it as absolute and the kinds of its components: not absolute,
/// escaping its root through `..`, or accepted.
pub open spec fn spec_destination_verdict(r: Result<(), DownloadError>, is_absolute: bool, parts: Seq<PathPart>) -> bool {
    if !is_absolute {
        r matches Err(DownloadError::InvalidResponse(m)) && m@ == "download destination directory must be an absolute path"@
    } else if spec_escapes_root(parts) {
        r matches Err(DownloadError::InvalidResponse(m))
            && m@ == "download destination directory must not escape its parent via '..'"@
    } else {
        r is Ok
    }
}

/// Decides on a set destination directory from the platform's answers
/// (`spec_destination_verdict`).
pub fn destination_verdict(is_absolute: bool, parts: &Vec<PathPart>) -> (r: Result<(), DownloadError>)
    ensures
        spec_destination_verdict(r, is_absolute, parts@),
{
    if !is_absolute {
        return Err(DownloadError::InvalidResponse(owned("download destination directory must be an absolute path")));
    }
    if escapes_root(parts) {
        return Err(DownloadError::InvalidResponse(owned(
            "download destination directory must not escape its parent via '..'",
        )));
    }
    Ok(())
}

/// What checking destination directory `dir` may give: the "not set"
/// error for an empty one, else the verdict (`spec_destination_verdict`)
/// for some answer of the platform, which can take the directory as
/// absolute only when it has an absolute shape.
pub open spec fn spec_destination_result(dir: Seq<char>, r: Result<(), DownloadError>) -> bool {
    if dir.len() == 0 {
        r matches Err(DownloadError::InvalidResponse(m)) && m@ == "download destination directory is not set"@
    } else {
        exists|is_absolute: bool, parts: Seq<PathPart>|
            (is_absolute ==> spec_may_be_absolute(dir)) && #[trigger] spec_destination_verdict(r, is_absolute, parts)
    }
}

/// Checks a download's destination directory: set, absolute, and with no
/// `..` that climbs above the root. Whether a path is absolute and how it
/// splits into components is the platform's (`std::path`) answer, which
/// `destination_verdict` turns into the result; a path of a shape that no
/// platform takes as absolute is always refused as not absolute.
pub fn validate_destination_dir(dir: &str) -> (r: Result<(), DownloadError>)
    ensures
        spec_destination_result(dir@, r),
        dir@.len() > 0 && !spec_may_be_absolute(dir@) ==> (r matches Err(DownloadError::InvalidResponse(m))
            && m@ == "download destination directory must be an absolute path"@),
{
    if dir.is_empty() {
        return Err(DownloadError::InvalidResponse(owned("download destination directory is not set")));
    }
    let is_absolute = path_is_absolute(dir);
    let parts = if is_absolute { path_components(dir) } else { Vec::new() };
    let r = destination_verdict(is_absolute, &parts);
    assert(spec_destination_verdict(r, is_absolute, parts@));
    r
}

/// The URL of a new download is accepted: it parses and is `http` or `https`.
pub open spec fn spec_url_accepted(url: Seq<char>) -> bool {
    match spec_url_parse(url) {
        Ok(u) => u.1 == "http"@ || u.1 == "https"@,
        Err(_) => false,
    }
}

/// The error a refused URL gives: the parser's message, or
/// `UnsupportedScheme` for a URL of another scheme.
pub open spec fn spec_url_refused(url: Seq<char>, e: DownloadError) -> bool {
    match spec_url_parse(url) {
        Err(m) => e matches DownloadError::InvalidResponse(x) && x@ == m,
        Ok(_) => e == DownloadError::UnsupportedScheme,
    }
}

/// The user agent a request runs with, normalized: its own when it has
/// non-blank text, else the default.
pub open spec fn spec_requested_user_agent(request: StartDownloadRequest, default_user_agent: Seq<char>) -> Result<Seq<char>, ()> {
    match request.user_agent {
        Some(ua) => if spec_trim(ua@).len() > 0 {
            spec_normalize_user_agent(spec_trim(ua@))
        } else {
            spec_normalize_user_agent(default_user_agent)
        },
        None => spec_normalize_user_agent(default_user_agent),
    }
}

/// The checks that admit a new download, in order: the URL
/// (`check_download_url`), a free HTTP slot (taken from `limits`), the user
/// agent (`resolve_user_agent`) and the destination directory
/// (`validate_destination_dir`). The first failing check gives the error;
/// the slot is given back when a check after it fails. On success the
/// slot stays taken and the user agent to use is returned.
pub fn admit_download(
    limits: &mut ConcurrencyLimits,
    request: &StartDownloadRequest,
    default_user_agent: &str,
) -> (r: Result<String, DownloadError>)
    ensures
        if !spec_url_accepted(request.url@) {
            &&& r matches Err(e) && spec_url_refused(request.url@, e)
            &&& *final(limits) == *old(limits)
        } else {
            match spec_acquire_http(*old(limits)) {
                None => r == Err::<String, DownloadError>(DownloadError::TooManyConcurrentDownloads)
                    && *final(limits) == *old(limits),
                Some(taken) => match spec_requested_user_agent(*request, default_user_agent@) {
                    Err(()) => spec_ua_result(r, Err(())) && *final(limits) == *old(limits),
                    Ok(ua) => exists|d: Result<(), DownloadError>|
                        #[trigger] spec_destination_result(request.destination_dir@, d) && match d {
                            Ok(()) => (r matches Ok(x) && x@ == ua) && *final(limits) == taken,
                            Err(e) => r == Err::<String, DownloadError>(e) && *final(limits) == *old(limits),
                        },
                },
            }
        },
{
    match check_download_url(request.url.as_str()) {
        Err(e) => return Err(e),
        Ok(()) => {},
    }
    match limits.try_acquire_http() {
        Err(e) => return Err(e),
        Ok(()) => {},
    }
    let requested: Option<&str> = match &request.user_agent {
        Some(ua) => Some(ua.as_str()),
        None => None,
    };
    let user_agent = match resolve_user_agent(requested, default_user_agent) {
        Err(e) => {
            limits.release_http();
            return Err(e);
        },
        Ok(ua) => ua,
    };
    let checked = validate_destination_dir(request.destination_dir.as_str());
    let ghost c = checked;
    match checked {
        Err(e) => {
            limits.release_http();
            assert(c == Err::<(), DownloadError>(e));
            Err(e)
        },
        Ok(u) => {
            assert(c == Ok::<(), DownloadError>(()));
            assert(spec_destination_result(request.destination_dir@, Ok::<(), DownloadError>(())));
            Ok(user_agent)
        },
    }
}

/// `name` is the file name taken from a URL for some outcome of
/// sanitizing its last path segment: that sanitized segment, or
/// `download` when there is none or it sanitizes to nothing.
pub open spec fn spec_initial_file_name(url: Seq<char>, name: Seq<char>) -> bool {
    exists|uc: Option<Seq<char>>|
        #[trigger] spec_clean_of(spec_url_segment(url), uc) && name == spec_pick_file_name(None, uc)
}

pub fn initial_file_name_from_url(url: &str) -> (r: String)
    ensures
        spec_initial_file_name(url@, r@),
        match spec_url_segment(url@) {
            Some(g) => g.len() > 0 && spec_file_name_clean(g) ==> r@ == g,
            None => true,
        },
{
    let uc: Option<String> = match parse_url(url) {
        Ok(parts) => match parts.last_segment {
            Some(seg) => Some(sanitize_file_name(seg.as_str())),
            None => None,
        },
        Err(_) => None,
    };
    let ghost ucv = opt_view(uc);
    let name = pick_file_name(None, uc);
    assert(spec_clean_of(spec_url_segment(url@), ucv) && name@ == spec_pick_file_name(None, ucv));
    name
}

/// The outcome of choosing a file name from its sanitized form: the name
/// when it is non-empty, `MissingFileName` when nothing is left.
pub open spec fn spec_name_or_missing(clean: Seq<char>, r: Result<String, DownloadError>) -> bool {
    if clean.len() > 0 {
        r matches Ok(n) && n@ == clean
    } else {
        r == Err::<String, DownloadError>(DownloadError::MissingFileName)
    }
}

/// Accepts a sanitized file name unless it is empty (`spec_name_or_missing`).
pub fn name_or_missing(clean: String) -> (r: Result<String, DownloadError>)
    ensures
        spec_name_or_missing(clean@, r),
{
    if clean.as_str().is_empty() {
        return Err(DownloadError::MissingFileName);
    }
    Ok(clean)
}

/// `chosen` is the name a request asks for: its own file name, or one
/// taken from its URL.
pub open spec fn spec_requested_name(request: StartDownloadRequest, chosen: Seq<char>) -> bool {
    match request.file_name {
        Some(n) => chosen == n@,
        None => spec_initial_file_name(request.url@, chosen),
    }
}

/// The file name of a new download: the requested one or the URL's,
/// sanitized; `MissingFileName` when nothing is left.
pub fn choose_file_name(request: &StartDownloadRequest) -> (r: Result<String, DownloadError>)
    ensures
        exists|chosen: Seq<char>, clean: Seq<char>|
            #[trigger] spec_requested_name(*request, chosen) && #[trigger] spec_sanitized_from(clean, chosen)
                && spec_name_or_missing(clean, r),
        match request.file_name {
            Some(n) => n@.len() > 0 && spec_file_name_clean(n@) ==> (r matches Ok(x) && x@ == n@),
            None => true,
        },
{
    let chosen = match &request.file_name {
        Some(n) => n.clone(),
        None => initial_file_name_from_url(request.url.as_str()),
    };
    let safe = sanitize_file_name(chosen.as_str());
    let ghost cv = chosen@;
    let ghost sv = safe@;
    let r = name_or_missing(safe);
    assert(spec_requested_name(*request, cv) && spec_sanitized_from(sv, cv) && spec_name_or_missing(sv, r));
    r
}

/// Where a new download starts: its URL, or the first mirror when the
/// request brought mirror URLs.
pub open spec fn spec_start_url(request: StartDownloadRequest) -> Seq<char> {
    match request.mirror_urls {
        Some(v) => if v@.len() > 0 { v@[0]@ } else { request.url@ },
        None => request.url@,
    }
}

/// The manifest of a new download, queued and with no progress. Fails
/// when an expected checksum comes without a checksum mode.
pub fn new_download_manifest(
    id: String,
    request: &StartDownloadRequest,
    user_agent: String,
    destination_dir: String,
    file_name: String,
    destination_path: String,
    temp_path: String,
    thread_settings: (ThreadMode, Option<usize>, Option<usize>, Option<AdaptiveProfile>),
    now: u64,
) -> (r: Result<Manifest, DownloadError>)
    ensures
        request.expected_checksum is Some && request.checksum == Some(ChecksumMode::Disabled) ==> (r matches Err(
            DownloadError::InvalidRequest(m),
        ) && m@ == "checksum_mode is required when expected_checksum is provided"@),
        !(request.expected_checksum is Some && request.checksum == Some(ChecksumMode::Disabled)) ==> (r matches Ok(m) && {
            &&& m.id == id
            &&& m.url == request.url
            &&& m.final_url@ == spec_start_url(*request)
            &&& m.user_agent == user_agent
            &&& m.destination_dir == destination_dir
            &&& m.file_name == file_name
            &&& m.file_name_locked == request.file_name is Some
            &&& m.destination_path == destination_path
            &&& m.temp_path == temp_path
            &&& m.total_bytes is None
            &&& m.downloaded_bytes == 0
            &&& !m.supports_ranges
            &&& m.chunk_size == CHUNK_SIZE
            &&& m.connection_count == 0
            &&& m.thread_mode == thread_settings.0
            &&& m.requested_thread_count == thread_settings.1
            &&& m.desired_thread_count == thread_settings.2
            &&& m.allocated_thread_count == Some(0usize)
            &&& m.adaptive_profile_snapshot == thread_settings.3
            &&& opt_view(m.thread_note) == Some("等待服务器响应"@)
            &&& m.etag is None
            &&& m.last_modified is None
            &&& m.state == DownloadState::Queued
            &&& !m.cdn_accelerated
            &&& m.checksum_mode == match request.checksum {
                Some(c) => c,
                None => ChecksumMode::Blake3,
            }
            &&& m.checksum is None
            &&& m.expected_checksum == request.expected_checksum
            &&& m.error is None
            &&& m.priority == match request.priority {
                Some(p) => p,
                None => Priority::Normal,
            }
            &&& m.created_at_ms == now
            &&& m.updated_at_ms == now
            &&& m.chunks@.len() == 0
            &&& match request.mirror_urls {
                Some(v) => if v@.len() > 0 {
                    m.mirror_urls@ == v@ && m.mirror_url == Some(v@[0])
                } else {
                    m.mirror_urls@.len() == 0 && m.mirror_url is None
                },
                None => m.mirror_urls@.len() == 0 && m.mirror_url is None,
            }
            &&& m.current_mirror_index == 0
        }),
{
    if request.expected_checksum.is_some() && request.checksum == Some(ChecksumMode::Disabled) {
        return Err(DownloadError::InvalidRequest(owned("checksum_mode is required when expected_checksum is provided")));
    }
    let mut manifest = Manifest {
        id,
        url: request.url.clone(),
        final_url: request.url.clone(),
        user_agent,
        destination_dir,
        file_name,
        file_name_locked: request.file_name.is_some(),
        destination_path,
        temp_path,
        total_bytes: None,
        downloaded_bytes: 0,
        supports_ranges: false,
        chunk_size: CHUNK_SIZE,
        connection_count: 0,
        thread_mode: thread_settings.0,
        requested_thread_count: thread_settings.1,
        desired_thread_count: thread_settings.2,
        allocated_thread_count: Some(0),
        adaptive_profile_snapshot: thread_settings.3,
        thread_note: Some(owned("等待服务器响应")),
        etag: None,
        last_modified: None,
        state: DownloadState::Queued,
        cdn_accelerated: false,
        checksum_mode: match request.checksum {
            Some(c) => c,
            None => ChecksumMode::Blake3,
        },
        checksum: None,
        expected_checksum: match &request.expected_checksum {
            Some(e) => Some(e.clone()),
            None => None,
        },
        error: None,
        priority: match request.priority {
            Some(p) => p,
            None => Priority::Normal,
        },
        created_at_ms: now,
        updated_at_ms: now,
        mirror_url: None,
        mirror_urls: Vec::new(),
        current_mirror_index: 0,
        chunks: Vec::new(),
    };
    match &request.mirror_urls {
        Some(urls) => {
            if urls.len() > 0 {
                manifest.mirror_urls = urls.clone();
                manifest.mirror_url = Some(urls[0].clone());
                manifest.final_url = urls[0].clone();
                manifest.current_mirror_index = 0;
            }
        },
        None => {},
    }
    Ok(manifest)
}

// ── Concurrency limits ───────────────────────────────────────────────

/// Slots of concurrently running downloads per protocol.
#[derive(Clone, Copy, Debug, PartialEq, Eq, Structural)]
pub struct ConcurrencyLimits {
    pub active_http_count: usize,
    pub active_bt_count: usize,
    pub max_concurrent_http: usize,
    pub max_concurrent_bt: usize,
    /// Scheduler pins adaptive tasks at their maximum thread count.
    pub overclock_mode: bool,
}

/// The limits after taking an HTTP slot; `None` when all are in use.
pub open spec fn spec_acquire_http(c: ConcurrencyLimits) -> Option<ConcurrencyLimits> {
    if c.active_http_count < c.max_concurrent_http {
        Some(ConcurrencyLimits { active_http_count: (c.active_http_count + 1) as usize, ..c })
    } else {
        None
    }
}

/// The limits after taking a BT slot; `None` when all are in use.
pub open spec fn spec_acquire_bt(c: ConcurrencyLimits) -> Option<ConcurrencyLimits> {
    if c.active_bt_count < c.max_concurrent_bt {
        Some(ConcurrencyLimits { active_bt_count: (c.active_bt_count + 1) as usize, ..c })
    } else {
        None
    }
}

/// The limits after an HTTP slot is given back (never below zero).
pub open spec fn spec_release_http(c: ConcurrencyLimits) -> ConcurrencyLimits {
    ConcurrencyLimits {
        active_http_count: if c.active_http_count > 0 { (c.active_http_count - 1) as usize } else { 0 },
        ..c
    }
}

/// The limits after a BT slot is given back (never below zero).
pub open spec fn spec_release_bt(c: ConcurrencyLimits) -> ConcurrencyLimits {
    ConcurrencyLimits {
        active_bt_count: if c.active_bt_count > 0 { (c.active_bt_count - 1) as usize } else { 0 },
        ..c
    }
}

/// Slots: a slot that was taken and given back leaves the limits as they
/// were; taking a slot never brings the count above the maximum; and a
/// slot is refused exactly when all are in use.
pub proof fn lemma_slot_laws(c: ConcurrencyLimits)
    ensures
        spec_acquire_http(c) matches Some(a) ==> spec_release_http(a) == c && a.active_http_count
            <= a.max_concurrent_http,
        spec_acquire_bt(c) matches Some(a) ==> spec_release_bt(a) == c && a.active_bt_count <= a.max_concurrent_bt,
        spec_acquire_http(c) is None <==> c.active_http_count >= c.max_concurrent_http,
        spec_acquire_bt(c) is None <==> c.active_bt_count >= c.max_concurrent_bt,
{
}

impl ConcurrencyLimits {
    /// No running downloads, at most `max_http` HTTP and `max_bt` BT ones.
    pub fn new(max_http: usize, max_bt: usize) -> (c: ConcurrencyLimits)
        ensures
            c == (ConcurrencyLimits {
                active_http_count: 0,
                active_bt_count: 0,
                max_concurrent_http: max_http,
                max_concurrent_bt: max_bt,
                overclock_mode: false,
            }),
    {
        ConcurrencyLimits {
            active_http_count: 0,
            active_bt_count: 0,
            max_concurrent_http: max_http,
            max_concurrent_bt: max_bt,
            overclock_mode: false,
        }
    }

    /// The limits the download manager starts with: 5 HTTP and 3 BT downloads.
    pub fn initial() -> (c: ConcurrencyLimits)
        ensures
            c == (ConcurrencyLimits {
                active_http_count: 0,
                active_bt_count: 0,
                max_concurrent_http: 5,
                max_concurrent_bt: 3,
                overclock_mode: false,
            }),
    {
        ConcurrencyLimits::new(5, 3)
    }

    /// Applies new maximums (from the settings' download limits).
    pub fn update_limits(&mut self, max_http: usize, max_bt: usize)
        ensures
            *final(self) == (ConcurrencyLimits {
                max_concurrent_http: max_http,
                max_concurrent_bt: max_bt,
                ..*old(self)
            }),
    {
        self.max_concurrent_http = max_http;
        self.max_concurrent_bt = max_bt;
    }

    /// Takes an HTTP slot when fewer than the maximum are in use.
    pub fn try_acquire_http(&mut self) -> (r: Result<(), DownloadError>)
        ensures
            match spec_acquire_http(*old(self)) {
                Some(next) => r is Ok && *final(self) == next,
                None => r == Err::<(), DownloadError>(DownloadError::TooManyConcurrentDownloads)
                    && *final(self) == *old(self),
            },
    {
        if self.active_http_count >= self.max_concurrent_http {
            return Err(DownloadError::TooManyConcurrentDownloads);
        }
        self.active_http_count = self.active_http_count + 1;
        Ok(())
    }

    /// Takes a BT slot when fewer than the maximum are in use.
    pub fn try_acquire_bt(&mut self) -> (r: Result<(), DownloadError>)
        ensures
            match spec_acquire_bt(*old(self)) {
                Some(next) => r is Ok && *final(self) == next,
                None => r == Err::<(), DownloadError>(DownloadError::TooManyConcurrentDownloads)
                    && *final(self) == *old(self),
            },
    {
        if self.active_bt_count >= self.max_concurrent_bt {
            return Err(DownloadError::TooManyConcurrentDownloads);
        }
        self.active_bt_count = self.active_bt_count + 1;
        Ok(())
    }

    /// Gives back an HTTP slot (a finished download dropped its guard).
    pub fn release_http(&mut self)
        ensures
            *final(self) == spec_release_http(*old(self)),
    {
        if self.active_http_count > 0 {
            self.active_http_count = self.active_http_count - 1;
        }
    }

    /// Gives back a BT slot.
    pub fn release_bt(&mut self)
        ensures
            *final(self) == spec_release_bt(*old(self)),
    {
        if self.active_bt_count > 0 {
            self.active_bt_count = self.active_bt_count - 1;
        }
    }

    /// Sets overclock mode, or flips it when no value is given; returns the new mode.
    pub fn toggle_overclock_mode(&mut self, enabled: Option<bool>) -> (r: bool)
        ensures
            r == match enabled {
                Some(e) => e,
                None => !old(self).overclock_mode,
            },
            *final(self) == (ConcurrencyLimits { overclock_mode: r, ..*old(self) }),
    {
        let next = match enabled {
            Some(e) => e,
            None => !self.overclock_mode,
        };
        self.overclock_mode = next;
        next
    }
}

// ── State directories ────────────────────────────────────────────────

/// Where a download manager keeps its state.
pub struct StateDirs {
    /// Directory of temporary files and the database (`<data>/downloads`).
    pub state_dir: String,
    /// The settings file, `settings.json` next to the state directory.
    pub settings_path: String,
}

impl StateDirs {
    /// The state directory.
    pub fn state_dir(&self) -> (r: &String)
        ensures
            *r == self.state_dir,
    {
        &self.state_dir
    }
}

// ── Clock ────────────────────────────────────────────────────────────

/// Reads `std::time::SystemTime::now().duration_since(UNIX_EPOCH)` as whole
/// seconds and sub-second nanoseconds; `None` when the clock is before the
/// epoch. The time is the machine's, so only the documented range of the
/// nanoseconds is claimed.
#[verifier::external_body]
fn time_since_epoch() -> (r: Option<(u64, u32)>)
    ensures
        r matches Some((_, nanos)) ==> nanos < 1000000000,
{
    match std::time::SystemTime::now().duration_since(std::time::UNIX_EPOCH) {
        Ok(d) => Some((d.as_secs(), d.subsec_nanos())),
        Err(_) => None,
    }
}

/// Milliseconds of a duration given as seconds and nanoseconds, truncated
/// to 64 bits as `Duration::as_millis() as u64` does.
pub open spec fn spec_millis(secs: u64, nanos: u32) -> u64 {
    ((secs as int * 1000 + nanos as int / 1000000) % 0x1_0000_0000_0000_0000) as u64
}

pub fn millis_of(secs: u64, nanos: u32) -> (r: u64)
    ensures
        r == spec_millis(secs, nanos),
{
    let total: u128 = (secs as u128) * 1000 + (nanos as u128) / 1000000;
    let r = (total % 0x1_0000_0000_0000_0000u128) as u64;
    r
}

/// Milliseconds of a clock reading: `spec_millis` of the time since the
/// epoch, or 0 when the clock was before the epoch (`None`).
pub open spec fn spec_millis_since_epoch(t: Option<(u64, u32)>) -> u64 {
    match t {
        Some((secs, nanos)) => spec_millis(secs, nanos),
        None => 0,
    }
}

/// Milliseconds of a clock reading (`spec_millis_since_epoch`).
pub fn millis_since_epoch(t: Option<(u64, u32)>) -> (r: u64)
    ensures
        r == spec_millis_since_epoch(t),
{
    match t {
        Some((secs, nanos)) => millis_of(secs, nanos),
        None => 0,
    }
}

/// Milliseconds since the Unix epoch (0 when the clock is before it): the
/// clock is read once and `millis_since_epoch` converts the reading. The
/// reading itself is the machine's time, so the result is stated as the
/// conversion of some reading whose nanoseconds are below one second.
pub fn now_ms() -> (r: u64)
    ensures
        exists|t: Option<(u64, u32)>|
            #![trigger spec_millis_since_epoch(t)]
            (t matches Some((_, nanos)) ==> nanos < 1000000000) && r == spec_millis_since_epoch(t),
{
    let t = time_since_epoch();
    let r = millis_since_epoch(t);
    assert((t matches Some((_, nanos)) ==> nanos < 1000000000) && r == spec_millis_since_epoch(t));
    r
}

} // verus!
