//! The persisted description of an HTTP download (its manifest), the chunk
//! plan that splits a file into ranges, and views derived from both.
use vstd::prelude::*;

use crate::types::{
    AdaptiveProfile, ChecksumMode, ChunkInfo, ChunkSizeStrategy, DownloadSnapshot, DownloadState,
    Priority, TaskKind, ThreadMode,
};

verus! {

/// Default chunk size: 4 MiB.
pub const CHUNK_SIZE: u64 = 4194304;

/// Full state of one HTTP download, as persisted between runs.
#[derive(Clone, Debug)]
pub struct Manifest {
    pub id: String,
    pub url: String,
    pub final_url: String,
    pub user_agent: String,
    pub destination_dir: String,
    pub file_name: String,
    pub file_name_locked: bool,
    pub destination_path: String,
    pub temp_path: String,
    pub total_bytes: Option<u64>,
    pub downloaded_bytes: u64,
    pub supports_ranges: bool,
    pub chunk_size: u64,
    pub connection_count: usize,
    pub thread_mode: ThreadMode,
    pub requested_thread_count: Option<usize>,
    pub desired_thread_count: Option<usize>,
    pub allocated_thread_count: Option<usize>,
    pub adaptive_profile_snapshot: Option<AdaptiveProfile>,
    pub thread_note: Option<String>,
    pub etag: Option<String>,
    pub last_modified: Option<String>,
    pub state: DownloadState,
    pub cdn_accelerated: bool,
    pub checksum_mode: ChecksumMode,
    pub checksum: Option<String>,
    pub expected_checksum: Option<String>,
    pub error: Option<String>,
    pub priority: Priority,
    pub created_at_ms: u64,
    pub updated_at_ms: u64,
    pub mirror_url: Option<String>,
    pub mirror_urls: Vec<String>,
    pub current_mirror_index: usize,
    pub chunks: Vec<ChunkManifest>,
}

/// Serde default for `file_name_locked`.
pub fn default_true() -> (b: bool)
    ensures
        b,
{
    true
}

/// Serde default for `chunk_size`.
pub fn default_chunk_size() -> (c: u64)
    ensures
        c == CHUNK_SIZE,
{
    CHUNK_SIZE
}

/// One byte range `[start, end]` of a download and its progress.
/// `dirty` marks a chunk changed since the last incremental persist.
#[derive(Clone, Copy, Debug, PartialEq, Eq, Structural)]
pub struct ChunkManifest {
    pub index: usize,
    pub start: u64,
    pub end: u64,
    pub downloaded: u64,
    pub completed: bool,
    pub claimed_by: Option<usize>,
    pub dirty: bool,
}

/// What a probe of the remote server reported.
#[derive(Clone, Debug)]
pub struct RemoteMetadata {
    pub final_url: String,
    pub file_name: String,
    pub total_bytes: Option<u64>,
    pub etag: Option<String>,
    pub last_modified: Option<String>,
    pub supports_ranges: bool,
}

// ── Chunk planning ───────────────────────────────────────────────────

/// The chunk size actually used for a requested size (0 selects the default).
pub open spec fn spec_effective_chunk_size(chunk_size: u64) -> u64 {
    if chunk_size == 0 { CHUNK_SIZE } else { chunk_size }
}

/// The `i`-th chunk of the plan for a file of `total` bytes cut every `c` bytes.
pub open spec fn spec_planned_chunk(i: int, total: u64, c: u64) -> ChunkManifest {
    let start = i * c;
    let natural_end = start + c - 1;
    ChunkManifest {
        index: i as usize,
        start: start as u64,
        end: (if natural_end < total - 1 { natural_end } else { total - 1 }) as u64,
        downloaded: 0,
        completed: false,
        claimed_by: None,
        dirty: false,
    }
}

/// Cutting `total` bytes every `c` bytes never computes an end offset beyond
/// `u64::MAX`, and the number of chunks fits in a `usize`.
pub open spec fn spec_plan_fits(total: u64, c: u64) -> bool {
    total == 0 || (((total - 1) / (c as int)) * c + c - 1 <= u64::MAX && (total - 1) / (c as int) < usize::MAX)
}

/// `chunks` is exactly the plan for `total` bytes with chunk size `c`.
pub open spec fn spec_is_chunk_plan(chunks: Seq<ChunkManifest>, total: u64, c: u64) -> bool {
    &&& chunks.len() * c >= total
    &&& (chunks.len() == 0 || (chunks.len() - 1) * c < total)
    &&& forall|i: int| 0 <= i < chunks.len() ==> #[trigger] chunks[i] == spec_planned_chunk(i, total, c)
}

proof fn lemma_mul_step(i: int, c: int)
    ensures
        (i + 1) * c == i * c + c,
{
    assert((i + 1) * c == i * c + c) by (nonlinear_arith);
}

proof fn lemma_plan_fits_at(total: u64, c: u64, i: int)
    requires
        c > 0,
        0 <= i,
        i * c < total,
        spec_plan_fits(total, c),
    ensures
        i * c + c - 1 <= u64::MAX,
        i < usize::MAX,
{
    let q = (total - 1) / (c as int);
    assert(i <= q) by (nonlinear_arith)
        requires
            i * c < total,
            c > 0,
            q == (total - 1) / (c as int),
            i >= 0,
    ;
    assert(i * c <= q * c) by (nonlinear_arith)
        requires
            i <= q,
            c > 0,
    ;
}

/// A chunk plan partitions the file: the chunks follow one another with
/// no gap or overlap from byte 0 to the last byte, each holds at least one
/// and at most `c` bytes, and an empty file has no chunks.
pub proof fn lemma_chunk_plan_partition(chunks: Seq<ChunkManifest>, total: u64, c: u64)
    requires
        c > 0,
        spec_plan_fits(total, c),
        spec_is_chunk_plan(chunks, total, c),
    ensures
        total == 0 <==> chunks.len() == 0,
        chunks.len() > 0 ==> chunks[0].start == 0 && chunks.last().end == total - 1,
        forall|i: int| 0 <= i < chunks.len() - 1 ==> #[trigger] chunks[i].end + 1 == chunks[i + 1].start,
        forall|i: int| 0 <= i < chunks.len() ==> #[trigger] chunks[i].start <= chunks[i].end
            && chunks[i].end - chunks[i].start < c && chunks[i].index == i,
{
    let n = chunks.len() as int;
    if total == 0 {
        if n > 0 {
            assert((n - 1) * c >= 0) by (nonlinear_arith)
                requires
                    n >= 1,
                    c > 0,
            ;
        }
    } else {
        assert(n > 0) by {
            if n == 0 {
                assert(n * c == 0) by (nonlinear_arith)
                    requires
                        n == 0,
                ;
            }
        }
    }
    assert forall|i: int| 0 <= i < n implies #[trigger] chunks[i].start <= chunks[i].end
        && chunks[i].end - chunks[i].start < c && chunks[i].index == i by {
        assert(i * c <= (n - 1) * c) by (nonlinear_arith)
            requires
                i <= n - 1,
                c > 0,
        ;
        lemma_plan_fits_at(total, c, i);
        lemma_plan_fits_at(total, c, (n - 1));
    }
    assert forall|i: int| 0 <= i < n - 1 implies #[trigger] chunks[i].end + 1 == chunks[i + 1].start by {
        lemma_mul_step(i, c as int);
        assert((i + 1) * c <= (n - 1) * c) by (nonlinear_arith)
            requires
                i + 1 <= n - 1,
                c > 0,
        ;
        lemma_plan_fits_at(total, c, i);
        lemma_plan_fits_at(total, c, i + 1);
    }
    if n > 0 {
        lemma_mul_step(n - 1, c as int);
        lemma_plan_fits_at(total, c, n - 1);
        assert(chunks[0] == spec_planned_chunk(0, total, c));
        assert(0 * c == 0) by (nonlinear_arith);
        assert(chunks[n - 1] == spec_planned_chunk(n - 1, total, c));
    }
}

/// Splits a download of `total` bytes into consecutive chunks of
/// `chunk_size` bytes (0 selects `CHUNK_SIZE`). Returns no chunks when the
/// server does not accept ranges or the size is unknown.
pub fn plan_chunks(total: Option<u64>, supports_ranges: bool, chunk_size: u64) -> (chunks: Vec<ChunkManifest>)
    requires
        supports_ranges && total is Some ==> spec_plan_fits(total->0, spec_effective_chunk_size(chunk_size)),
    ensures
        !supports_ranges || total is None ==> chunks@.len() == 0,
        supports_ranges && total is Some ==> spec_is_chunk_plan(
            chunks@,
            total->0,
            spec_effective_chunk_size(chunk_size),
        ),
{
    if !supports_ranges {
        return Vec::new();
    }
    let total = match total {
        Some(t) => t,
        None => return Vec::new(),
    };
    let chunk_size = if chunk_size == 0 { CHUNK_SIZE } else { chunk_size };
    let mut chunks: Vec<ChunkManifest> = Vec::new();
    let mut start: u64 = 0;
    let mut index: usize = 0;
    while start < total
        invariant
            chunk_size > 0,
            spec_plan_fits(total, chunk_size),
            chunks@.len() == index,
            start as int == index * chunk_size || (start == total && index > 0 && (index - 1) * chunk_size < total),
            start <= total,
            index * chunk_size >= start,
            index > 0 ==> (index - 1) * chunk_size < total,
            forall|i: int| 0 <= i < index ==> #[trigger] chunks@[i] == spec_planned_chunk(i, total, chunk_size),
        decreases total - start,
    {
        proof {
            lemma_plan_fits_at(total, chunk_size, index as int);
            lemma_mul_step(index as int, chunk_size as int);
        }
        assert(start as int == index * chunk_size);
        let natural_end = start + (chunk_size - 1);
        let end = if natural_end < total - 1 { natural_end } else { total - 1 };
        chunks.push(ChunkManifest {
            index,
            start,
            end,
            downloaded: 0,
            completed: false,
            claimed_by: None,
            dirty: false,
        });
        index = index + 1;
        start = end + 1;
    }
    chunks
}

/// Chunk size picked by the adaptive strategy for a file of `total` bytes.
pub open spec fn spec_adaptive_chunk_size(total: u64) -> u64 {
    if total <= 268435456 {
        4194304
    } else if total < 4294967296 {
        8388608
    } else {
        16777216
    }
}

const MIB: u64 = 1048576;

const GIB: u64 = 1073741824;

/// Adaptive chunk size: 4 MiB up to 256 MiB, 8 MiB below 4 GiB, 16 MiB beyond.
pub fn adaptive_chunk_size(total: u64) -> (c: u64)
    ensures
        c == spec_adaptive_chunk_size(total),
{
    if total <= 256 * MIB {
        4 * MIB
    } else if total < 4 * GIB {
        8 * MIB
    } else {
        16 * MIB
    }
}

pub open spec fn spec_resolve_chunk_size(strategy: ChunkSizeStrategy, total: Option<u64>) -> u64 {
    match strategy {
        ChunkSizeStrategy::Fixed => CHUNK_SIZE,
        ChunkSizeStrategy::Adaptive => match total {
            Some(t) => spec_adaptive_chunk_size(t),
            None => CHUNK_SIZE,
        },
    }
}

/// Chunk size for a strategy and an optionally known file size.
pub fn resolve_chunk_size(strategy: ChunkSizeStrategy, total: Option<u64>) -> (c: u64)
    ensures
        c == spec_resolve_chunk_size(strategy, total),
{
    match strategy {
        ChunkSizeStrategy::Fixed => CHUNK_SIZE,
        ChunkSizeStrategy::Adaptive => match total {
            Some(t) => adaptive_chunk_size(t),
            None => CHUNK_SIZE,
        },
    }
}

// ── Snapshots ────────────────────────────────────────────────────────

/// The frontend view of one chunk.
pub open spec fn spec_chunk_info(c: ChunkManifest) -> ChunkInfo {
    ChunkInfo {
        index: c.index,
        start: c.start,
        end: c.end,
        downloaded: c.downloaded,
        completed: c.completed,
        claimed_by: c.claimed_by,
    }
}

pub fn chunk_info_of(c: &ChunkManifest) -> (info: ChunkInfo)
    ensures
        info == spec_chunk_info(*c),
{
    ChunkInfo {
        index: c.index,
        start: c.start,
        end: c.end,
        downloaded: c.downloaded,
        completed: c.completed,
        claimed_by: c.claimed_by,
    }
}

/// The frontend views of a list of chunks, in order.
pub fn chunk_infos(chunks: &Vec<ChunkManifest>) -> (infos: Vec<ChunkInfo>)
    ensures
        infos@ == chunks@.map_values(|c: ChunkManifest| spec_chunk_info(c)),
{
    let mut infos: Vec<ChunkInfo> = Vec::new();
    let mut i: usize = 0;
    while i < chunks.len()
        invariant
            i <= chunks@.len(),
            infos@ == chunks@.take(i as int).map_values(|c: ChunkManifest| spec_chunk_info(c)),
        decreases chunks@.len() - i,
    {
        infos.push(chunk_info_of(&chunks[i]));
        assert(chunks@.take(i + 1) == chunks@.take(i as int).push(chunks@[i as int]));
        i = i + 1;
    }
    assert(chunks@.take(chunks@.len() as int) == chunks@);
    infos
}

/// Copy of an optional string with the same contents.
pub fn clone_opt_string(s: &Option<String>) -> (r: Option<String>)
    ensures
        r == *s,
{
    match s {
        Some(v) => Some(v.clone()),
        None => None,
    }
}

/// Builds the frontend snapshot of a manifest. Live-only fields (speed,
/// peers, disk type, ...) start empty.
pub fn snapshot_from_manifest(manifest: &Manifest) -> (s: DownloadSnapshot)
    ensures
        s.id == manifest.id,
        s.kind == TaskKind::Http,
        s.state == manifest.state,
        s.url == manifest.url,
        s.final_url == manifest.final_url,
        s.file_name == manifest.file_name,
        s.destination_path == manifest.destination_path,
        s.temp_path == manifest.temp_path,
        s.total_bytes == manifest.total_bytes,
        s.downloaded_bytes == manifest.downloaded_bytes,
        s.supports_ranges == manifest.supports_ranges,
        s.connection_count == manifest.connection_count,
        s.thread_mode == manifest.thread_mode,
        s.requested_thread_count == manifest.requested_thread_count,
        s.desired_thread_count == manifest.desired_thread_count,
        s.allocated_thread_count == manifest.allocated_thread_count,
        s.adaptive_profile == manifest.adaptive_profile_snapshot,
        s.thread_note == manifest.thread_note,
        s.checksum == manifest.checksum,
        s.checksum_mode == manifest.checksum_mode,
        s.etag == manifest.etag,
        s.last_modified == manifest.last_modified,
        s.error == manifest.error,
        s.speed_bytes_per_second is None,
        s.eta_seconds is None,
        s.uploaded_bytes is None,
        s.upload_speed_bytes_per_second is None,
        s.peer_count is None,
        s.upload_status is None,
        s.info_hash is None,
        s.created_at_ms == manifest.created_at_ms,
        s.updated_at_ms == manifest.updated_at_ms,
        s.priority == manifest.priority,
        s.cdn_accelerated == manifest.cdn_accelerated,
        s.mirror_url == manifest.mirror_url,
        s.chunks@ == manifest.chunks@.map_values(|c: ChunkManifest| spec_chunk_info(c)),
        s.seed_count is None,
        s.leech_count is None,
        s.download_limit_bps is None,
        s.upload_limit_bps is None,
        !s.degraded,
        s.disk_type is None,
        !s.flushing,
{
    DownloadSnapshot {
        id: manifest.id.clone(),
        kind: TaskKind::Http,
        state: manifest.state,
        url: manifest.url.clone(),
        final_url: manifest.final_url.clone(),
        file_name: manifest.file_name.clone(),
        destination_path: manifest.destination_path.clone(),
        temp_path: manifest.temp_path.clone(),
        total_bytes: manifest.total_bytes,
        downloaded_bytes: manifest.downloaded_bytes,
        supports_ranges: manifest.supports_ranges,
        connection_count: manifest.connection_count,
        thread_mode: manifest.thread_mode,
        requested_thread_count: manifest.requested_thread_count,
        desired_thread_count: manifest.desired_thread_count,
        allocated_thread_count: manifest.allocated_thread_count,
        adaptive_profile: manifest.adaptive_profile_snapshot,
        thread_note: clone_opt_string(&manifest.thread_note),
        checksum: clone_opt_string(&manifest.checksum),
        checksum_mode: manifest.checksum_mode,
        etag: clone_opt_string(&manifest.etag),
        last_modified: clone_opt_string(&manifest.last_modified),
        error: clone_opt_string(&manifest.error),
        speed_bytes_per_second: None,
        eta_seconds: None,
        uploaded_bytes: None,
        upload_speed_bytes_per_second: None,
        peer_count: None,
        upload_status: None,
        info_hash: None,
        created_at_ms: manifest.created_at_ms,
        updated_at_ms: manifest.updated_at_ms,
        priority: manifest.priority,
        cdn_accelerated: manifest.cdn_accelerated,
        mirror_url: clone_opt_string(&manifest.mirror_url),
        chunks: chunk_infos(&manifest.chunks),
        seed_count: None,
        leech_count: None,
        download_limit_bps: None,
        upload_limit_bps: None,
        degraded: false,
        disk_type: None,
        flushing: false,
    }
}

// ── Resume checks ────────────────────────────────────────────────────

/// Two optional validators disagree: both present with different contents.
pub open spec fn spec_both_differ(a: Option<String>, b: Option<String>) -> bool {
    a is Some && b is Some && a->0@ != b->0@
}

/// The server's ETag (or, when either side lacks one, its Last-Modified)
/// differs from the one recorded when the download began.
pub open spec fn spec_validators_changed(m_etag: Option<String>, m_lm: Option<String>, r_etag: Option<String>, r_lm: Option<String>) -> bool {
    if m_etag is Some && r_etag is Some {
        m_etag->0@ != r_etag->0@
    } else {
        spec_both_differ(m_lm, r_lm)
    }
}

fn opt_strings_differ(a: &Option<String>, b: &Option<String>) -> (r: bool)
    ensures
        r == spec_both_differ(*a, *b),
{
    match (a, b) {
        (Some(left), Some(right)) => !(*left == *right),
        _ => false,
    }
}

/// Whether the remote file changed since the download began, judged by
/// ETag first and Last-Modified second.
pub fn validators_changed(manifest: &Manifest, metadata: &RemoteMetadata) -> (r: bool)
    ensures
        r == spec_validators_changed(manifest.etag, manifest.last_modified, metadata.etag, metadata.last_modified),
{
    match (&manifest.etag, &metadata.etag) {
        (Some(left), Some(right)) => !(*left == *right),
        _ => opt_strings_differ(&manifest.last_modified, &metadata.last_modified),
    }
}

/// Some chunk has received bytes but is not finished.
pub open spec fn spec_has_partial_chunk_progress(chunks: Seq<ChunkManifest>) -> bool {
    exists|i: int| 0 <= i < chunks.len() && #[trigger] chunks[i].downloaded > 0 && !chunks[i].completed
}

pub fn has_partial_chunk_progress(manifest: &Manifest) -> (r: bool)
    ensures
        r == spec_has_partial_chunk_progress(manifest.chunks@),
{
    let mut i: usize = 0;
    while i < manifest.chunks.len()
        invariant
            i <= manifest.chunks@.len(),
            forall|j: int| 0 <= j < i ==> !(#[trigger] manifest.chunks@[j].downloaded > 0 && !manifest.chunks@[j].completed),
        decreases manifest.chunks@.len() - i,
    {
        if manifest.chunks[i].downloaded > 0 && !manifest.chunks[i].completed {
            return true;
        }
        i = i + 1;
    }
    false
}

/// `e + 1`, saturating at `u64::MAX`.
pub open spec fn spec_succ_sat(e: u64) -> u64 {
    if e == u64::MAX { u64::MAX } else { (e + 1) as u64 }
}

/// End of the completed prefix that starts at byte `pos` with chunk `i`:
/// walks chunks in order while each one starts where the last ended and is complete.
pub open spec fn spec_prefix_end_from(chunks: Seq<ChunkManifest>, i: int, pos: u64) -> u64
    decreases chunks.len() - i,
{
    if i < 0 || i >= chunks.len() || chunks[i].start != pos || !chunks[i].completed {
        pos
    } else {
        spec_prefix_end_from(chunks, i + 1, spec_succ_sat(chunks[i].end))
    }
}

pub open spec fn spec_contiguous_prefix_end(chunks: Seq<ChunkManifest>, downloaded_bytes: u64) -> u64 {
    if chunks.len() == 0 { downloaded_bytes } else { spec_prefix_end_from(chunks, 0, 0) }
}

/// The byte offset up to which the file is known to be complete without
/// gaps; a single-stream download resumes from here.
pub fn contiguous_prefix_end(manifest: &Manifest) -> (r: u64)
    ensures
        r == spec_contiguous_prefix_end(manifest.chunks@, manifest.downloaded_bytes),
{
    if manifest.chunks.len() == 0 {
        return manifest.downloaded_bytes;
    }
    let mut expected_start: u64 = 0;
    let mut i: usize = 0;
    while i < manifest.chunks.len()
        invariant
            i <= manifest.chunks@.len(),
            spec_prefix_end_from(manifest.chunks@, i as int, expected_start)
                == spec_prefix_end_from(manifest.chunks@, 0, 0),
        decreases manifest.chunks@.len() - i,
    {
        let chunk = &manifest.chunks[i];
        if chunk.start != expected_start || !chunk.completed {
            return expected_start;
        }
        expected_start = chunk.end.saturating_add(1);
        i = i + 1;
    }
    expected_start
}


// ── Laws of resuming ─────────────────────────────────────────────────

/// Byte `x` lies in a completed chunk of the list.
pub open spec fn spec_byte_done(chunks: Seq<ChunkManifest>, x: int) -> bool {
    exists|i: int| 0 <= i < chunks.len() && #[trigger] chunks[i].completed && chunks[i].start <= x <= chunks[i].end
}

proof fn lemma_prefix_from_covers(chunks: Seq<ChunkManifest>, i: int, pos: u64)
    requires
        forall|x: int| 0 <= x < pos ==> spec_byte_done(chunks, x),
    ensures
        forall|x: int| 0 <= x < spec_prefix_end_from(chunks, i, pos) ==> spec_byte_done(chunks, x),
    decreases chunks.len() - i,
{
    if i < 0 || i >= chunks.len() || chunks[i].start != pos || !chunks[i].completed {
    } else {
        let next = spec_succ_sat(chunks[i].end);
        assert forall|x: int| 0 <= x < next implies spec_byte_done(chunks, x) by {
            if x >= pos {
                assert(chunks[i].completed && chunks[i].start <= x <= chunks[i].end);
            }
        }
        lemma_prefix_from_covers(chunks, i + 1, next);
    }
}

/// A resume never skips unfinished bytes: every byte below the resume
/// offset of a chunked download lies in a completed chunk.
pub proof fn lemma_resume_offset_is_done(chunks: Seq<ChunkManifest>, downloaded_bytes: u64)
    requires
        chunks.len() > 0,
    ensures
        forall|x: int| 0 <= x < spec_contiguous_prefix_end(chunks, downloaded_bytes) ==> spec_byte_done(chunks, x),
{
    lemma_prefix_from_covers(chunks, 0, 0);
}

/// The chunks lie end to end from byte 0, without hitting the top of the
/// offset range.
pub open spec fn spec_end_to_end(chunks: Seq<ChunkManifest>) -> bool {
    &&& chunks.len() > 0
    &&& chunks[0].start == 0
    &&& forall|j: int| 0 <= j < chunks.len() ==> #[trigger] chunks[j].end < u64::MAX
    &&& forall|j: int| 0 <= j < chunks.len() - 1 ==> #[trigger] chunks[j + 1].start == chunks[j].end + 1
}

proof fn lemma_prefix_from_layout(chunks: Seq<ChunkManifest>, i: int)
    requires
        spec_end_to_end(chunks),
        0 <= i < chunks.len(),
        forall|j: int| 0 <= j < i ==> (#[trigger] chunks[j]).completed,
    ensures
        ({
            let r = spec_prefix_end_from(chunks, i, chunks[i].start);
            &&& (forall|k: int| i <= k < chunks.len() && !chunks[k].completed
                && (forall|j: int| i <= j < k ==> (#[trigger] chunks[j]).completed) ==> r == chunks[k].start)
            &&& ((forall|j: int| i <= j < chunks.len() ==> (#[trigger] chunks[j]).completed) ==> r == chunks.last().end + 1)
        }),
    decreases chunks.len() - i,
{
    if !chunks[i].completed {
    } else if i + 1 < chunks.len() {
        assert(chunks[i + 1].start == chunks[i].end + 1);
        lemma_prefix_from_layout(chunks, i + 1);
        assert forall|k: int| i <= k < chunks.len() && !chunks[k].completed
            && (forall|j: int| i <= j < k ==> (#[trigger] chunks[j]).completed)
            implies spec_prefix_end_from(chunks, i, chunks[i].start) == chunks[k].start by {
            assert(k != i);
            assert forall|j: int| i + 1 <= j < k implies (#[trigger] chunks[j]).completed by {}
        }
    } else {
        assert(spec_prefix_end_from(chunks, i + 1, spec_succ_sat(chunks[i].end)) == spec_succ_sat(chunks[i].end));
    }
}

/// For chunks laid end to end from byte 0 (as a chunk plan lays them), a
/// single stream resumes at the start of the first unfinished chunk, or
/// after the last chunk when all are finished.
pub proof fn lemma_resume_offset_of_layout(chunks: Seq<ChunkManifest>, downloaded_bytes: u64)
    requires
        spec_end_to_end(chunks),
    ensures
        forall|k: int| 0 <= k < chunks.len() && !chunks[k].completed
            && (forall|j: int| 0 <= j < k ==> (#[trigger] chunks[j]).completed)
            ==> spec_contiguous_prefix_end(chunks, downloaded_bytes) == chunks[k].start,
        (forall|j: int| 0 <= j < chunks.len() ==> (#[trigger] chunks[j]).completed)
            ==> spec_contiguous_prefix_end(chunks, downloaded_bytes) == chunks.last().end + 1,
{
    lemma_prefix_from_layout(chunks, 0);
}

/// Validators that did not change never count as a change: the same ETag
/// and Last-Modified on both sides mean the saved progress is valid.
pub proof fn lemma_same_validators_unchanged(etag: Option<String>, last_modified: Option<String>)
    ensures
        !spec_validators_changed(etag, last_modified, etag, last_modified),
{
}

/// When both sides carry an ETag, the remote file changed exactly when
/// the ETags differ, whatever Last-Modified says; when either lacks one,
/// it changed exactly when both carry a Last-Modified and these differ.
pub proof fn lemma_validators_changed_by_etag(
    m_etag: Option<String>,
    m_lm: Option<String>,
    r_etag: Option<String>,
    r_lm: Option<String>,
)
    ensures
        m_etag is Some && r_etag is Some ==> spec_validators_changed(m_etag, m_lm, r_etag, r_lm)
            == (m_etag->0@ != r_etag->0@),
        !(m_etag is Some && r_etag is Some) ==> spec_validators_changed(m_etag, m_lm, r_etag, r_lm)
            == (m_lm is Some && r_lm is Some && m_lm->0@ != r_lm->0@),
        spec_validators_changed(m_etag, m_lm, r_etag, r_lm) == spec_validators_changed(r_etag, r_lm, m_etag, m_lm),
{
}

/// The adaptive strategy sizes chunks by the file: a file of unknown size
/// or of at most 256 MiB gets the fixed 4 MiB chunks, a file below 4 GiB
/// chunks twice that size, and a larger file chunks four times that size;
/// the fixed strategy always gets 4 MiB. Larger files never get smaller
/// chunks.
pub proof fn lemma_chunk_size_by_strategy(total: u64, other: u64)
    ensures
        spec_resolve_chunk_size(ChunkSizeStrategy::Fixed, Some(total)) == CHUNK_SIZE,
        spec_resolve_chunk_size(ChunkSizeStrategy::Fixed, None) == CHUNK_SIZE,
        spec_resolve_chunk_size(ChunkSizeStrategy::Adaptive, None) == CHUNK_SIZE,
        total <= 256 * 1048576 ==> spec_resolve_chunk_size(ChunkSizeStrategy::Adaptive, Some(total)) == CHUNK_SIZE,
        256 * 1048576 < total < 4 * 1073741824 ==> spec_resolve_chunk_size(ChunkSizeStrategy::Adaptive, Some(total))
            == 2 * CHUNK_SIZE,
        4 * 1073741824 <= total ==> spec_resolve_chunk_size(ChunkSizeStrategy::Adaptive, Some(total)) == 4 * CHUNK_SIZE,
        spec_resolve_chunk_size(ChunkSizeStrategy::Adaptive, Some(total)) == spec_adaptive_chunk_size(total),
        total <= other ==> spec_resolve_chunk_size(ChunkSizeStrategy::Adaptive, Some(total))
            <= spec_resolve_chunk_size(ChunkSizeStrategy::Adaptive, Some(other)),
{
}
} // verus!
