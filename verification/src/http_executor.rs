//! Decisions of the HTTP download runs: which chunk a worker takes, how
//! the tail of a download is sped up, when a stream has overrun its range,
//! and how a run records pausing, failing and finishing.
use vstd::prelude::*;

use crate::error::DownloadError;
use crate::http::{sanitize_file_name, spec_sanitized_from, spec_segment_check, validate_segment_response};
use crate::manager::{
    cancellation_chunk_outcome, cancellation_outcome, spec_sat_sub, spec_synced, spec_thread_note, thread_note, ChunkWorkerOutcome, DownloadCore,
    RunOutcome,
};
use crate::manifest::{
    contiguous_prefix_end, spec_contiguous_prefix_end, has_partial_chunk_progress, plan_chunks, spec_effective_chunk_size, spec_has_partial_chunk_progress,
    spec_is_chunk_plan, spec_plan_fits, spec_validators_changed, validators_changed, ChunkManifest, Manifest,
    RemoteMetadata,
};
use crate::types::{AdaptiveProfile, ThreadMode};
use crate::urls::opt_view;
use crate::text::{
    chars_of, concat, decimal_string, eq_ignore_ascii_case, owned, spec_decimal, spec_eq_ignore_ascii_case, str_equals,
};
use crate::types::{ChecksumMode, DownloadSnapshot, DownloadState};

verus! {

/// The executor actor of HTTP downloads; its decisions are the functions of this module.
pub struct HttpExecutor;

/// Tail sprint: seconds after which a claimed tail chunk counts as stalled.
pub const TAIL_SPRINT_STALL_WINDOW_SECS: u64 = 8;

/// Tail sprint: a chunk is split only when more than this many bytes remain (1 MiB).
pub const TAIL_SPRINT_MIN_SPLIT_SIZE: u64 = 1048576;

/// Bytes of received data after which the rate limiter is charged (256 KiB).
pub const RATE_BATCH_BYTES: usize = 262144;

/// Received pieces after which the rate limiter is charged.
pub const RATE_BATCH_CHUNKS: usize = 8;

/// Largest file size that FAT32 can store.
pub const FAT32_MAX_FILE_SIZE: u64 = 4294967295;

// ── Chunk claims ─────────────────────────────────────────────────────

/// Threads currently granted to the download.
pub fn current_allocation(manifest: &Manifest) -> (r: usize)
    ensures
        r == match manifest.allocated_thread_count {
            Some(n) => n,
            None => 0,
        },
{
    match manifest.allocated_thread_count {
        Some(n) => n,
        None => 0,
    }
}

/// Every chunk of the download is complete.
pub fn all_chunks_completed(manifest: &Manifest) -> (r: bool)
    ensures
        r == forall|i: int| 0 <= i < manifest.chunks@.len() ==> (#[trigger] manifest.chunks@[i]).completed,
{
    let mut i: usize = 0;
    while i < manifest.chunks.len()
        invariant
            i <= manifest.chunks@.len(),
            forall|j: int| 0 <= j < i ==> (#[trigger] manifest.chunks@[j]).completed,
        decreases manifest.chunks@.len() - i,
    {
        if !manifest.chunks[i].completed {
            return false;
        }
        i = i + 1;
    }
    true
}

/// Chunk `c` may be claimed (by worker stripe `stripe` of `stripes` when `striped`).
pub open spec fn spec_claim_candidate(c: ChunkManifest, stripes: usize, stripe: usize, striped: bool) -> bool {
    !c.completed && c.claimed_by is None && (striped ==> c.index % stripes == stripe)
}

/// Position of the first claimable chunk.
pub open spec fn spec_first_candidate(chunks: Seq<ChunkManifest>, stripes: usize, stripe: usize, striped: bool) -> Option<int> {
    if exists|j: int| 0 <= j < chunks.len() && spec_claim_candidate(chunks[j], stripes, stripe, striped) {
        Some(choose|j: int| 0 <= j < chunks.len() && spec_claim_candidate(chunks[j], stripes, stripe, striped)
            && forall|k: int| 0 <= k < j ==> !spec_claim_candidate(chunks[k], stripes, stripe, striped))
    } else {
        None
    }
}

/// Chunk a worker claims: the first free chunk of its stripe
/// (`index % workers == worker_id % workers`), else the first free chunk.
pub open spec fn spec_claim_position(chunks: Seq<ChunkManifest>, worker_id: usize, total_workers: usize) -> Option<int> {
    let stripes: usize = if total_workers > 1 { total_workers } else { 1 };
    let stripe = (worker_id % stripes) as usize;
    match spec_first_candidate(chunks, stripes, stripe, true) {
        Some(j) => Some(j),
        None => spec_first_candidate(chunks, stripes, stripe, false),
    }
}

pub open spec fn spec_claimed(c: ChunkManifest, worker_id: usize) -> ChunkManifest {
    ChunkManifest { claimed_by: Some(worker_id), dirty: true, ..c }
}

fn first_candidate(chunks: &Vec<ChunkManifest>, stripes: usize, stripe: usize, striped: bool) -> (r: Option<usize>)
    requires
        stripes > 0,
    ensures
        match r {
            Some(j) => j < chunks@.len() && spec_first_candidate(chunks@, stripes, stripe, striped) == Some(j as int),
            None => spec_first_candidate(chunks@, stripes, stripe, striped) is None,
        },
{
    let mut j: usize = 0;
    while j < chunks.len()
        invariant
            stripes > 0,
            j <= chunks@.len(),
            forall|k: int| 0 <= k < j ==> !spec_claim_candidate(chunks@[k], stripes, stripe, striped),
        decreases chunks@.len() - j,
    {
        let c = &chunks[j];
        if !c.completed && c.claimed_by.is_none() && (!striped || c.index % stripes == stripe) {
            proof {
                assert(spec_claim_candidate(chunks@[j as int], stripes, stripe, striped));
                let w = choose|w: int| 0 <= w < chunks@.len() && spec_claim_candidate(chunks@[w], stripes, stripe, striped)
                    && forall|k: int| 0 <= k < w ==> !spec_claim_candidate(chunks@[k], stripes, stripe, striped);
                if w > j {
                    assert(!spec_claim_candidate(chunks@[j as int], stripes, stripe, striped));
                }
                assert(w == j);
            }
            return Some(j);
        }
        j = j + 1;
    }
    None
}

/// Claims a chunk for worker `worker_id` out of `total_workers`
/// (`spec_claim_position`), marks it dirty and returns a copy of it.
pub fn claim_next_chunk(manifest: &mut Manifest, worker_id: usize, total_workers: usize) -> (r: Option<ChunkManifest>)
    ensures
        match spec_claim_position(old(manifest).chunks@, worker_id, total_workers) {
            Some(j) => {
                &&& r == Some(spec_claimed(old(manifest).chunks@[j], worker_id))
                &&& final(manifest).chunks@ == old(manifest).chunks@.update(j, spec_claimed(old(manifest).chunks@[j], worker_id))
            },
            None => r is None && final(manifest).chunks@ == old(manifest).chunks@,
        },
        *final(manifest) == (Manifest { chunks: final(manifest).chunks, ..*old(manifest) }),
{
    let stripes = if total_workers > 1 { total_workers } else { 1 };
    let stripe = worker_id % stripes;
    let pos = match first_candidate(&manifest.chunks, stripes, stripe, true) {
        Some(j) => Some(j),
        None => first_candidate(&manifest.chunks, stripes, stripe, false),
    };
    match pos {
        Some(j) => {
            let mut c = manifest.chunks[j];
            c.claimed_by = Some(worker_id);
            c.dirty = true;
            manifest.chunks.set(j, c);
            Some(c)
        },
        None => None,
    }
}

pub open spec fn spec_released(c: ChunkManifest) -> ChunkManifest {
    ChunkManifest { claimed_by: None, dirty: true, ..c }
}

proof fn lemma_first_candidate_is(chunks: Seq<ChunkManifest>, stripes: usize, stripe: usize, striped: bool)
    ensures
        spec_first_candidate(chunks, stripes, stripe, striped) matches Some(j) ==> 0 <= j < chunks.len()
            && spec_claim_candidate(chunks[j], stripes, stripe, striped),
{
    if exists|j: int| 0 <= j < chunks.len() && spec_claim_candidate(chunks[j], stripes, stripe, striped) {
        let w = choose|j: int| 0 <= j < chunks.len() && spec_claim_candidate(chunks[j], stripes, stripe, striped);
        lemma_least_candidate(chunks, stripes, stripe, striped, w);
    }
}

proof fn lemma_least_candidate(chunks: Seq<ChunkManifest>, stripes: usize, stripe: usize, striped: bool, w: int)
    requires
        0 <= w < chunks.len(),
        spec_claim_candidate(chunks[w], stripes, stripe, striped),
    ensures
        exists|j: int| 0 <= j < chunks.len() && spec_claim_candidate(chunks[j], stripes, stripe, striped)
            && forall|k: int| 0 <= k < j ==> !spec_claim_candidate(chunks[k], stripes, stripe, striped),
    decreases w,
{
    if exists|k: int| 0 <= k < w && spec_claim_candidate(chunks[k], stripes, stripe, striped) {
        let k = choose|k: int| 0 <= k < w && spec_claim_candidate(chunks[k], stripes, stripe, striped);
        lemma_least_candidate(chunks, stripes, stripe, striped, k);
    }
}

/// Claims: a worker is only ever given an unfinished, unclaimed chunk,
/// and releasing that fresh claim gives the chunk back unchanged apart
/// from its dirty mark; no chunk is given exactly when every chunk is
/// finished or claimed.
pub proof fn lemma_claim_laws(chunks: Seq<ChunkManifest>, worker_id: usize, total_workers: usize)
    ensures
        spec_claim_position(chunks, worker_id, total_workers) matches Some(j) ==> {
            &&& 0 <= j < chunks.len()
            &&& !chunks[j].completed
            &&& chunks[j].claimed_by is None
            &&& spec_released(spec_claimed(chunks[j], worker_id)) == (ChunkManifest { dirty: true, ..chunks[j] })
        },
        spec_claim_position(chunks, worker_id, total_workers) is None <==> forall|k: int|
            0 <= k < chunks.len() ==> (#[trigger] chunks[k]).completed || chunks[k].claimed_by is Some,
{
    let stripes: usize = if total_workers > 1 { total_workers } else { 1 };
    let stripe = (worker_id % stripes) as usize;
    if spec_claim_position(chunks, worker_id, total_workers) is None {
        assert forall|k: int| 0 <= k < chunks.len() implies (#[trigger] chunks[k]).completed || chunks[k].claimed_by is Some by {
            if !chunks[k].completed && chunks[k].claimed_by is None {
                assert(spec_claim_candidate(chunks[k], stripes, stripe, false));
            }
        }
    } else {
        let j = spec_claim_position(chunks, worker_id, total_workers)->0;
        lemma_first_candidate_is(chunks, stripes, stripe, true);
        lemma_first_candidate_is(chunks, stripes, stripe, false);
        if spec_first_candidate(chunks, stripes, stripe, true) is None {
            assert(spec_claim_candidate(chunks[j], stripes, stripe, false));
            assert(!chunks[j].completed && chunks[j].claimed_by is None);
        } else {
            assert(spec_claim_candidate(chunks[j], stripes, stripe, true));
        }
        if forall|k: int| 0 <= k < chunks.len() ==> (#[trigger] chunks[k]).completed || chunks[k].claimed_by is Some {
            assert(chunks[j].completed || chunks[j].claimed_by is Some);
        }
    }
}

/// Drops worker `worker_id`'s claim on the chunk at `chunk_index`, if the
/// claim is still that worker's (tail sprint may have handed the chunk on).
pub fn mark_chunk_released(manifest: &mut Manifest, chunk_index: usize, worker_id: usize)
    ensures
        final(manifest).chunks@ == (if chunk_index < old(manifest).chunks@.len()
            && old(manifest).chunks@[chunk_index as int].claimed_by == Some(worker_id) {
            old(manifest).chunks@.update(chunk_index as int, spec_released(old(manifest).chunks@[chunk_index as int]))
        } else {
            old(manifest).chunks@
        }),
        *final(manifest) == (Manifest { chunks: final(manifest).chunks, ..*old(manifest) }),
{
    if chunk_index < manifest.chunks.len() {
        let mut c = manifest.chunks[chunk_index];
        if c.claimed_by == Some(worker_id) {
            c.claimed_by = None;
            c.dirty = true;
            manifest.chunks.set(chunk_index, c);
        }
    }
}

/// Drops every claim (all workers stopped) and zeroes the connection count.
pub fn release_all_chunk_claims(manifest: &mut Manifest, now: u64)
    ensures
        final(manifest).chunks@ == old(manifest).chunks@.map_values(|c: ChunkManifest| spec_released(c)),
        *final(manifest) == (Manifest {
            chunks: final(manifest).chunks,
            connection_count: 0,
            updated_at_ms: now,
            ..*old(manifest)
        }),
{
    let ghost m0 = *manifest;
    let mut i: usize = 0;
    while i < manifest.chunks.len()
        invariant
            i <= manifest.chunks@.len(),
            manifest.chunks@.len() == m0.chunks@.len(),
            *manifest == (Manifest { chunks: manifest.chunks, ..m0 }),
            forall|k: int| 0 <= k < i ==> manifest.chunks@[k] == spec_released(m0.chunks@[k]),
            forall|k: int| i <= k < m0.chunks@.len() ==> manifest.chunks@[k] == m0.chunks@[k],
        decreases m0.chunks@.len() - i,
    {
        let mut c = manifest.chunks[i];
        c.claimed_by = None;
        c.dirty = true;
        manifest.chunks.set(i, c);
        i = i + 1;
    }
    manifest.connection_count = 0;
    manifest.updated_at_ms = now;
    assert(manifest.chunks@ =~= m0.chunks@.map_values(|c: ChunkManifest| spec_released(c)));
}

/// Workers to run: the allocation, and at most half the chunk count (at
/// least one) when the download has chunks.
pub fn target_workers(allocation: usize, chunk_count: usize) -> (r: usize)
    ensures
        r == (if chunk_count > 0 {
            let half: usize = if chunk_count / 2 > 1 { (chunk_count / 2) as usize } else { 1 };
            if allocation < half { allocation } else { half }
        } else {
            allocation
        }),
{
    if chunk_count > 0 {
        let half = if chunk_count / 2 > 1 { chunk_count / 2 } else { 1 };
        if allocation < half { allocation } else { half }
    } else {
        allocation
    }
}

// ── Tail sprint ──────────────────────────────────────────────────────

pub open spec fn spec_count_uncompleted(chunks: Seq<ChunkManifest>) -> nat
    decreases chunks.len(),
{
    if chunks.len() == 0 {
        0
    } else {
        spec_count_uncompleted(chunks.drop_last()) + (if chunks.last().completed { 0nat } else { 1nat })
    }
}

/// State of the download's tail: the number of unfinished chunks, whether
/// all of them are claimed (and there is one), and the index of the single
/// unfinished chunk when it is the only one and unclaimed.
pub open spec fn spec_tail_state(chunks: Seq<ChunkManifest>) -> (usize, bool, Option<usize>) {
    let count = spec_count_uncompleted(chunks);
    let all_claimed = count > 0 && forall|i: int| 0 <= i < chunks.len() && !(#[trigger] chunks[i]).completed ==> chunks[i].claimed_by is Some;
    let single = if count == 1 && !all_claimed {
        Some((choose|i: int| 0 <= i < chunks.len() && !chunks[i].completed))
    } else {
        None
    };
    (count as usize, all_claimed, match single {
        Some(i) => Some(chunks[i].index),
        None => None,
    })
}

proof fn lemma_count_uncompleted_step(chunks: Seq<ChunkManifest>, i: int)
    requires
        0 <= i < chunks.len(),
    ensures
        spec_count_uncompleted(chunks.take(i + 1)) == spec_count_uncompleted(chunks.take(i)) + (if chunks[i].completed { 0nat } else { 1nat }),
{
    assert(chunks.take(i + 1).drop_last() == chunks.take(i));
}

proof fn lemma_count_zero(chunks: Seq<ChunkManifest>)
    requires
        spec_count_uncompleted(chunks) == 0,
    ensures
        forall|i: int| 0 <= i < chunks.len() ==> (#[trigger] chunks[i]).completed,
    decreases chunks.len(),
{
    if chunks.len() > 0 {
        lemma_count_zero(chunks.drop_last());
        assert forall|i: int| 0 <= i < chunks.len() implies (#[trigger] chunks[i]).completed by {
            if i < chunks.len() - 1 {
                assert(chunks.drop_last()[i] == chunks[i]);
            }
        }
    }
}

proof fn lemma_count_one(chunks: Seq<ChunkManifest>, w: int)
    requires
        spec_count_uncompleted(chunks) == 1,
        0 <= w < chunks.len(),
        !chunks[w].completed,
    ensures
        forall|i: int| 0 <= i < chunks.len() && i != w ==> (#[trigger] chunks[i]).completed,
    decreases chunks.len(),
{
    let last = chunks.len() - 1;
    if w == last {
        lemma_count_zero(chunks.drop_last());
        assert forall|i: int| 0 <= i < chunks.len() && i != w implies (#[trigger] chunks[i]).completed by {
            assert(chunks.drop_last()[i] == chunks[i]);
        }
    } else {
        assert(chunks.drop_last()[w] == chunks[w]);
        if !chunks.last().completed {
            lemma_count_zero(chunks.drop_last());
            assert(chunks.drop_last()[w].completed);
        }
        lemma_count_one(chunks.drop_last(), w);
        assert forall|i: int| 0 <= i < chunks.len() && i != w implies (#[trigger] chunks[i]).completed by {
            if i < last {
                assert(chunks.drop_last()[i] == chunks[i]);
            }
        }
    }
}

/// The tail state of a chunk list (`spec_tail_state`).
pub fn tail_sprint_state(chunks: &Vec<ChunkManifest>) -> (r: (usize, bool, Option<usize>))
    requires
        chunks@.len() <= usize::MAX,
    ensures
        r == spec_tail_state(chunks@),
{
    let mut count: usize = 0;
    let mut all_claimed = true;
    let mut first: Option<usize> = None;
    let mut i: usize = 0;
    while i < chunks.len()
        invariant
            i <= chunks@.len(),
            count as nat == spec_count_uncompleted(chunks@.take(i as int)),
            count <= i,
            all_claimed == forall|k: int| 0 <= k < i && !(#[trigger] chunks@[k]).completed ==> chunks@[k].claimed_by is Some,
            match first {
                Some(f) => f < i && !chunks@[f as int].completed,
                None => count == 0,
            },
        decreases chunks@.len() - i,
    {
        proof {
            lemma_count_uncompleted_step(chunks@, i as int);
        }
        let c = &chunks[i];
        if !c.completed {
            count = count + 1;
            if c.claimed_by.is_none() {
                all_claimed = false;
            }
            if first.is_none() {
                first = Some(i);
            }
        }
        i = i + 1;
    }
    proof {
        assert(chunks@.take(chunks@.len() as int) == chunks@);
    }
    let all = count > 0 && all_claimed;
    let single = if count == 1 && !all {
        match first {
            Some(f) => {
                proof {
                    lemma_count_one(chunks@, f as int);
                    let w = choose|w: int| 0 <= w < chunks@.len() && !chunks@[w].completed;
                    assert(w == f);
                }
                Some(chunks[f].index)
            },
            None => None,
        }
    } else {
        None
    };
    (count, all, single)
}

/// Stage 1 of the tail sprint looks for stalled claims only when at most
/// two chunks are unfinished, all of them are claimed, and claim times
/// were recorded.
pub open spec fn spec_stall_check_applies(tail: (usize, bool, Option<usize>), has_claim_times: bool) -> bool {
    tail.0 <= 2 && tail.1 && has_claim_times
}

/// Whether the tail sprint checks for stalled claims (`spec_stall_check_applies`).
pub fn stall_check_applies(tail: (usize, bool, Option<usize>), has_claim_times: bool) -> (r: bool)
    ensures
        r == spec_stall_check_applies(tail, has_claim_times),
{
    tail.0 <= 2 && tail.1 && has_claim_times
}

/// Milliseconds a claim may go without finishing before the tail sprint
/// treats it as stalled.
pub open spec fn spec_stall_window_ms() -> u64 {
    (TAIL_SPRINT_STALL_WINDOW_SECS * 1000) as u64
}

/// A claim made at `claimed_at` has stalled at `now` when more than the
/// stall window has passed (a clock that went back counts as no time).
pub open spec fn spec_claim_stalled(claimed_at: u64, now: u64) -> bool {
    now >= claimed_at && now - claimed_at > spec_stall_window_ms()
}

/// The chunk indexes, in order, of the claims (index, claim time in ms)
/// that have stalled at `now`.
pub open spec fn spec_stalled_claims(claims: Seq<(usize, u64)>, now: u64) -> Seq<usize>
    decreases claims.len(),
{
    if claims.len() == 0 {
        Seq::empty()
    } else {
        let rest = spec_stalled_claims(claims.drop_last(), now);
        if spec_claim_stalled(claims.last().1, now) {
            rest.push(claims.last().0)
        } else {
            rest
        }
    }
}

/// The chunks whose claims have stalled at `now` (`spec_stalled_claims`),
/// to be handed to `release_stalled_chunks`.
pub fn stalled_claims(claims: &Vec<(usize, u64)>, now: u64) -> (r: Vec<usize>)
    ensures
        r@ == spec_stalled_claims(claims@, now),
{
    let window: u64 = TAIL_SPRINT_STALL_WINDOW_SECS * 1000;
    let mut out: Vec<usize> = Vec::new();
    let mut i: usize = 0;
    while i < claims.len()
        invariant
            i <= claims@.len(),
            window == spec_stall_window_ms(),
            out@ == spec_stalled_claims(claims@.take(i as int), now),
        decreases claims@.len() - i,
    {
        let (idx, at) = claims[i];
        proof {
            assert(claims@.take(i as int + 1).drop_last() == claims@.take(i as int));
            assert(claims@.take(i as int + 1).last() == claims@[i as int]);
        }
        if now >= at && now - at > window {
            out.push(idx);
        }
        i = i + 1;
    }
    proof {
        assert(claims@.take(claims@.len() as int) == claims@);
    }
    out
}

/// Drops the claims on the chunks at the positions in `stalled`, so that
/// fresh connections pick them up.
pub fn release_stalled_chunks(manifest: &mut Manifest, stalled: &Vec<usize>)
    ensures
        final(manifest).chunks@.len() == old(manifest).chunks@.len(),
        forall|k: int| 0 <= k < old(manifest).chunks@.len() ==> #[trigger] final(manifest).chunks@[k] == (if stalled@.contains(k as usize) {
            spec_released(old(manifest).chunks@[k])
        } else {
            old(manifest).chunks@[k]
        }),
        *final(manifest) == (Manifest { chunks: final(manifest).chunks, ..*old(manifest) }),
{
    let ghost m0 = *manifest;
    let mut s: usize = 0;
    while s < stalled.len()
        invariant
            s <= stalled@.len(),
            manifest.chunks@.len() == m0.chunks@.len(),
            *manifest == (Manifest { chunks: manifest.chunks, ..m0 }),
            forall|k: int| 0 <= k < m0.chunks@.len() ==> #[trigger] manifest.chunks@[k] == (if stalled@.take(s as int).contains(k as usize) {
                spec_released(m0.chunks@[k])
            } else {
                m0.chunks@[k]
            }),
        decreases stalled@.len() - s,
    {
        let idx = stalled[s];
        proof {
            assert(stalled@.take(s + 1) == stalled@.take(s as int).push(idx));
        }
        if idx < manifest.chunks.len() {
            let mut c = manifest.chunks[idx];
            c.claimed_by = None;
            c.dirty = true;
            manifest.chunks.set(idx, c);
        }
        proof {
            assert forall|k: int| 0 <= k < m0.chunks@.len() implies #[trigger] manifest.chunks@[k] == (if stalled@.take(s + 1).contains(k as usize) {
                spec_released(m0.chunks@[k])
            } else {
                m0.chunks@[k]
            }) by {
                if k == idx as int {
                    assert(stalled@.take(s + 1)[s as int] == idx);
                }
                if stalled@.take(s as int).contains(k as usize) {
                    let w = choose|w: int| 0 <= w < s && stalled@.take(s as int)[w] == k as usize;
                    assert(stalled@.take(s + 1)[w] == k as usize);
                }
            }
        }
        s = s + 1;
    }
    proof {
        assert(stalled@.take(stalled@.len() as int) == stalled@);
    }
}

/// Bytes of chunk `c` still to download.
pub open spec fn spec_chunk_remaining(c: ChunkManifest) -> u64 {
    let span: u64 = if spec_sat_sub(c.end, c.start) == u64::MAX { u64::MAX } else { (spec_sat_sub(c.end, c.start) + 1) as u64 };
    spec_sat_sub(span, c.downloaded)
}

/// The chunk at `last_idx` is split (tail sprint stage 2): it is unfinished,
/// unclaimed and has more than `TAIL_SPRINT_MIN_SPLIT_SIZE` bytes left.
pub open spec fn spec_splits(chunks: Seq<ChunkManifest>, last_idx: usize) -> bool {
    last_idx < chunks.len() && !chunks[last_idx as int].completed && chunks[last_idx as int].claimed_by is None
        && spec_chunk_remaining(chunks[last_idx as int]) > TAIL_SPRINT_MIN_SPLIT_SIZE
}

/// Where a split chunk is cut.
pub open spec fn spec_split_mid(c: ChunkManifest) -> u64 {
    (c.start + c.downloaded + spec_chunk_remaining(c) / 2) as u64
}

/// Splits the last unclaimed chunk in two: the first half keeps its
/// progress and the second half becomes a new chunk at the end of the list.
pub fn split_tail_chunk(manifest: &mut Manifest, last_idx: usize)
    requires
        old(manifest).chunks@.len() < usize::MAX,
        spec_splits(old(manifest).chunks@, last_idx) ==> old(manifest).chunks@[last_idx as int].start
            + old(manifest).chunks@[last_idx as int].downloaded + spec_chunk_remaining(old(manifest).chunks@[last_idx as int]) / 2
            <= u64::MAX,
    ensures
        ({
            let old_chunks = old(manifest).chunks@;
            if spec_splits(old_chunks, last_idx) {
                let c = old_chunks[last_idx as int];
                let mid = spec_split_mid(c);
                final(manifest).chunks@ == old_chunks.update(
                    last_idx as int,
                    ChunkManifest { end: spec_sat_sub(mid, 1), dirty: true, ..c },
                ).push(ChunkManifest {
                    index: old_chunks.len() as usize,
                    start: mid,
                    end: c.end,
                    downloaded: 0,
                    completed: false,
                    claimed_by: None,
                    dirty: true,
                })
            } else {
                final(manifest).chunks@ == old_chunks
            }
        }),
        *final(manifest) == (Manifest { chunks: final(manifest).chunks, ..*old(manifest) }),
{
    let new_index = manifest.chunks.len();
    if last_idx < manifest.chunks.len() {
        let mut c = manifest.chunks[last_idx];
        if !c.completed && c.claimed_by.is_none() {
            let span = c.end.saturating_sub(c.start).saturating_add(1);
            let remaining = span.saturating_sub(c.downloaded);
            if remaining > TAIL_SPRINT_MIN_SPLIT_SIZE {
                let mid = c.start + c.downloaded + remaining / 2;
                let old_end = c.end;
                c.end = mid.saturating_sub(1);
                c.dirty = true;
                manifest.chunks.set(last_idx, c);
                manifest.chunks.push(ChunkManifest {
                    index: new_index,
                    start: mid,
                    end: old_end,
                    downloaded: 0,
                    completed: false,
                    claimed_by: None,
                    dirty: true,
                });
            }
        }
    }
}

/// Tail splitting keeps the chunk's bytes: the first piece keeps the
/// start and the progress made, the second begins right after it and ends
/// where the chunk ended, and both pieces are non-empty.
pub proof fn lemma_split_covers_range(c: ChunkManifest)
    requires
        !c.completed,
        c.claimed_by is None,
        spec_chunk_remaining(c) > TAIL_SPRINT_MIN_SPLIT_SIZE,
        c.start + c.downloaded + spec_chunk_remaining(c) / 2 <= u64::MAX,
    ensures
        ({
            let mid = spec_split_mid(c);
            let first_end = spec_sat_sub(mid, 1);
            &&& c.start + c.downloaded < mid
            &&& first_end + 1 == mid
            &&& mid <= c.end
            &&& c.start <= first_end
        }),
{
    let span: int = if spec_sat_sub(c.end, c.start) == u64::MAX { u64::MAX as int } else { spec_sat_sub(c.end, c.start) + 1 };
    assert(spec_chunk_remaining(c) <= span);
    assert(c.end >= c.start);
}

/// The chunk list after the chunk at `last_idx` is split in two.
pub open spec fn spec_split_chunks(chunks: Seq<ChunkManifest>, last_idx: usize) -> Seq<ChunkManifest> {
    let c = chunks[last_idx as int];
    let mid = spec_split_mid(c);
    chunks.update(last_idx as int, ChunkManifest { end: spec_sat_sub(mid, 1), dirty: true, ..c }).push(ChunkManifest {
        index: chunks.len() as usize,
        start: mid,
        end: c.end,
        downloaded: 0,
        completed: false,
        claimed_by: None,
        dirty: true,
    })
}

/// Byte offset `x` lies in the range of chunk `c`.
pub open spec fn spec_chunk_holds(c: ChunkManifest, x: int) -> bool {
    c.start <= x <= c.end
}

/// Some chunk of the list holds byte offset `x`.
pub open spec fn spec_chunks_cover(chunks: Seq<ChunkManifest>, x: int) -> bool {
    exists|i: int| 0 <= i < chunks.len() && #[trigger] spec_chunk_holds(chunks[i], x)
}

/// No byte offset lies in two chunks of the list.
pub open spec fn spec_chunks_disjoint(chunks: Seq<ChunkManifest>) -> bool {
    forall|i: int, j: int, x: int|
        0 <= i < chunks.len() && 0 <= j < chunks.len() && i != j && #[trigger] spec_chunk_holds(chunks[i], x)
            ==> !#[trigger] spec_chunk_holds(chunks[j], x)
}

/// Tail splitting keeps the bytes of a download: after the split the
/// chunks hold exactly the same byte offsets as before, and chunks that
/// did not overlap still do not.
pub proof fn lemma_split_keeps_ranges(chunks: Seq<ChunkManifest>, last_idx: usize)
    requires
        spec_splits(chunks, last_idx),
        chunks[last_idx as int].start + chunks[last_idx as int].downloaded
            + spec_chunk_remaining(chunks[last_idx as int]) / 2 <= u64::MAX,
    ensures
        forall|x: int| spec_chunks_cover(spec_split_chunks(chunks, last_idx), x) == spec_chunks_cover(chunks, x),
        spec_chunks_disjoint(chunks) ==> spec_chunks_disjoint(spec_split_chunks(chunks, last_idx)),
{
    let c = chunks[last_idx as int];
    let l = last_idx as int;
    let n = chunks.len() as int;
    lemma_split_covers_range(c);
    let t = spec_split_chunks(chunks, last_idx);
    assert(t.len() == n + 1);
    assert(t[n] == t.last());
    // Each new chunk lies inside an old one: the two halves inside the split chunk.
    assert forall|i: int, x: int| 0 <= i < t.len() && #[trigger] spec_chunk_holds(t[i], x) implies
        spec_chunk_holds(chunks[if i == n { l } else { i }], x) by {
        if i == n {
        } else if i == l {
        } else {
            assert(t[i] == chunks[i]);
        }
    }
    assert forall|x: int| spec_chunks_cover(t, x) == spec_chunks_cover(chunks, x) by {
        if spec_chunks_cover(t, x) {
            let i = choose|i: int| 0 <= i < t.len() && #[trigger] spec_chunk_holds(t[i], x);
            let k = if i == n { l } else { i };
            assert(spec_chunk_holds(chunks[k], x));
        }
        if spec_chunks_cover(chunks, x) {
            let i = choose|i: int| 0 <= i < chunks.len() && #[trigger] spec_chunk_holds(chunks[i], x);
            if i == l {
                if x < spec_split_mid(c) {
                    assert(spec_chunk_holds(t[l], x));
                } else {
                    assert(spec_chunk_holds(t[n], x));
                }
            } else {
                assert(t[i] == chunks[i]);
                assert(spec_chunk_holds(t[i], x));
            }
        }
    }
    if spec_chunks_disjoint(chunks) {
        assert forall|i: int, j: int, x: int|
            0 <= i < t.len() && 0 <= j < t.len() && i != j && #[trigger] spec_chunk_holds(t[i], x)
                implies !#[trigger] spec_chunk_holds(t[j], x) by {
            if spec_chunk_holds(t[j], x) {
                let ki = if i == n { l } else { i };
                let kj = if j == n { l } else { j };
                assert(spec_chunk_holds(chunks[ki], x));
                assert(spec_chunk_holds(chunks[kj], x));
                if ki == kj {
                    // The two halves of the split chunk do not overlap.
                    assert(spec_chunk_holds(t[l], x) && spec_chunk_holds(t[n], x));
                }
            }
        }
    }
}

// ── Rounds of a chunked run ──────────────────────────────────────────

/// Workers to run for an allocation and a chunk count (`target_workers`).
pub open spec fn spec_target_workers(allocation: usize, chunk_count: usize) -> usize {
    if chunk_count > 0 {
        let half: usize = if chunk_count / 2 > 1 { (chunk_count / 2) as usize } else { 1 };
        if allocation < half { allocation } else { half }
    } else {
        allocation
    }
}

/// What a chunked run does at the top of a round.
#[derive(Clone, Copy, Debug, PartialEq, Eq, Structural)]
pub enum RoundStart {
    /// Every chunk is complete: stop the workers and finish.
    AllDone,
    /// No threads are granted and no worker runs: wait until the scheduler
    /// activates the download again.
    WaitActive,
    /// Run with this many workers.
    Run(usize),
}

pub open spec fn spec_round_start(m: Manifest, workers_running: usize) -> RoundStart {
    if forall|i: int| 0 <= i < m.chunks@.len() ==> (#[trigger] m.chunks@[i]).completed {
        RoundStart::AllDone
    } else {
        let allocation: usize = match m.allocated_thread_count {
            Some(n) => n,
            None => 0,
        };
        if allocation == 0 && workers_running == 0 {
            RoundStart::WaitActive
        } else {
            RoundStart::Run(spec_target_workers(allocation, m.chunks@.len() as usize))
        }
    }
}

/// The start of a round of a chunked run (`spec_round_start`).
pub fn round_start(manifest: &Manifest, workers_running: usize) -> (r: RoundStart)
    ensures
        r == spec_round_start(*manifest, workers_running),
{
    if all_chunks_completed(manifest) {
        return RoundStart::AllDone;
    }
    let allocation = current_allocation(manifest);
    if allocation == 0 && workers_running == 0 {
        return RoundStart::WaitActive;
    }
    RoundStart::Run(target_workers(allocation, manifest.chunks.len()))
}

/// One claim by worker `worker_id` of `total`: the chunk list after it and
/// the claimed chunk, if any (as `claim_next_chunk` states).
pub open spec fn spec_claim_once(chunks: Seq<ChunkManifest>, worker_id: usize, total: usize) -> (Seq<ChunkManifest>, Option<ChunkManifest>) {
    match spec_claim_position(chunks, worker_id, total) {
        Some(j) => (chunks.update(j, spec_claimed(chunks[j], worker_id)), Some(spec_claimed(chunks[j], worker_id))),
        None => (chunks, None),
    }
}

/// Claims for up to `n` new workers numbered from `next_id`, each one of
/// `total`: the chunk list after them and the (worker, chunk) pairs made.
/// The round stops at the first worker that finds nothing to claim.
pub open spec fn spec_claim_round(chunks: Seq<ChunkManifest>, next_id: nat, n: nat, total: usize)
    -> (Seq<ChunkManifest>, Seq<(usize, ChunkManifest)>)
    decreases n,
{
    if n == 0 {
        (chunks, Seq::empty())
    } else {
        let (after, got) = spec_claim_once(chunks, next_id as usize, total);
        match got {
            None => (chunks, Seq::empty()),
            Some(c) => {
                let (last, rest) = spec_claim_round(after, next_id + 1, (n - 1) as nat, total);
                (last, seq![(next_id as usize, c)] + rest)
            },
        }
    }
}

proof fn lemma_claim_round_step(chunks: Seq<ChunkManifest>, id: nat, n: nat, total: usize)
    requires
        n > 0,
    ensures
        ({
            let once = spec_claim_once(chunks, id as usize, total);
            let round = spec_claim_round(chunks, id, n, total);
            match once.1 {
                None => round == (chunks, Seq::<(usize, ChunkManifest)>::empty()),
                Some(c) => {
                    let rest = spec_claim_round(once.0, id + 1, (n - 1) as nat, total);
                    round == (rest.0, seq![(id as usize, c)] + rest.1)
                },
            }
        }),
{
}

/// New workers a round starts: up to `target` workers run in all.
pub open spec fn spec_new_workers(running: usize, target: usize) -> nat {
    if target > running { (target - running) as nat } else { 0 }
}

/// Claims chunks for the workers a round starts (`spec_claim_round`), one
/// worker id after another from `next_worker_id`; returns the (worker id,
/// chunk) pairs to spawn. Once a worker got a chunk the download is marked
/// running with `target` connections.
#[verifier::rlimit(60)]
pub fn claim_for_new_workers(
    core: &mut DownloadCore,
    running: usize,
    target: usize,
    next_worker_id: usize,
    now: u64,
) -> (r: Vec<(usize, ChunkManifest)>)
    requires
        next_worker_id + target <= usize::MAX,
    ensures
        ({
            let round = spec_claim_round(
                old(core).manifest.chunks@,
                next_worker_id as nat,
                spec_new_workers(running, target),
                target,
            );
            &&& r@ == round.1
            &&& final(core).manifest.chunks@ == round.0
            &&& if round.1.len() > 0 {
                &&& final(core).snapshot == (DownloadSnapshot {
                    state: DownloadState::Downloading,
                    connection_count: target,
                    updated_at_ms: now,
                    ..old(core).snapshot
                })
                &&& final(core).manifest == (Manifest {
                    state: DownloadState::Downloading,
                    connection_count: target,
                    updated_at_ms: now,
                    chunks: final(core).manifest.chunks,
                    ..old(core).manifest
                })
            } else {
                &&& final(core).snapshot == old(core).snapshot
                &&& final(core).manifest == (Manifest { chunks: final(core).manifest.chunks, ..old(core).manifest })
            }
        }),
{
    let n: usize = if target > running { target - running } else { 0 };
    let ghost orig = *core;
    let ghost full = spec_claim_round(orig.manifest.chunks@, next_worker_id as nat, n as nat, target);
    let mut out: Vec<(usize, ChunkManifest)> = Vec::new();
    let mut i: usize = 0;
    while i < n
        invariant
            n == spec_new_workers(running, target),
            i <= n,
            next_worker_id + target <= usize::MAX,
            n <= target,
            full == spec_claim_round(orig.manifest.chunks@, next_worker_id as nat, n as nat, target),
            full.0 == spec_claim_round(core.manifest.chunks@, (next_worker_id + i) as nat, (n - i) as nat, target).0,
            full.1 == out@ + spec_claim_round(core.manifest.chunks@, (next_worker_id + i) as nat, (n - i) as nat, target).1,
            out@.len() == i,
            i == 0 ==> core.snapshot == orig.snapshot,
            i == 0 ==> core.manifest == (Manifest { chunks: core.manifest.chunks, ..orig.manifest }),
            i > 0 ==> core.snapshot == (DownloadSnapshot {
                state: DownloadState::Downloading,
                connection_count: target,
                updated_at_ms: now,
                ..orig.snapshot
            }),
            i > 0 ==> core.manifest == (Manifest {
                state: DownloadState::Downloading,
                connection_count: target,
                updated_at_ms: now,
                chunks: core.manifest.chunks,
                ..orig.manifest
            }),
        ensures
            i == n || spec_claim_round(core.manifest.chunks@, (next_worker_id + i) as nat, (n - i) as nat, target)
                == (core.manifest.chunks@, Seq::<(usize, ChunkManifest)>::empty()),
        decreases n - i,
    {
        let worker_id = next_worker_id + i;
        let ghost before = core.manifest.chunks@;
        proof {
            lemma_claim_round_step(before, worker_id as nat, (n - i) as nat, target);
        }
        let claimed = claim_next_chunk(&mut core.manifest, worker_id, target);
        proof {
            let once = spec_claim_once(before, worker_id, target);
            assert(core.manifest.chunks@ == once.0);
            assert(claimed == once.1);
        }
        match claimed {
            None => {
                proof {
                    assert(out@ + Seq::<(usize, ChunkManifest)>::empty() == out@);
                }
                break;
            },
            Some(c) => {
                proof {
                    let rest = spec_claim_round(core.manifest.chunks@, (worker_id + 1) as nat, (n - i - 1) as nat, target);
                    assert(out@.push((worker_id, c)) + rest.1 == out@ + (seq![(worker_id, c)] + rest.1));
                }
                out.push((worker_id, c));
                mark_downloading(core, target, now);
            },
        }
        i = i + 1;
    }
    proof {
        let tail = spec_claim_round(core.manifest.chunks@, (next_worker_id + i) as nat, (n - i) as nat, target);
        assert(tail == (core.manifest.chunks@, Seq::<(usize, ChunkManifest)>::empty()));
        assert(out@ + Seq::<(usize, ChunkManifest)>::empty() == out@);
        assert(full.1 == out@);
    }
    out
}

/// What the tail sprint did in a round.
#[derive(Clone, Copy, Debug, PartialEq, Eq, Structural)]
pub enum TailSprintStep {
    /// Stalled claims were released; the round starts over.
    Released,
    /// The last unclaimed chunk was split in two.
    Split,
    /// Nothing changed.
    Unchanged,
}

/// The split that stage 2 would make stays within 64-bit offsets.
pub open spec fn spec_tail_split_fits(chunks: Seq<ChunkManifest>) -> bool {
    match spec_tail_state(chunks).2 {
        Some(idx) => spec_splits(chunks, idx) ==> chunks[idx as int].start + chunks[idx as int].downloaded
            + spec_chunk_remaining(chunks[idx as int]) / 2 <= u64::MAX,
        None => true,
    }
}

/// The tail sprint of a round, when enabled: stage 1 releases the claims
/// that stalled (when `stall_check_applies` and some have); otherwise
/// stage 2 splits the single unfinished, unclaimed chunk when it is large
/// enough (`spec_splits`, `spec_split_chunks`).
pub fn tail_sprint_step(manifest: &mut Manifest, enabled: bool, claims: &Vec<(usize, u64)>, now: u64) -> (r: TailSprintStep)
    requires
        old(manifest).chunks@.len() < usize::MAX,
        spec_tail_split_fits(old(manifest).chunks@),
    ensures
        ({
            let chunks = old(manifest).chunks@;
            let tail = spec_tail_state(chunks);
            let stalled = spec_stalled_claims(claims@, now);
            &&& *final(manifest) == (Manifest { chunks: final(manifest).chunks, ..*old(manifest) })
            &&& if !enabled {
                r == TailSprintStep::Unchanged && final(manifest).chunks@ == chunks
            } else if spec_stall_check_applies(tail, claims@.len() > 0) && stalled.len() > 0 {
                &&& r == TailSprintStep::Released
                &&& final(manifest).chunks@.len() == chunks.len()
                &&& forall|k: int| 0 <= k < chunks.len() ==> #[trigger] final(manifest).chunks@[k] == (if stalled.contains(k as usize) {
                    spec_released(chunks[k])
                } else {
                    chunks[k]
                })
            } else {
                match tail.2 {
                    Some(idx) => if spec_splits(chunks, idx) {
                        r == TailSprintStep::Split && final(manifest).chunks@ == spec_split_chunks(chunks, idx)
                    } else {
                        r == TailSprintStep::Unchanged && final(manifest).chunks@ == chunks
                    },
                    None => r == TailSprintStep::Unchanged && final(manifest).chunks@ == chunks,
                }
            }
        }),
{
    if !enabled {
        return TailSprintStep::Unchanged;
    }
    let tail = tail_sprint_state(&manifest.chunks);
    if stall_check_applies(tail, claims.len() > 0) {
        let stalled = stalled_claims(claims, now);
        if stalled.len() > 0 {
            release_stalled_chunks(manifest, &stalled);
            return TailSprintStep::Released;
        }
    }
    match tail.2 {
        Some(idx) => {
            let ghost before = manifest.chunks@;
            let splits = idx < manifest.chunks.len() && !manifest.chunks[idx].completed
                && manifest.chunks[idx].claimed_by.is_none()
                && chunk_remaining(&manifest.chunks[idx]) > TAIL_SPRINT_MIN_SPLIT_SIZE;
            split_tail_chunk(manifest, idx);
            if splits {
                TailSprintStep::Split
            } else {
                assert(manifest.chunks@ == before);
                TailSprintStep::Unchanged
            }
        },
        None => TailSprintStep::Unchanged,
    }
}

/// Bytes of a chunk still to download (`spec_chunk_remaining`).
fn chunk_remaining(c: &ChunkManifest) -> (r: u64)
    ensures
        r == spec_chunk_remaining(*c),
{
    let span = c.end.saturating_sub(c.start).saturating_add(1);
    span.saturating_sub(c.downloaded)
}

/// What a chunked run does when a worker ends.
#[derive(Clone, Copy, Debug, PartialEq, Eq, Structural)]
pub enum AfterWorker {
    /// Start the next round.
    Continue,
    /// The server ignored the range: stop the workers and restart as a
    /// single stream from a fresh file.
    RestartSingle,
    /// Stop the workers; the run ends paused.
    Paused,
    /// Stop the workers; the run ends canceled.
    Canceled,
}

/// The run's answer to a worker's outcome. On a pause the incremental
/// checksum is dropped, since a fresh hasher on resume would miss the
/// bytes written before the pause; nothing else changes.
pub fn after_worker(core: &mut DownloadCore, outcome: ChunkWorkerOutcome) -> (r: AfterWorker)
    ensures
        r == match outcome {
            ChunkWorkerOutcome::Finished => AfterWorker::Continue,
            ChunkWorkerOutcome::RestartSingle => AfterWorker::RestartSingle,
            ChunkWorkerOutcome::Paused => AfterWorker::Paused,
            ChunkWorkerOutcome::Canceled => AfterWorker::Canceled,
        },
        outcome == ChunkWorkerOutcome::Paused ==> *final(core) == (DownloadCore {
            manifest: Manifest { checksum: None, ..old(core).manifest },
            ..*old(core)
        }),
        outcome != ChunkWorkerOutcome::Paused ==> *final(core) == *old(core),
{
    match outcome {
        ChunkWorkerOutcome::Finished => AfterWorker::Continue,
        ChunkWorkerOutcome::RestartSingle => AfterWorker::RestartSingle,
        ChunkWorkerOutcome::Paused => {
            core.manifest.checksum = None;
            AfterWorker::Paused
        },
        ChunkWorkerOutcome::Canceled => AfterWorker::Canceled,
    }
}

// ── Stream accounting ────────────────────────────────────────────────

/// Half the size of the SSD write-combining buffer: half the configured
/// MiB (the chunk size when 0), between 64 KiB and 8 MiB.
pub open spec fn spec_ssd_half_size(ssd_write_combine_mb: u64, chunk_size: u64) -> u64 {
    let limit = if ssd_write_combine_mb == 0 { chunk_size as int } else { ssd_write_combine_mb * 1048576 };
    let half = limit / 2;
    (if half < 65536 { 65536 } else if half > 8388608 { 8388608 } else { half }) as u64
}

pub fn ssd_buffer_half_size(ssd_write_combine_mb: u64, chunk_size: u64) -> (r: u64)
    requires
        ssd_write_combine_mb * 1048576 <= u64::MAX,
    ensures
        r == spec_ssd_half_size(ssd_write_combine_mb, chunk_size),
{
    let limit = if ssd_write_combine_mb == 0 { chunk_size } else { ssd_write_combine_mb * 1048576 };
    let half = limit / 2;
    if half < 65536 { 65536 } else if half > 8388608 { 8388608 } else { half }
}

/// The rate limiter is charged once 256 KiB or 8 pieces have accumulated.
pub fn should_charge_rate_limiter(bytes_since_consume: usize, chunks_since_consume: usize) -> (r: bool)
    ensures
        r == (bytes_since_consume >= RATE_BATCH_BYTES || chunks_since_consume >= RATE_BATCH_CHUNKS),
{
    bytes_since_consume >= RATE_BATCH_BYTES || chunks_since_consume >= RATE_BATCH_CHUNKS
}

/// A single stream sent more than the announced length.
pub fn exceeds_content_length(offset: u64, len: u64, total: Option<u64>) -> (r: bool)
    requires
        total is Some ==> offset + len <= u64::MAX,
    ensures
        r == match total {
            Some(t) => offset + len > t,
            None => false,
        },
{
    match total {
        Some(t) => offset + len > t,
        None => false,
    }
}

/// Message of the error for a stream longer than its announced length.
pub fn content_length_overrun_message(received: u64, total: u64) -> (m: String)
    ensures
        m@ == "server sent more data than Content-Length ("@ + spec_decimal(received as nat)
            + " bytes received, expected "@ + spec_decimal(total as nat) + ")"@,
{
    let t = concat("server sent more data than Content-Length (", decimal_string(received).as_str());
    let t = concat(t.as_str(), " bytes received, expected ");
    let t = concat(t.as_str(), decimal_string(total).as_str());
    concat(t.as_str(), ")")
}

/// A ranged response carried bytes past the end of the requested range.
pub fn segment_exceeds_range(current: u64, len: u64, end: u64) -> (r: bool)
    requires
        1 <= current + len <= u64::MAX,
    ensures
        r == (current + len - 1 > end),
{
    current + len - 1 > end
}

/// Progress through a response body: the file offset of the next piece,
/// and the bytes and pieces received since the rate limiter was last charged.
#[derive(Clone, Copy, Debug, PartialEq, Eq, Structural)]
pub struct StreamCursor {
    pub offset: u64,
    pub pending_bytes: usize,
    pub pending_pieces: usize,
}

/// The limit a body may not pass: the announced file size of a single
/// stream (if known), or the last byte of a requested range.
#[derive(Clone, Copy, Debug, PartialEq, Eq, Structural)]
pub enum StreamBound {
    FileSize(Option<u64>),
    RangeEnd(u64),
}

/// What to do with a piece of a body, after charging the rate limiter
/// with `charge` bytes when that is `Some`.
#[derive(Clone, Debug, PartialEq, Eq)]
pub enum PieceAction {
    /// Write the piece at `write_at`.
    Write { charge: Option<usize>, write_at: u64 },
    /// The piece passes the limit: stop with this error.
    Fail { charge: Option<usize>, error: DownloadError },
}

/// The piece of `len` bytes passes the bound.
pub open spec fn spec_piece_overruns(offset: u64, len: usize, bound: StreamBound) -> bool {
    match bound {
        StreamBound::FileSize(Some(total)) => offset + len > total,
        StreamBound::FileSize(None) => false,
        StreamBound::RangeEnd(end) => offset + len - 1 > end,
    }
}

/// A piece's effect on the rate-limiter counters: the counters after it
/// and the bytes to charge now (once 256 KiB or 8 pieces have gathered).
pub open spec fn spec_charge(c: StreamCursor, len: usize) -> (StreamCursor, Option<usize>) {
    let b = c.pending_bytes + len;
    let p = c.pending_pieces + 1;
    if b >= RATE_BATCH_BYTES || p >= RATE_BATCH_CHUNKS {
        (StreamCursor { pending_bytes: 0, pending_pieces: 0, ..c }, Some(b as usize))
    } else {
        (StreamCursor { pending_bytes: b as usize, pending_pieces: p as usize, ..c }, None)
    }
}

/// Handles one piece of `len` bytes of a body: counts it for the rate
/// limiter, refuses it when it passes the bound (the single stream's
/// `content_length_overrun_message`, or "segment body exceeded requested
/// range"), and otherwise places it at the current offset and moves on.
pub fn on_stream_piece(cursor: &mut StreamCursor, len: usize, bound: StreamBound) -> (r: PieceAction)
    requires
        old(cursor).pending_bytes + len <= usize::MAX,
        old(cursor).pending_pieces < usize::MAX,
        old(cursor).offset + len <= u64::MAX,
        bound is RangeEnd ==> old(cursor).offset + len >= 1,
    ensures
        ({
            let (charged, charge) = spec_charge(*old(cursor), len);
            if spec_piece_overruns(old(cursor).offset, len, bound) {
                &&& *final(cursor) == charged
                &&& r matches PieceAction::Fail { charge: ch, error: e } && ch == charge && match bound {
                    StreamBound::FileSize(Some(total)) => e matches DownloadError::InvalidResponse(m) && m@
                        == "server sent more data than Content-Length ("@ + spec_decimal((old(cursor).offset + len) as nat)
                        + " bytes received, expected "@ + spec_decimal(total as nat) + ")"@,
                    _ => e matches DownloadError::InvalidResponse(m) && m@ == "segment body exceeded requested range"@,
                }
            } else {
                &&& *final(cursor) == (StreamCursor { offset: (old(cursor).offset + len) as u64, ..charged })
                &&& r == (PieceAction::Write { charge, write_at: old(cursor).offset })
            }
        }),
{
    let b = cursor.pending_bytes + len;
    let p = cursor.pending_pieces + 1;
    let charge = if should_charge_rate_limiter(b, p) {
        cursor.pending_bytes = 0;
        cursor.pending_pieces = 0;
        Some(b)
    } else {
        cursor.pending_bytes = b;
        cursor.pending_pieces = p;
        None
    };
    let offset = cursor.offset;
    let len64 = len as u64;
    match bound {
        StreamBound::FileSize(total) => {
            if exceeds_content_length(offset, len64, total) {
                let t = match total {
                    Some(t) => t,
                    None => 0,
                };
                return PieceAction::Fail { charge, error: DownloadError::InvalidResponse(content_length_overrun_message(offset + len64, t)) };
            }
        },
        StreamBound::RangeEnd(end) => {
            if segment_exceeds_range(offset, len64, end) {
                return PieceAction::Fail { charge, error: DownloadError::InvalidResponse(owned("segment body exceeded requested range")) };
            }
        },
    }
    cursor.offset = offset + len64;
    PieceAction::Write { charge, write_at: offset }
}

/// At the end of a body (or when stopping): the bytes still owed to the
/// rate limiter, if any. The counters are left as they are.
pub fn pending_charge(cursor: &StreamCursor) -> (r: Option<usize>)
    ensures
        r == (if cursor.pending_bytes > 0 { Some(cursor.pending_bytes) } else { None::<usize> }),
{
    if cursor.pending_bytes > 0 { Some(cursor.pending_bytes) } else { None }
}

/// Where a single stream continues: the resume offset when the server
/// answered 206 to a resumed request, else the start of the file.
pub fn resume_offset(partial_content: bool, start_offset: u64) -> (r: u64)
    ensures
        r == (if partial_content && start_offset > 0 { start_offset } else { 0 }),
{
    if partial_content && start_offset > 0 { start_offset } else { 0 }
}

/// What a single-stream run does before each request.
#[derive(Clone, Copy, Debug, PartialEq, Eq, Structural)]
pub enum SingleStart {
    /// Stop the run with this outcome.
    Stop(RunOutcome),
    /// Request the file from this offset (`Range: bytes=<offset>-` when
    /// the offset is not 0).
    Request(u64),
}

pub open spec fn spec_single_start(core: DownloadCore, token_cancelled: bool) -> SingleStart {
    if core.manifest.state == DownloadState::Canceled {
        SingleStart::Stop(RunOutcome::Canceled)
    } else if token_cancelled {
        SingleStart::Stop(if core.snapshot.state == DownloadState::Canceled { RunOutcome::Canceled } else { RunOutcome::Paused })
    } else {
        SingleStart::Request(spec_contiguous_prefix_end(core.manifest.chunks@, core.manifest.downloaded_bytes))
    }
}

/// The step of a single-stream run before a request, once the download is
/// active: a canceled download stops as canceled, a fired cancellation
/// token stops as `cancellation_outcome` says, and otherwise the request
/// resumes at the end of the gap-free prefix.
pub fn single_start(core: &DownloadCore, token_cancelled: bool) -> (r: SingleStart)
    ensures
        r == spec_single_start(*core, token_cancelled),
{
    if core.manifest.state == DownloadState::Canceled {
        return SingleStart::Stop(RunOutcome::Canceled);
    }
    if token_cancelled {
        return SingleStart::Stop(cancellation_outcome(core.snapshot.state));
    }
    SingleStart::Request(contiguous_prefix_end(&core.manifest))
}

/// The step of a single-stream run once the server answered a request made
/// from `start_offset`: the stream is written from `resume_offset`, the
/// saved progress must be reset (returned flag) when a resumed request was
/// not answered with 206, and the download is marked running with one
/// connection.
pub fn single_response(core: &mut DownloadCore, partial_content: bool, start_offset: u64, now: u64) -> (r: (u64, bool))
    ensures
        r == (
            if partial_content && start_offset > 0 { start_offset } else { 0u64 },
            start_offset > 0 && !partial_content,
        ),
        final(core).snapshot == (DownloadSnapshot {
            state: DownloadState::Downloading,
            connection_count: 1,
            updated_at_ms: now,
            ..old(core).snapshot
        }),
        final(core).manifest == (Manifest {
            state: DownloadState::Downloading,
            connection_count: 1,
            updated_at_ms: now,
            ..old(core).manifest
        }),
{
    let offset = resume_offset(partial_content, start_offset);
    mark_downloading(core, 1, now);
    (offset, start_offset > 0 && !partial_content)
}

/// A single stream is done when the known size is reached (or the size is unknown).
pub fn single_stream_finished(manifest: &Manifest) -> (r: bool)
    ensures
        r == match manifest.total_bytes {
            Some(t) => manifest.downloaded_bytes >= t,
            None => true,
        },
{
    match manifest.total_bytes {
        Some(t) => manifest.downloaded_bytes >= t,
        None => true,
    }
}

/// The value of a `Range` header for `[start, end]`.
pub fn segment_range(start: u64, end: u64) -> (r: String)
    ensures
        r@ == "bytes="@ + spec_decimal(start as nat) + "-"@ + spec_decimal(end as nat),
{
    let t = concat("bytes=", decimal_string(start).as_str());
    let t = concat(t.as_str(), "-");
    concat(t.as_str(), decimal_string(end).as_str())
}

/// The value of a `Range` header for everything from `start` on.
pub fn open_range(start: u64) -> (r: String)
    ensures
        r@ == "bytes="@ + spec_decimal(start as nat) + "-"@,
{
    let t = concat("bytes=", decimal_string(start).as_str());
    concat(t.as_str(), "-")
}

/// Files above 4 GiB - 1 cannot be stored on FAT32; the user is warned.
pub fn exceeds_fat32_limit(total: Option<u64>) -> (r: bool)
    ensures
        r == match total {
            Some(t) => t > FAT32_MAX_FILE_SIZE,
            None => false,
        },
{
    match total {
        Some(t) => t > FAT32_MAX_FILE_SIZE,
        None => false,
    }
}

// ── Chunk workers ────────────────────────────────────────────────────

/// The chunk at `chunk_index` exists and is no longer claimed by `worker_id`.
pub fn claim_lost(manifest: &Manifest, chunk_index: usize, worker_id: usize) -> (r: bool)
    ensures
        r == (chunk_index < manifest.chunks@.len() && manifest.chunks@[chunk_index as int].claimed_by != Some(worker_id)),
{
    chunk_index < manifest.chunks.len() && manifest.chunks[chunk_index].claimed_by != Some(worker_id)
}

/// The chunk at `chunk_index` exists and is still claimed by `worker_id`.
pub fn claim_held(manifest: &Manifest, chunk_index: usize, worker_id: usize) -> (r: bool)
    ensures
        r == (chunk_index < manifest.chunks@.len() && manifest.chunks@[chunk_index as int].claimed_by == Some(worker_id)),
{
    chunk_index < manifest.chunks.len() && manifest.chunks[chunk_index].claimed_by == Some(worker_id)
}

/// The chunk list after worker `worker_id` gives up its claim on the chunk
/// at `chunk_index` (as `mark_chunk_released` states).
pub open spec fn spec_after_release(chunks: Seq<ChunkManifest>, chunk_index: usize, worker_id: usize) -> Seq<ChunkManifest> {
    if chunk_index < chunks.len() && chunks[chunk_index as int].claimed_by == Some(worker_id) {
        chunks.update(chunk_index as int, spec_released(chunks[chunk_index as int]))
    } else {
        chunks
    }
}

/// How a chunk worker goes on once the server answered its range request.
#[derive(Clone, Copy, Debug, PartialEq, Eq, Structural)]
pub enum SegmentAnswer {
    /// The server sent the whole file (200): give up the claim and restart
    /// the download as a single stream.
    RestartSingle,
    /// The answer covers the range: stream its body.
    Stream,
}

/// The step of a chunk worker when the answer to its request for
/// `start..=end` arrives: a 200 gives up the claim and asks for a
/// single-stream restart; any other answer must carry a `Content-Range`
/// that covers exactly the range (`validate_segment_response`).
pub fn segment_answer(
    manifest: &mut Manifest,
    chunk_index: usize,
    worker_id: usize,
    status: u16,
    content_range: &Option<String>,
    start: u64,
    end: u64,
) -> (r: Result<SegmentAnswer, DownloadError>)
    ensures
        *final(manifest) == (Manifest { chunks: final(manifest).chunks, ..*old(manifest) }),
        status == 200 ==> r == Ok::<SegmentAnswer, DownloadError>(SegmentAnswer::RestartSingle)
            && final(manifest).chunks@ == spec_after_release(old(manifest).chunks@, chunk_index, worker_id),
        status != 200 ==> final(manifest).chunks@ == old(manifest).chunks@ && match spec_segment_check(
            opt_view(*content_range),
            start,
            end,
        ) {
            Ok(_) => r == Ok::<SegmentAnswer, DownloadError>(SegmentAnswer::Stream),
            Err(m) => r matches Err(DownloadError::InvalidResponse(x)) && x@ == m,
        },
{
    if status == 200 {
        mark_chunk_released(manifest, chunk_index, worker_id);
        return Ok(SegmentAnswer::RestartSingle);
    }
    match validate_segment_response(content_range, start, end) {
        Ok(()) => Ok(SegmentAnswer::Stream),
        Err(e) => Err(e),
    }
}

/// What a chunk worker does before each request for its range.
#[derive(Clone, Copy, Debug, PartialEq, Eq, Structural)]
pub enum WorkerStart {
    /// The worker ends with this outcome.
    Stop(ChunkWorkerOutcome),
    /// Request the rest of the range, `current..=end`.
    Request,
}

/// The step of a chunk worker before a request for `current..=end`: a
/// range already written gives up the claim and finishes; a fired
/// cancellation token gives up the claim and ends as the download's state
/// says (`cancellation_chunk_outcome`); a claim that the tail sprint handed
/// on ends the worker as finished; otherwise the worker requests its range.
pub fn chunk_worker_start(
    core: &mut DownloadCore,
    chunk_index: usize,
    worker_id: usize,
    current: u64,
    end: u64,
    token_cancelled: bool,
) -> (r: WorkerStart)
    ensures
        ({
            let chunks = old(core).manifest.chunks@;
            let released = spec_after_release(chunks, chunk_index, worker_id);
            &&& final(core).snapshot == old(core).snapshot
            &&& final(core).manifest == (Manifest { chunks: final(core).manifest.chunks, ..old(core).manifest })
            &&& if current > end {
                r == WorkerStart::Stop(ChunkWorkerOutcome::Finished) && final(core).manifest.chunks@ == released
            } else if token_cancelled {
                &&& r == WorkerStart::Stop(if old(core).snapshot.state == DownloadState::Canceled {
                    ChunkWorkerOutcome::Canceled
                } else {
                    ChunkWorkerOutcome::Paused
                })
                &&& final(core).manifest.chunks@ == released
            } else if chunk_index < chunks.len() && chunks[chunk_index as int].claimed_by != Some(worker_id) {
                r == WorkerStart::Stop(ChunkWorkerOutcome::Finished) && final(core).manifest.chunks@ == chunks
            } else {
                r == WorkerStart::Request && final(core).manifest.chunks@ == chunks
            }
        }),
{
    if current > end {
        mark_chunk_released(&mut core.manifest, chunk_index, worker_id);
        return WorkerStart::Stop(ChunkWorkerOutcome::Finished);
    }
    if token_cancelled {
        mark_chunk_released(&mut core.manifest, chunk_index, worker_id);
        return WorkerStart::Stop(cancellation_chunk_outcome(core.snapshot.state));
    }
    if claim_lost(&core.manifest, chunk_index, worker_id) {
        return WorkerStart::Stop(ChunkWorkerOutcome::Finished);
    }
    WorkerStart::Request
}

pub open spec fn spec_completed(c: ChunkManifest) -> ChunkManifest {
    ChunkManifest {
        completed: true,
        downloaded: (spec_sat_sub(c.end, c.start) + 1) as u64,
        claimed_by: None,
        dirty: true,
        ..c
    }
}

/// A worker that streamed its whole range marks the chunk complete, if it
/// still holds the claim.
pub fn complete_chunk_claim(manifest: &mut Manifest, chunk_index: usize, worker_id: usize, now: u64)
    requires
        chunk_index < old(manifest).chunks@.len() ==> spec_sat_sub(
            old(manifest).chunks@[chunk_index as int].end,
            old(manifest).chunks@[chunk_index as int].start,
        ) < u64::MAX,
    ensures
        final(manifest).chunks@ == (if chunk_index < old(manifest).chunks@.len()
            && old(manifest).chunks@[chunk_index as int].claimed_by == Some(worker_id) {
            old(manifest).chunks@.update(chunk_index as int, spec_completed(old(manifest).chunks@[chunk_index as int]))
        } else {
            old(manifest).chunks@
        }),
        *final(manifest) == (Manifest { chunks: final(manifest).chunks, updated_at_ms: now, ..*old(manifest) }),
{
    if chunk_index < manifest.chunks.len() {
        let mut c = manifest.chunks[chunk_index];
        if c.claimed_by == Some(worker_id) {
            c.completed = true;
            c.downloaded = c.end.saturating_sub(c.start) + 1;
            c.claimed_by = None;
            c.dirty = true;
            manifest.chunks.set(chunk_index, c);
        }
    }
    manifest.updated_at_ms = now;
}

// ── Recorded transitions ─────────────────────────────────────────────

/// Marks the download as running with `connections` connections.
pub fn mark_downloading(core: &mut DownloadCore, connections: usize, now: u64)
    ensures
        final(core).snapshot == (DownloadSnapshot {
            state: DownloadState::Downloading,
            connection_count: connections,
            updated_at_ms: now,
            ..old(core).snapshot
        }),
        final(core).manifest == (Manifest {
            state: DownloadState::Downloading,
            connection_count: connections,
            updated_at_ms: now,
            ..old(core).manifest
        }),
{
    core.snapshot.state = DownloadState::Downloading;
    core.snapshot.connection_count = connections;
    core.snapshot.updated_at_ms = now;
    core.manifest.state = DownloadState::Downloading;
    core.manifest.connection_count = connections;
    core.manifest.updated_at_ms = now;
}

/// Marks the download as paused with no threads.
pub fn mark_paused(core: &mut DownloadCore, now: u64)
    ensures
        final(core).snapshot == (DownloadSnapshot {
            state: DownloadState::Paused,
            connection_count: 0,
            allocated_thread_count: Some(0),
            updated_at_ms: now,
            ..old(core).snapshot
        }),
        final(core).manifest == (Manifest {
            state: DownloadState::Paused,
            connection_count: 0,
            allocated_thread_count: Some(0),
            updated_at_ms: now,
            ..old(core).manifest
        }),
{
    core.snapshot.state = DownloadState::Paused;
    core.snapshot.connection_count = 0;
    core.snapshot.allocated_thread_count = Some(0);
    core.snapshot.updated_at_ms = now;
    core.manifest.state = DownloadState::Paused;
    core.manifest.connection_count = 0;
    core.manifest.allocated_thread_count = Some(0);
    core.manifest.updated_at_ms = now;
}

/// Marks the download as being verified, with no threads.
pub fn mark_verifying(core: &mut DownloadCore, now: u64)
    ensures
        final(core).snapshot == (DownloadSnapshot {
            state: DownloadState::Verifying,
            connection_count: 0,
            allocated_thread_count: Some(0),
            updated_at_ms: now,
            ..old(core).snapshot
        }),
        final(core).manifest == (Manifest {
            state: DownloadState::Verifying,
            connection_count: 0,
            allocated_thread_count: Some(0),
            updated_at_ms: now,
            ..old(core).manifest
        }),
{
    core.snapshot.state = DownloadState::Verifying;
    core.snapshot.connection_count = 0;
    core.snapshot.allocated_thread_count = Some(0);
    core.snapshot.updated_at_ms = now;
    core.manifest.state = DownloadState::Verifying;
    core.manifest.connection_count = 0;
    core.manifest.allocated_thread_count = Some(0);
    core.manifest.updated_at_ms = now;
}

/// Marks the download failed with message `msg`; `release_threads` also
/// zeroes the thread allocation.
pub fn mark_failed(core: &mut DownloadCore, msg: String, release_threads: bool, now: u64)
    ensures
        final(core).snapshot == (DownloadSnapshot {
            state: DownloadState::Failed,
            error: Some(msg),
            connection_count: 0,
            allocated_thread_count: if release_threads { Some(0) } else { old(core).snapshot.allocated_thread_count },
            updated_at_ms: now,
            ..old(core).snapshot
        }),
        final(core).manifest == (Manifest {
            state: DownloadState::Failed,
            error: Some(msg),
            connection_count: 0,
            allocated_thread_count: if release_threads { Some(0) } else { old(core).manifest.allocated_thread_count },
            updated_at_ms: now,
            ..old(core).manifest
        }),
{
    core.snapshot.state = DownloadState::Failed;
    core.snapshot.error = Some(msg.clone());
    core.snapshot.connection_count = 0;
    core.manifest.state = DownloadState::Failed;
    core.manifest.error = Some(msg);
    core.manifest.connection_count = 0;
    if release_threads {
        core.snapshot.allocated_thread_count = Some(0);
        core.manifest.allocated_thread_count = Some(0);
    }
    core.snapshot.updated_at_ms = now;
    core.manifest.updated_at_ms = now;
}

/// The periodic free-space check found too little room for `remaining`
/// bytes: the download fails and this error is returned.
pub fn fail_for_disk_space(core: &mut DownloadCore, remaining: u64, now: u64) -> (e: DownloadError)
    ensures
        e == (DownloadError::InsufficientDiskSpace { available: 0, required: remaining }),
        final(core).manifest.state == DownloadState::Failed,
        final(core).manifest.error matches Some(m) && m@ == "Insufficient disk space: "@ + spec_decimal(remaining as nat)
            + " bytes remaining"@,
        final(core).manifest == (Manifest {
            state: DownloadState::Failed,
            error: final(core).manifest.error,
            connection_count: 0,
            updated_at_ms: now,
            ..old(core).manifest
        }),
        final(core).snapshot == (DownloadSnapshot {
            state: DownloadState::Failed,
            error: final(core).manifest.error,
            connection_count: 0,
            updated_at_ms: now,
            ..old(core).snapshot
        }),
{
    let t = concat("Insufficient disk space: ", decimal_string(remaining).as_str());
    let msg = concat(t.as_str(), " bytes remaining");
    mark_failed(core, msg, false, now);
    DownloadError::InsufficientDiskSpace { available: 0, required: remaining }
}

/// How the finished file's checksum is obtained.
#[derive(Clone, Debug, PartialEq, Eq)]
pub enum ChecksumPlan {
    /// Checksums are off.
    Skip,
    /// The one computed while downloading.
    Use(String),
    /// Computed from the file with this algorithm.
    Compute(ChecksumMode),
}

/// Checksum source at finalization: none when disabled, the incremental
/// one when present, else a pass over the file.
pub fn finalize_checksum_plan(mode: ChecksumMode, precomputed: Option<String>) -> (r: ChecksumPlan)
    ensures
        r == (if mode == ChecksumMode::Disabled {
            ChecksumPlan::Skip
        } else {
            match precomputed {
                Some(c) => ChecksumPlan::Use(c),
                None => ChecksumPlan::Compute(mode),
            }
        }),
{
    match mode {
        ChecksumMode::Disabled => ChecksumPlan::Skip,
        _ => match precomputed {
            Some(c) => ChecksumPlan::Use(c),
            None => ChecksumPlan::Compute(mode),
        },
    }
}

/// The failure message when an expected checksum does not match the
/// computed one (compared ignoring ASCII case); `None` when they match or
/// either is missing.
pub fn checksum_mismatch_message(expected: &Option<String>, computed: &Option<String>) -> (r: Option<String>)
    ensures
        match (*expected, *computed) {
            (Some(e), Some(c)) => if spec_eq_ignore_ascii_case(e@, c@) {
                r is None
            } else {
                r matches Some(m) && m@ == "Checksum mismatch: expected "@ + e@ + ", got "@ + c@
            },
            _ => r is None,
        },
{
    match (expected, computed) {
        (Some(e), Some(c)) => {
            let ec = chars_of(e.as_str());
            let cc = chars_of(c.as_str());
            if eq_ignore_ascii_case(&ec, &cc) {
                None
            } else {
                let t = concat("Checksum mismatch: expected ", e.as_str());
                let t = concat(t.as_str(), ", got ");
                Some(concat(t.as_str(), c.as_str()))
            }
        },
        _ => None,
    }
}

pub open spec fn spec_finished_chunks(chunks: Seq<ChunkManifest>) -> Seq<ChunkManifest> {
    chunks.map_values(|c: ChunkManifest| spec_completed(c))
}

/// Records a finished download: completed, byte count at the file size,
/// the checksum and final path set, the error cleared, every chunk full.
pub fn mark_completed(core: &mut DownloadCore, checksum: Option<String>, destination_path: String, now: u64)
    requires
        forall|i: int| 0 <= i < old(core).manifest.chunks@.len() ==> spec_sat_sub(
            (#[trigger] old(core).manifest.chunks@[i]).end,
            old(core).manifest.chunks@[i].start,
        ) < u64::MAX,
    ensures
        final(core).snapshot == (DownloadSnapshot {
            state: DownloadState::Completed,
            downloaded_bytes: match old(core).snapshot.total_bytes {
                Some(t) => t,
                None => old(core).snapshot.downloaded_bytes,
            },
            checksum: checksum,
            destination_path: destination_path,
            error: None,
            updated_at_ms: now,
            ..old(core).snapshot
        }),
        final(core).manifest.chunks@ == spec_finished_chunks(old(core).manifest.chunks@),
        final(core).manifest == (Manifest {
            state: DownloadState::Completed,
            downloaded_bytes: match old(core).manifest.total_bytes {
                Some(t) => t,
                None => old(core).manifest.downloaded_bytes,
            },
            checksum: checksum,
            destination_path: destination_path,
            error: None,
            updated_at_ms: now,
            chunks: final(core).manifest.chunks,
            ..old(core).manifest
        }),
{
    core.snapshot.state = DownloadState::Completed;
    core.snapshot.downloaded_bytes = match core.snapshot.total_bytes {
        Some(t) => t,
        None => core.snapshot.downloaded_bytes,
    };
    core.snapshot.checksum = checksum.clone();
    core.snapshot.destination_path = destination_path.clone();
    core.snapshot.error = None;
    core.snapshot.updated_at_ms = now;
    core.manifest.state = DownloadState::Completed;
    core.manifest.downloaded_bytes = match core.manifest.total_bytes {
        Some(t) => t,
        None => core.manifest.downloaded_bytes,
    };
    core.manifest.checksum = checksum;
    core.manifest.destination_path = destination_path;
    core.manifest.error = None;
    core.manifest.updated_at_ms = now;
    let ghost c0 = core.manifest.chunks@;
    let ghost m1 = core.manifest;
    let ghost s1 = core.snapshot;
    let mut i: usize = 0;
    while i < core.manifest.chunks.len()
        invariant
            i <= c0.len(),
            core.manifest.chunks@.len() == c0.len(),
            core.snapshot == s1,
            core.manifest == (Manifest { chunks: core.manifest.chunks, ..m1 }),
            forall|k: int| 0 <= k < c0.len() ==> spec_sat_sub((#[trigger] c0[k]).end, c0[k].start) < u64::MAX,
            forall|k: int| 0 <= k < i ==> core.manifest.chunks@[k] == spec_completed(c0[k]),
            forall|k: int| i <= k < c0.len() ==> core.manifest.chunks@[k] == c0[k],
        decreases c0.len() - i,
    {
        let mut c = core.manifest.chunks[i];
        c.completed = true;
        c.downloaded = c.end.saturating_sub(c.start) + 1;
        c.claimed_by = None;
        c.dirty = true;
        core.manifest.chunks.set(i, c);
        i = i + 1;
    }
    assert(core.manifest.chunks@ =~= spec_finished_chunks(c0));
}

/// Finalization stops when the token is cancelled or either view of the
/// download says it was canceled.
pub fn finalize_was_canceled(token_cancelled: bool, core: &DownloadCore) -> (r: bool)
    ensures
        r == (token_cancelled || core.snapshot.state == DownloadState::Canceled
            || core.manifest.state == DownloadState::Canceled),
{
    if token_cancelled {
        return true;
    }
    core.snapshot.state == DownloadState::Canceled || core.manifest.state == DownloadState::Canceled
}

// ── Applying a probe ─────────────────────────────────────────────────

/// The sanitized server-given name `safe`, when the download has not
/// started, its name is not fixed yet and the name would change.
pub open spec fn spec_proposed_name(m: Manifest, safe: Seq<char>) -> Option<Seq<char>> {
    if !m.file_name_locked && m.downloaded_bytes == 0 && safe.len() > 0 && safe != m.file_name@ {
        Some(safe)
    } else {
        None
    }
}

/// The new file name a probe suggests, given the sanitized server-given
/// name (`spec_proposed_name`).
pub fn proposed_from_sanitized(manifest: &Manifest, safe: String) -> (r: Option<String>)
    ensures
        opt_view(r) == spec_proposed_name(*manifest, safe@),
{
    if manifest.file_name_locked || manifest.downloaded_bytes != 0 {
        return None;
    }
    if safe.as_str().is_empty() || str_equals(safe.as_str(), manifest.file_name.as_str()) {
        return None;
    }
    Some(safe)
}

/// New file name suggested by a probe: the server-given name, sanitized,
/// passed to `proposed_from_sanitized`; the caller picks a free
/// destination path for it.
pub fn proposed_file_name(manifest: &Manifest, metadata: &RemoteMetadata) -> (r: Option<String>)
    ensures
        exists|safe: Seq<char>|
            #[trigger] spec_sanitized_from(safe, metadata.file_name@) && opt_view(r) == spec_proposed_name(*manifest, safe),
{
    let safe = sanitize_file_name(metadata.file_name.as_str());
    let ghost sv = safe@;
    let r = proposed_from_sanitized(manifest, safe);
    assert(spec_sanitized_from(sv, metadata.file_name@) && opt_view(r) == spec_proposed_name(*manifest, sv));
    r
}

/// The manifest after the file name is settled: an unstarted download
/// with an unfixed name takes the new name and path (if any) and fixes it.
pub open spec fn spec_named(m: Manifest, rename: Option<(String, String)>) -> Manifest {
    if !m.file_name_locked && m.downloaded_bytes == 0 {
        match rename {
            Some((name, path)) => Manifest { file_name: name, destination_path: path, file_name_locked: true, ..m },
            None => Manifest { file_name_locked: true, ..m },
        }
    } else {
        m
    }
}

/// The remote file no longer matches the saved progress: validators,
/// size or range support changed, or a ranged download has no chunk plan.
pub open spec fn spec_probe_resets(m: Manifest, metadata: RemoteMetadata, supports_parallel: bool) -> bool {
    spec_validators_changed(m.etag, m.last_modified, metadata.etag, metadata.last_modified)
        || m.total_bytes != metadata.total_bytes || m.supports_ranges != supports_parallel
        || (supports_parallel && m.chunks@.len() == 0)
}

/// A single-stream run with chunk progress left over restarts from zero.
pub open spec fn spec_probe_restarts_single(m: Manifest, metadata: RemoteMetadata, supports_parallel: bool) -> bool {
    !spec_probe_resets(m, metadata, supports_parallel) && !supports_parallel
        && spec_has_partial_chunk_progress(m.chunks@)
}

fn settle_file_name(m: &mut Manifest, rename: Option<(String, String)>)
    ensures
        *final(m) == spec_named(*old(m), rename),
{
    if !m.file_name_locked && m.downloaded_bytes == 0 {
        match rename {
            Some((name, path)) => {
                m.file_name = name;
                m.destination_path = path;
            },
            None => {},
        }
        m.file_name_locked = true;
    }
}

fn reset_for_probe(m: &mut Manifest, metadata: &RemoteMetadata, chunk_size: u64, supports_parallel: bool) -> (r: (bool, bool))
    requires
        supports_parallel && metadata.total_bytes is Some ==> spec_plan_fits(
            metadata.total_bytes->0,
            spec_effective_chunk_size(chunk_size),
        ),
    ensures
        r.0 == spec_probe_resets(*old(m), *metadata, supports_parallel),
        r.1 == spec_probe_restarts_single(*old(m), *metadata, supports_parallel),
        r.0 ==> (if supports_parallel && metadata.total_bytes is Some {
            spec_is_chunk_plan(final(m).chunks@, metadata.total_bytes->0, spec_effective_chunk_size(chunk_size))
        } else {
            final(m).chunks@.len() == 0
        }),
        r.0 ==> *final(m) == (Manifest {
            downloaded_bytes: 0,
            chunks: final(m).chunks,
            chunk_size: chunk_size,
            checksum: None,
            supports_ranges: supports_parallel,
            ..*old(m)
        }),
        r.1 ==> final(m).chunks@.len() == 0 && *final(m) == (Manifest {
            downloaded_bytes: 0,
            connection_count: 1,
            supports_ranges: false,
            chunks: final(m).chunks,
            checksum: None,
            ..*old(m)
        }),
        !r.0 && !r.1 ==> *final(m) == *old(m),
{
    let resets = validators_changed(m, metadata) || m.total_bytes != metadata.total_bytes
        || m.supports_ranges != supports_parallel || (supports_parallel && m.chunks.len() == 0);
    if resets {
        m.downloaded_bytes = 0;
        m.chunks = plan_chunks(metadata.total_bytes, supports_parallel, chunk_size);
        m.chunk_size = chunk_size;
        m.checksum = None;
        m.supports_ranges = supports_parallel;
        return (true, false);
    }
    if !supports_parallel && has_partial_chunk_progress(m) {
        m.downloaded_bytes = 0;
        m.connection_count = 1;
        m.supports_ranges = false;
        m.chunks = Vec::new();
        m.checksum = None;
        return (false, true);
    }
    (false, false)
}

/// The manifest after a probe's metadata and the run's thread settings are recorded.
pub open spec fn spec_probe_recorded(
    m: Manifest,
    metadata: RemoteMetadata,
    supports_parallel: bool,
    thread_settings: (ThreadMode, Option<usize>, Option<usize>, Option<AdaptiveProfile>),
    note: Option<String>,
    now: u64,
) -> Manifest {
    Manifest {
        final_url: metadata.final_url,
        supports_ranges: supports_parallel,
        total_bytes: metadata.total_bytes,
        etag: metadata.etag,
        last_modified: metadata.last_modified,
        thread_mode: thread_settings.0,
        requested_thread_count: thread_settings.1,
        desired_thread_count: if supports_parallel { thread_settings.2 } else { Some(1usize) },
        adaptive_profile_snapshot: thread_settings.3,
        thread_note: note,
        updated_at_ms: now,
        error: None,
        ..m
    }
}

fn record_probe(
    m: &mut Manifest,
    metadata: &RemoteMetadata,
    supports_parallel: bool,
    thread_settings: (ThreadMode, Option<usize>, Option<usize>, Option<AdaptiveProfile>),
    now: u64,
) -> (refresh: bool)
    ensures
        refresh == (old(m).desired_thread_count != thread_settings.2
            || old(m).adaptive_profile_snapshot != thread_settings.3),
        opt_view(final(m).thread_note) == spec_thread_note(supports_parallel, thread_settings.0, thread_settings.3),
        *final(m) == spec_probe_recorded(*old(m), *metadata, supports_parallel, thread_settings, final(m).thread_note, now),
{
    m.final_url = metadata.final_url.clone();
    m.supports_ranges = supports_parallel;
    m.total_bytes = metadata.total_bytes;
    m.etag = match &metadata.etag {
        Some(e) => Some(e.clone()),
        None => None,
    };
    m.last_modified = match &metadata.last_modified {
        Some(l) => Some(l.clone()),
        None => None,
    };
    m.thread_mode = thread_settings.0;
    m.requested_thread_count = thread_settings.1;
    let refresh = m.desired_thread_count != thread_settings.2 || m.adaptive_profile_snapshot != thread_settings.3;
    m.desired_thread_count = thread_settings.2;
    m.adaptive_profile_snapshot = thread_settings.3;
    m.thread_note = thread_note(supports_parallel, thread_settings.0, thread_settings.3);
    m.updated_at_ms = now;
    m.error = None;
    if !supports_parallel {
        m.thread_note = Some(owned("单线程（服务器不支持分段）"));
        m.desired_thread_count = Some(1);
    }
    refresh
}

/// Records a probe's result in a download before a run and syncs the
/// snapshot: the file name is settled (`spec_named`), progress is reset
/// when the remote file changed (`spec_probe_resets`) or a single stream
/// must restart (`spec_probe_restarts_single`), and the metadata and
/// thread settings are stored (`spec_probe_recorded`). Returns whether
/// progress was reset, whether the single stream restarts, and whether
/// the adaptive controller needs a fresh state.
pub fn apply_probe_metadata(
    core: &mut DownloadCore,
    metadata: &RemoteMetadata,
    chunk_size: u64,
    supports_parallel: bool,
    thread_settings: (ThreadMode, Option<usize>, Option<usize>, Option<AdaptiveProfile>),
    rename: Option<(String, String)>,
    now: u64,
) -> (r: (bool, bool, bool))
    requires
        supports_parallel && metadata.total_bytes is Some ==> spec_plan_fits(
            metadata.total_bytes->0,
            spec_effective_chunk_size(chunk_size),
        ),
    ensures
        ({
            let m1 = spec_named(old(core).manifest, rename);
            let resets = spec_probe_resets(m1, *metadata, supports_parallel);
            let restarts = spec_probe_restarts_single(m1, *metadata, supports_parallel);
            let m = final(core).manifest;
            &&& r == (resets || restarts, restarts, m1.desired_thread_count != thread_settings.2
                || m1.adaptive_profile_snapshot != thread_settings.3)
            &&& (resets ==> if supports_parallel && metadata.total_bytes is Some {
                spec_is_chunk_plan(m.chunks@, metadata.total_bytes->0, spec_effective_chunk_size(chunk_size))
            } else {
                m.chunks@.len() == 0
            })
            &&& (restarts ==> m.chunks@.len() == 0)
            &&& (!resets && !restarts ==> m.chunks@ == m1.chunks@)
            &&& opt_view(m.thread_note) == spec_thread_note(supports_parallel, thread_settings.0, thread_settings.3)
            &&& m == spec_probe_recorded(
                Manifest {
                    downloaded_bytes: if resets || restarts { 0 } else { m1.downloaded_bytes },
                    chunks: m.chunks,
                    chunk_size: if resets { chunk_size } else { m1.chunk_size },
                    checksum: if resets || restarts { None } else { m1.checksum },
                    connection_count: if restarts { 1 } else { m1.connection_count },
                    ..m1
                },
                *metadata,
                supports_parallel,
                thread_settings,
                m.thread_note,
                now,
            )
            &&& spec_synced(final(core).snapshot, old(core).snapshot, m)
        }),
{
    settle_file_name(&mut core.manifest, rename);
    let (resets, restarts) = reset_for_probe(&mut core.manifest, metadata, chunk_size, supports_parallel);
    let refresh = record_probe(&mut core.manifest, metadata, supports_parallel, thread_settings, now);
    core.sync_snapshot_from_manifest();
    (resets || restarts, restarts, refresh)
}

// ── Completion notice ────────────────────────────────────────────────

/// The 64-bit XXH3 hash (`xxhash_rust::xxh3::xxh3_64`) of the UTF-8 bytes of a string.
pub uninterp spec fn spec_xxh3_64(s: Seq<char>) -> u64;

/// Calls `xxhash_rust::xxh3::xxh3_64` on the bytes of `s`; the contract
/// names the hash `spec_xxh3_64`.
#[verifier::external_body]
fn xxh3_64_of(s: &str) -> (h: u64)
    ensures
        h == spec_xxh3_64(s@),
{
    xxhash_rust::xxh3::xxh3_64(s.as_bytes())
}

/// Lower-case hexadecimal digit of `d < 16`.
pub open spec fn spec_hex_digit(d: nat) -> char {
    if d < 10 { ((48 + d) as u8) as char } else { ((87 + d) as u8) as char }
}

/// The lowest `n` hexadecimal digits of `v`, most significant first.
pub open spec fn spec_hex_digits(v: nat, n: nat) -> Seq<char>
    decreases n,
{
    if n == 0 {
        Seq::empty()
    } else {
        spec_hex_digits(v / 16, (n - 1) as nat).push(spec_hex_digit(v % 16))
    }
}

fn hex_digit(d: u64) -> (c: char)
    requires
        d < 16,
    ensures
        c == spec_hex_digit(d as nat),
{
    if d < 10 { ((48 + d) as u8) as char } else { ((87 + d) as u8) as char }
}

/// The lowest `n` hexadecimal digits of `v` (`format!("{:0n$x}")` for values below 16^n).
pub fn hex_digits(v: u64, n: usize) -> (s: String)
    ensures
        s@ == spec_hex_digits(v as nat, n as nat),
    decreases n,
{
    if n == 0 {
        return String::new();
    }
    let mut s = hex_digits(v / 16, n - 1);
    s.push(hex_digit(v % 16));
    s
}

/// The aria2 GID of a download: 16 lower-case hex digits of the XXH3
/// hash of its ID.
pub fn download_complete_gid(download_id: &str) -> (gid: String)
    ensures
        gid@ == spec_hex_digits(spec_xxh3_64(download_id@) as nat, 16),
{
    hex_digits(xxh3_64_of(download_id), 16)
}

} // verus!
