//! Incremental BLAKE3 checksum of the bytes a download writes, so that
//! finalizing needs no second read of the file.

use vstd::prelude::*;

use crate::manager::{record_progress_on_managed, spec_chunks_after_progress, spec_sat_add, DownloadCore};
use crate::http_executor::claim_held;
use crate::manifest::Manifest;
use crate::types::{ChecksumMode, DownloadSnapshot};
use crate::urls::opt_view;

verus! {

#[verifier::external_type_specification]
#[verifier::external_body]
pub struct ExBlake3Hasher(blake3::Hasher);

/// The bytes fed to a `blake3::Hasher` so far, in order.
pub uninterp spec fn spec_hasher_input(h: blake3::Hasher) -> Seq<u8>;

/// The lowercase hexadecimal BLAKE3 hash of a byte string.
pub uninterp spec fn spec_blake3_hex(data: Seq<u8>) -> Seq<char>;

/// Calls `blake3::Hasher::new`: a hasher that has been fed nothing.
#[verifier::external_body]
fn blake3_hasher_new() -> (h: blake3::Hasher)
    ensures
        spec_hasher_input(h) == Seq::<u8>::empty(),
{
    blake3::Hasher::new()
}

/// Calls `blake3::Hasher::update`, which adds `data` to the hashed input
/// ("You can call this any number of times"): the input grows by `data`.
/// A hasher from `new` has input offset 0, on which `update` does not panic.
#[verifier::external_body]
fn blake3_update(h: &mut blake3::Hasher, data: &[u8])
    ensures
        spec_hasher_input(*final(h)) == spec_hasher_input(*old(h)) + data@,
{
    h.update(data);
}

/// Calls `blake3::Hasher::finalize` and `Hash::to_hex`: the 64 lowercase
/// hexadecimal digits of the hash of all input fed so far. The crate's
/// documentation shows that feeding `foo`, `bar`, `baz` finalizes to the hash
/// of `foobarbaz`, so the result depends on the concatenated input alone.
#[verifier::external_body]
fn blake3_finalize_hex(h: &blake3::Hasher) -> (s: String)
    ensures
        s@ == spec_blake3_hex(spec_hasher_input(*h)),
        s@.len() == 64,
{
    h.finalize().to_hex().to_string()
}

/// The running checksum of a download: present only in BLAKE3 mode, where
/// it has been fed every byte written so far.
pub struct IncrementalChecksum {
    hasher: Option<blake3::Hasher>,
}

impl IncrementalChecksum {
    /// The bytes fed so far, or `None` when no checksum is computed.
    pub closed spec fn fed(&self) -> Option<Seq<u8>> {
        match self.hasher {
            Some(h) => Some(spec_hasher_input(h)),
            None => None,
        }
    }

    /// A fresh checksum for a download in `mode`: fed nothing in BLAKE3
    /// mode, absent in every other mode (those are computed at finalize).
    pub fn new(mode: ChecksumMode) -> (c: IncrementalChecksum)
        ensures
            c.fed() == (if mode == ChecksumMode::Blake3 { Some(Seq::<u8>::empty()) } else { None::<Seq<u8>> }),
    {
        match mode {
            ChecksumMode::Blake3 => IncrementalChecksum { hasher: Some(blake3_hasher_new()) },
            _ => IncrementalChecksum { hasher: None },
        }
    }

    /// Whether a checksum is being computed.
    pub fn is_active(&self) -> (r: bool)
        ensures
            r == (self.fed() is Some),
    {
        self.hasher.is_some()
    }

    /// Feeds written bytes: the fed input grows by `data` when a checksum
    /// is computed.
    pub fn feed(&mut self, data: &[u8])
        ensures
            final(self).fed() == (match old(self).fed() {
                Some(s) => Some(s + data@),
                None => None::<Seq<u8>>,
            }),
    {
        match &mut self.hasher {
            Some(h) => blake3_update(h, data),
            None => {},
        }
    }

    /// The hexadecimal checksum of everything fed, when one is computed.
    pub fn finish(&self) -> (r: Option<String>)
        ensures
            match self.fed() {
                Some(s) => r matches Some(h) && h@ == spec_blake3_hex(s) && h@.len() == 64,
                None => r is None,
            },
    {
        match &self.hasher {
            Some(h) => Some(blake3_finalize_hex(h)),
            None => None,
        }
    }
}

/// A worker's step after a piece of the body has been written at its
/// place: the bytes are fed to the running checksum and accounted as
/// progress of the chunk (or of the single stream), as
/// `record_progress_on_managed` states.
pub fn record_written_piece(
    core: &mut DownloadCore,
    checksum: &mut IncrementalChecksum,
    chunk_index: Option<usize>,
    data: &[u8],
    now: u64,
)
    ensures
        final(checksum).fed() == (match old(checksum).fed() {
            Some(s) => Some(s + data@),
            None => None::<Seq<u8>>,
        }),
        final(core).snapshot == (DownloadSnapshot {
            downloaded_bytes: spec_sat_add(old(core).snapshot.downloaded_bytes, data@.len() as u64),
            error: None,
            updated_at_ms: now,
            ..old(core).snapshot
        }),
        final(core).manifest.chunks@ == spec_chunks_after_progress(old(core).manifest.chunks@, chunk_index, data@.len() as u64),
        final(core).manifest == (Manifest {
            downloaded_bytes: spec_sat_add(old(core).manifest.downloaded_bytes, data@.len() as u64),
            error: None,
            updated_at_ms: now,
            chunks: final(core).manifest.chunks,
            ..old(core).manifest
        }),
{
    checksum.feed(data);
    record_progress_on_managed(core, chunk_index, data.len() as u64, now);
}

/// A chunk worker's step after writing a piece of its range: the piece is
/// fed and accounted (`record_written_piece`), and the worker stops when
/// it no longer holds the claim on its chunk (the chunk completed, or the
/// tail sprint released it).
pub fn chunk_piece_written(
    core: &mut DownloadCore,
    checksum: &mut IncrementalChecksum,
    chunk_index: usize,
    worker_id: usize,
    data: &[u8],
    now: u64,
) -> (stop: bool)
    ensures
        final(checksum).fed() == (match old(checksum).fed() {
            Some(s) => Some(s + data@),
            None => None::<Seq<u8>>,
        }),
        final(core).snapshot == (DownloadSnapshot {
            downloaded_bytes: spec_sat_add(old(core).snapshot.downloaded_bytes, data@.len() as u64),
            error: None,
            updated_at_ms: now,
            ..old(core).snapshot
        }),
        final(core).manifest.chunks@ == spec_chunks_after_progress(
            old(core).manifest.chunks@,
            Some(chunk_index),
            data@.len() as u64,
        ),
        final(core).manifest == (Manifest {
            downloaded_bytes: spec_sat_add(old(core).manifest.downloaded_bytes, data@.len() as u64),
            error: None,
            updated_at_ms: now,
            chunks: final(core).manifest.chunks,
            ..old(core).manifest
        }),
        stop == !(chunk_index < final(core).manifest.chunks@.len()
            && final(core).manifest.chunks@[chunk_index as int].claimed_by == Some(worker_id)),
{
    record_written_piece(core, checksum, Some(chunk_index), data, now);
    !claim_held(&core.manifest, chunk_index, worker_id)
}

/// Stores the finished incremental checksum, when one was computed, as the
/// download's checksum in the manifest and the snapshot; otherwise leaves
/// the download unchanged.
pub fn store_incremental_checksum(core: &mut DownloadCore, checksum: &IncrementalChecksum)
    ensures
        match checksum.fed() {
            Some(s) => {
                &&& final(core).manifest.checksum matches Some(h) && h@ == spec_blake3_hex(s)
                &&& opt_view(final(core).snapshot.checksum) == opt_view(final(core).manifest.checksum)
                &&& final(core).manifest == (Manifest { checksum: final(core).manifest.checksum, ..old(core).manifest })
                &&& final(core).snapshot == (DownloadSnapshot { checksum: final(core).snapshot.checksum, ..old(core).snapshot })
            },
            None => *final(core) == *old(core),
        },
{
    match checksum.finish() {
        Some(hex) => {
            let copy = hex.clone();
            core.manifest.checksum = Some(hex);
            core.snapshot.checksum = Some(copy);
        },
        None => {},
    }
}

} // verus!
