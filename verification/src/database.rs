//! How downloads are stored in the database: enum names as text, flags as
//! integers, a manifest as one `downloads` row and a chunk as one `chunks`
//! row, plus the progress entries written by the periodic persist.
use vstd::prelude::*;

use crate::error::DownloadError;
use crate::manager::DownloadCore;
use crate::manifest::{ChunkManifest, Manifest};
use crate::text::{concat, owned, str_equals};
use crate::types::{
    spec_priority_code, spec_priority_from_code, AdaptiveProfile, ChecksumMode, DownloadState, Priority,
    ThreadMode,
};
use crate::urls::opt_view;

verus! {

// ── Enum names ───────────────────────────────────────────────────────

pub open spec fn spec_state_text(state: DownloadState) -> Seq<char> {
    match state {
        DownloadState::Queued => "queued"@,
        DownloadState::Downloading => "downloading"@,
        DownloadState::Paused => "paused"@,
        DownloadState::Retrying => "retrying"@,
        DownloadState::Verifying => "verifying"@,
        DownloadState::Completed => "completed"@,
        DownloadState::Failed => "failed"@,
        DownloadState::Canceled => "canceled"@,
    }
}

/// The stored (snake_case) name of a download state.
pub fn download_state_to_text(state: &DownloadState) -> (t: &'static str)
    ensures
        t@ == spec_state_text(*state),
{
    match state {
        DownloadState::Queued => "queued",
        DownloadState::Downloading => "downloading",
        DownloadState::Paused => "paused",
        DownloadState::Retrying => "retrying",
        DownloadState::Verifying => "verifying",
        DownloadState::Completed => "completed",
        DownloadState::Failed => "failed",
        DownloadState::Canceled => "canceled",
    }
}

/// The state stored under a name, or the message for an unknown name.
pub open spec fn spec_text_to_state(s: Seq<char>) -> Result<DownloadState, Seq<char>> {
    if s == "queued"@ {
        Ok(DownloadState::Queued)
    } else if s == "downloading"@ {
        Ok(DownloadState::Downloading)
    } else if s == "paused"@ {
        Ok(DownloadState::Paused)
    } else if s == "retrying"@ {
        Ok(DownloadState::Retrying)
    } else if s == "verifying"@ {
        Ok(DownloadState::Verifying)
    } else if s == "completed"@ {
        Ok(DownloadState::Completed)
    } else if s == "failed"@ {
        Ok(DownloadState::Failed)
    } else if s == "canceled"@ {
        Ok(DownloadState::Canceled)
    } else {
        Err("unknown download state: "@ + s)
    }
}

pub fn text_to_state(s: &str) -> (r: Result<DownloadState, String>)
    ensures
        match spec_text_to_state(s@) {
            Ok(v) => r == Ok::<DownloadState, String>(v),
            Err(m) => r matches Err(x) && x@ == m,
        },
{
    if str_equals(s, "queued") {
        Ok(DownloadState::Queued)
    } else if str_equals(s, "downloading") {
        Ok(DownloadState::Downloading)
    } else if str_equals(s, "paused") {
        Ok(DownloadState::Paused)
    } else if str_equals(s, "retrying") {
        Ok(DownloadState::Retrying)
    } else if str_equals(s, "verifying") {
        Ok(DownloadState::Verifying)
    } else if str_equals(s, "completed") {
        Ok(DownloadState::Completed)
    } else if str_equals(s, "failed") {
        Ok(DownloadState::Failed)
    } else if str_equals(s, "canceled") {
        Ok(DownloadState::Canceled)
    } else {
        Err(concat("unknown download state: ", s))
    }
}

pub open spec fn spec_thread_mode_text(mode: ThreadMode) -> Seq<char> {
    match mode {
        ThreadMode::Fixed => "fixed"@,
        ThreadMode::Adaptive => "adaptive"@,
    }
}

pub fn thread_mode_to_text(mode: ThreadMode) -> (t: &'static str)
    ensures
        t@ == spec_thread_mode_text(mode),
{
    match mode {
        ThreadMode::Fixed => "fixed",
        ThreadMode::Adaptive => "adaptive",
    }
}

pub open spec fn spec_text_to_thread_mode(s: Seq<char>) -> Result<ThreadMode, Seq<char>> {
    if s == "fixed"@ {
        Ok(ThreadMode::Fixed)
    } else if s == "adaptive"@ {
        Ok(ThreadMode::Adaptive)
    } else {
        Err("unknown thread mode: "@ + s)
    }
}

pub fn text_to_thread_mode(s: &str) -> (r: Result<ThreadMode, String>)
    ensures
        match spec_text_to_thread_mode(s@) {
            Ok(v) => r == Ok::<ThreadMode, String>(v),
            Err(m) => r matches Err(x) && x@ == m,
        },
{
    if str_equals(s, "fixed") {
        Ok(ThreadMode::Fixed)
    } else if str_equals(s, "adaptive") {
        Ok(ThreadMode::Adaptive)
    } else {
        Err(concat("unknown thread mode: ", s))
    }
}

pub open spec fn spec_checksum_mode_text(mode: ChecksumMode) -> Seq<char> {
    match mode {
        ChecksumMode::Disabled => "none"@,
        ChecksumMode::Blake3 => "blake3"@,
        ChecksumMode::Sha256 => "sha256"@,
        ChecksumMode::Xxh3128 => "xxh3_128"@,
    }
}

pub fn checksum_mode_to_text(mode: ChecksumMode) -> (t: &'static str)
    ensures
        t@ == spec_checksum_mode_text(mode),
{
    match mode {
        ChecksumMode::Disabled => "none",
        ChecksumMode::Blake3 => "blake3",
        ChecksumMode::Sha256 => "sha256",
        ChecksumMode::Xxh3128 => "xxh3_128",
    }
}

pub open spec fn spec_text_to_checksum_mode(s: Seq<char>) -> Result<ChecksumMode, Seq<char>> {
    if s == "none"@ {
        Ok(ChecksumMode::Disabled)
    } else if s == "blake3"@ {
        Ok(ChecksumMode::Blake3)
    } else if s == "sha256"@ {
        Ok(ChecksumMode::Sha256)
    } else if s == "xxh3_128"@ {
        Ok(ChecksumMode::Xxh3128)
    } else {
        Err("unknown checksum mode: "@ + s)
    }
}

pub fn text_to_checksum_mode(s: &str) -> (r: Result<ChecksumMode, String>)
    ensures
        match spec_text_to_checksum_mode(s@) {
            Ok(v) => r == Ok::<ChecksumMode, String>(v),
            Err(m) => r matches Err(x) && x@ == m,
        },
{
    if str_equals(s, "none") {
        Ok(ChecksumMode::Disabled)
    } else if str_equals(s, "blake3") {
        Ok(ChecksumMode::Blake3)
    } else if str_equals(s, "sha256") {
        Ok(ChecksumMode::Sha256)
    } else if str_equals(s, "xxh3_128") {
        Ok(ChecksumMode::Xxh3128)
    } else {
        Err(concat("unknown checksum mode: ", s))
    }
}

pub open spec fn spec_adaptive_profile_text(p: AdaptiveProfile) -> Seq<char> {
    match p {
        AdaptiveProfile::Conservative => "conservative"@,
        AdaptiveProfile::Balanced => "balanced"@,
        AdaptiveProfile::Aggressive => "aggressive"@,
    }
}

pub fn adaptive_profile_to_text(profile: AdaptiveProfile) -> (t: &'static str)
    ensures
        t@ == spec_adaptive_profile_text(profile),
{
    match profile {
        AdaptiveProfile::Conservative => "conservative",
        AdaptiveProfile::Balanced => "balanced",
        AdaptiveProfile::Aggressive => "aggressive",
    }
}

pub open spec fn spec_text_to_adaptive_profile(s: Seq<char>) -> Result<AdaptiveProfile, Seq<char>> {
    if s == "conservative"@ {
        Ok(AdaptiveProfile::Conservative)
    } else if s == "balanced"@ {
        Ok(AdaptiveProfile::Balanced)
    } else if s == "aggressive"@ {
        Ok(AdaptiveProfile::Aggressive)
    } else {
        Err("unknown adaptive profile: "@ + s)
    }
}

pub fn text_to_adaptive_profile(s: &str) -> (r: Result<AdaptiveProfile, String>)
    ensures
        match spec_text_to_adaptive_profile(s@) {
            Ok(v) => r == Ok::<AdaptiveProfile, String>(v),
            Err(m) => r matches Err(x) && x@ == m,
        },
{
    if str_equals(s, "conservative") {
        Ok(AdaptiveProfile::Conservative)
    } else if str_equals(s, "balanced") {
        Ok(AdaptiveProfile::Balanced)
    } else if str_equals(s, "aggressive") {
        Ok(AdaptiveProfile::Aggressive)
    } else {
        Err(concat("unknown adaptive profile: ", s))
    }
}

/// Every stored name reads back as the value it was written for.
pub proof fn lemma_enum_text_roundtrip(s: DownloadState, t: ThreadMode, c: ChecksumMode, p: AdaptiveProfile)
    ensures
        spec_text_to_state(spec_state_text(s)) == Ok::<DownloadState, Seq<char>>(s),
        spec_text_to_thread_mode(spec_thread_mode_text(t)) == Ok::<ThreadMode, Seq<char>>(t),
        spec_text_to_checksum_mode(spec_checksum_mode_text(c)) == Ok::<ChecksumMode, Seq<char>>(c),
        spec_text_to_adaptive_profile(spec_adaptive_profile_text(p)) == Ok::<AdaptiveProfile, Seq<char>>(p),
{
    reveal_strlit("queued");
    reveal_strlit("downloading");
    reveal_strlit("paused");
    reveal_strlit("retrying");
    reveal_strlit("verifying");
    reveal_strlit("completed");
    reveal_strlit("failed");
    reveal_strlit("canceled");
    reveal_strlit("fixed");
    reveal_strlit("adaptive");
    reveal_strlit("none");
    reveal_strlit("blake3");
    reveal_strlit("sha256");
    reveal_strlit("xxh3_128");
    reveal_strlit("conservative");
    reveal_strlit("balanced");
    reveal_strlit("aggressive");
    let words = seq![
        "queued"@, "downloading"@, "paused"@, "retrying"@, "verifying"@, "completed"@, "failed"@, "canceled"@,
    ];
    assert(words[0].len() == 6 && words[1].len() == 11 && words[2].len() == 6 && words[3].len() == 8);
    assert(words[4].len() == 9 && words[5].len() == 9 && words[6].len() == 6 && words[7].len() == 8);
    assert(words[0][0] == 'q' && words[2][0] == 'p' && words[3][0] == 'r' && words[4][0] == 'v');
    assert(words[5][0] == 'c' && words[6][0] == 'f' && words[7][0] == 'c');
    assert forall|i: int, j: int| 0 <= i < j < 8 implies words[i] != words[j] by {
        if words[i].len() == words[j].len() {
            assert(words[i][0] != words[j][0]);
        }
    }
    assert("fixed"@.len() == 5 && "adaptive"@.len() == 8);
    assert("none"@.len() == 4 && "blake3"@.len() == 6 && "sha256"@.len() == 6 && "xxh3_128"@.len() == 8);
    assert("blake3"@[0] == 'b' && "sha256"@[0] == 's');
    assert("conservative"@.len() == 12 && "balanced"@.len() == 8 && "aggressive"@.len() == 10);
    assert("none"@ != "blake3"@ && "none"@ != "sha256"@ && "none"@ != "xxh3_128"@);
    assert("blake3"@ != "sha256"@ && "blake3"@ != "xxh3_128"@ && "sha256"@ != "xxh3_128"@);
    assert("conservative"@ != "balanced"@ && "conservative"@ != "aggressive"@ && "balanced"@ != "aggressive"@);
    assert("fixed"@ != "adaptive"@);
    assert(words[0] != words[1]);
}

// ── Integers and flags ───────────────────────────────────────────────

pub fn bool_to_i64(b: bool) -> (v: i64)
    ensures
        v == (if b { 1i64 } else { 0i64 }),
{
    if b { 1 } else { 0 }
}

pub fn i64_to_bool(v: i64) -> (b: bool)
    ensures
        b == (v != 0),
{
    v != 0
}

/// A `u64` as stored in an SQLite integer (the same 64 bits).
pub fn u64_to_i64(v: u64) -> (r: i64)
    ensures
        r == v as i64,
{
    v as i64
}

/// An SQLite integer read back as `u64` (the same 64 bits).
pub fn i64_to_u64(v: i64) -> (r: u64)
    ensures
        r == v as u64,
{
    v as u64
}

/// A `usize` as stored in an SQLite integer.
pub fn usize_to_i64(v: usize) -> (r: i64)
    ensures
        r == v as i64,
{
    v as i64
}

/// An SQLite integer read back as `usize`.
pub fn i64_to_usize(v: i64) -> (r: usize)
    ensures
        r == v as usize,
{
    v as usize
}

/// Storing a `u64` or a `usize` and reading it back gives the same number.
pub proof fn lemma_integer_roundtrip(a: u64, b: usize)
    ensures
        (a as i64) as u64 == a,
        (b as i64) as usize == b,
{
    assert((a as i64) as u64 == a) by (bit_vector);
    assert((b as i64) as usize == b) by (bit_vector);
}

fn opt_u64_to_i64(v: Option<u64>) -> (r: Option<i64>)
    ensures
        r == match v {
            Some(x) => Some(x as i64),
            None => None::<i64>,
        },
{
    match v {
        Some(x) => Some(x as i64),
        None => None,
    }
}

fn opt_usize_to_i64(v: Option<usize>) -> (r: Option<i64>)
    ensures
        r == match v {
            Some(x) => Some(x as i64),
            None => None::<i64>,
        },
{
    match v {
        Some(x) => Some(x as i64),
        None => None,
    }
}

fn opt_i64_to_u64(v: Option<i64>) -> (r: Option<u64>)
    ensures
        r == match v {
            Some(x) => Some(x as u64),
            None => None::<u64>,
        },
{
    match v {
        Some(x) => Some(x as u64),
        None => None,
    }
}

fn opt_i64_to_usize(v: Option<i64>) -> (r: Option<usize>)
    ensures
        r == match v {
            Some(x) => Some(x as usize),
            None => None::<usize>,
        },
{
    match v {
        Some(x) => Some(x as usize),
        None => None,
    }
}

fn clone_opt(s: &Option<String>) -> (r: Option<String>)
    ensures
        r == *s,
{
    match s {
        Some(v) => Some(v.clone()),
        None => None,
    }
}

// ── Mirror list as JSON ──────────────────────────────────────────────

/// The JSON text `serde_json::to_string` writes for a list of strings.
pub uninterp spec fn spec_json_of_strings(items: Seq<Seq<char>>) -> Seq<char>;

/// The list of strings that `serde_json::from_str` reads from a JSON text, if any.
pub uninterp spec fn spec_strings_of_json(text: Seq<char>) -> Option<Seq<Seq<char>>>;

pub open spec fn spec_strings_view(v: Seq<String>) -> Seq<Seq<char>> {
    v.map_values(|s: String| s@)
}

/// Calls `serde_json::to_string` on a list of strings; the contract names
/// the text it writes `spec_json_of_strings`, and claims what the crate's
/// source shows for a list of strings: writing cannot fail (each string is
/// escaped into a `Vec<u8>`), and `from_str` reads the same list back.
#[verifier::external_body]
fn strings_to_json(items: &Vec<String>) -> (r: Option<String>)
    ensures
        r is Some,
        r matches Some(t) ==> t@ == spec_json_of_strings(spec_strings_view(items@)),
        r matches Some(t) ==> spec_strings_of_json(t@) == Some(spec_strings_view(items@)),
{
    match serde_json::to_string(items) {
        Ok(t) => Some(t),
        Err(_) => None,
    }
}

/// Calls `serde_json::from_str::<Vec<String>>`; the contract names the
/// outcome `spec_strings_of_json`.
#[verifier::external_body]
fn json_to_strings(text: &str) -> (r: Option<Vec<String>>)
    ensures
        r is None <==> spec_strings_of_json(text@) is None,
        r matches Some(x) ==> Some(spec_strings_view(x@)) == spec_strings_of_json(text@),
{
    serde_json::from_str::<Vec<String>>(text).ok()
}

// ── Download rows ────────────────────────────────────────────────────

/// The columns of one `downloads` row, as SQLite holds them.
#[derive(Clone, Debug)]
pub struct DownloadRow {
    pub id: String,
    pub url: String,
    pub final_url: String,
    pub user_agent: String,
    pub destination_dir: String,
    pub file_name: String,
    pub file_name_locked: i64,
    pub destination_path: String,
    pub temp_path: String,
    pub total_bytes: Option<i64>,
    pub downloaded_bytes: i64,
    pub supports_ranges: i64,
    pub connection_count: i64,
    pub thread_mode: String,
    pub requested_thread_count: Option<i64>,
    pub desired_thread_count: Option<i64>,
    pub allocated_thread_count: Option<i64>,
    pub adaptive_profile_snapshot: Option<String>,
    pub thread_note: Option<String>,
    pub etag: Option<String>,
    pub last_modified: Option<String>,
    pub state: String,
    pub checksum_mode: String,
    pub checksum: Option<String>,
    pub error: Option<String>,
    pub created_at_ms: i64,
    pub updated_at_ms: i64,
    pub chunk_size: i64,
    pub mirror_url: Option<String>,
    /// JSON list; `None` when the column could not be read as text.
    pub mirror_urls: Option<String>,
    /// `None` when the column could not be read as an integer.
    pub current_mirror_index: Option<i64>,
    /// `None` when the column could not be read as a `u8`.
    pub priority: Option<u8>,
    pub cdn_accelerated: i64,
    pub expected_checksum: Option<String>,
}

/// The row a manifest is stored as (chunks go to their own table).
pub open spec fn spec_manifest_row(m: Manifest, row: DownloadRow) -> bool {
    &&& row.id == m.id
    &&& row.url == m.url
    &&& row.final_url == m.final_url
    &&& row.user_agent == m.user_agent
    &&& row.destination_dir == m.destination_dir
    &&& row.file_name == m.file_name
    &&& row.file_name_locked == (if m.file_name_locked { 1i64 } else { 0i64 })
    &&& row.destination_path == m.destination_path
    &&& row.temp_path == m.temp_path
    &&& row.total_bytes == (match m.total_bytes { Some(x) => Some(x as i64), None => None::<i64> })
    &&& row.downloaded_bytes == m.downloaded_bytes as i64
    &&& row.supports_ranges == (if m.supports_ranges { 1i64 } else { 0i64 })
    &&& row.connection_count == m.connection_count as i64
    &&& row.thread_mode@ == spec_thread_mode_text(m.thread_mode)
    &&& row.requested_thread_count == (match m.requested_thread_count { Some(x) => Some(x as i64), None => None::<i64> })
    &&& row.desired_thread_count == (match m.desired_thread_count { Some(x) => Some(x as i64), None => None::<i64> })
    &&& row.allocated_thread_count == (match m.allocated_thread_count { Some(x) => Some(x as i64), None => None::<i64> })
    &&& opt_view(row.adaptive_profile_snapshot) == (match m.adaptive_profile_snapshot {
        Some(p) => Some(spec_adaptive_profile_text(p)),
        None => None::<Seq<char>>,
    })
    &&& row.thread_note == m.thread_note
    &&& row.etag == m.etag
    &&& row.last_modified == m.last_modified
    &&& row.state@ == spec_state_text(m.state)
    &&& row.checksum_mode@ == spec_checksum_mode_text(m.checksum_mode)
    &&& row.checksum == m.checksum
    &&& row.error == m.error
    &&& row.created_at_ms == m.created_at_ms as i64
    &&& row.updated_at_ms == m.updated_at_ms as i64
    &&& row.chunk_size == m.chunk_size as i64
    &&& row.mirror_url == m.mirror_url
    &&& row.mirror_urls matches Some(t) && t@ == spec_json_of_strings(spec_strings_view(m.mirror_urls@))
    &&& row.mirror_urls matches Some(t) && spec_strings_of_json(t@) == Some(spec_strings_view(m.mirror_urls@))
    &&& row.current_mirror_index == Some(m.current_mirror_index as i64)
    &&& row.priority == Some(spec_priority_code(m.priority))
    &&& row.cdn_accelerated == (if m.cdn_accelerated { 1i64 } else { 0i64 })
    &&& row.expected_checksum == m.expected_checksum
}

/// The `downloads` row of a manifest (`spec_manifest_row`).
pub fn manifest_to_row(m: &Manifest) -> (row: DownloadRow)
    ensures
        spec_manifest_row(*m, row),
{
    let mirror_urls = match strings_to_json(&m.mirror_urls) {
        Some(t) => t,
        None => owned("[]"),
    };
    DownloadRow {
        id: m.id.clone(),
        url: m.url.clone(),
        final_url: m.final_url.clone(),
        user_agent: m.user_agent.clone(),
        destination_dir: m.destination_dir.clone(),
        file_name: m.file_name.clone(),
        file_name_locked: bool_to_i64(m.file_name_locked),
        destination_path: m.destination_path.clone(),
        temp_path: m.temp_path.clone(),
        total_bytes: opt_u64_to_i64(m.total_bytes),
        downloaded_bytes: u64_to_i64(m.downloaded_bytes),
        supports_ranges: bool_to_i64(m.supports_ranges),
        connection_count: usize_to_i64(m.connection_count),
        thread_mode: owned(thread_mode_to_text(m.thread_mode)),
        requested_thread_count: opt_usize_to_i64(m.requested_thread_count),
        desired_thread_count: opt_usize_to_i64(m.desired_thread_count),
        allocated_thread_count: opt_usize_to_i64(m.allocated_thread_count),
        adaptive_profile_snapshot: match m.adaptive_profile_snapshot {
            Some(p) => Some(owned(adaptive_profile_to_text(p))),
            None => None,
        },
        thread_note: clone_opt(&m.thread_note),
        etag: clone_opt(&m.etag),
        last_modified: clone_opt(&m.last_modified),
        state: owned(download_state_to_text(&m.state)),
        checksum_mode: owned(checksum_mode_to_text(m.checksum_mode)),
        checksum: clone_opt(&m.checksum),
        error: clone_opt(&m.error),
        created_at_ms: u64_to_i64(m.created_at_ms),
        updated_at_ms: u64_to_i64(m.updated_at_ms),
        chunk_size: u64_to_i64(m.chunk_size),
        mirror_url: clone_opt(&m.mirror_url),
        mirror_urls: Some(mirror_urls),
        current_mirror_index: Some(usize_to_i64(m.current_mirror_index)),
        priority: Some(m.priority.code()),
        cdn_accelerated: bool_to_i64(m.cdn_accelerated),
        expected_checksum: clone_opt(&m.expected_checksum),
    }
}

/// The first unknown enum name of a row, in the order the reader meets
/// them: adaptive profile, thread mode, state, checksum mode.
pub open spec fn spec_row_error(row: DownloadRow) -> Option<Seq<char>> {
    let profile_err = match row.adaptive_profile_snapshot {
        Some(p) => match spec_text_to_adaptive_profile(p@) {
            Err(e) => Some(e),
            Ok(_) => None,
        },
        None => None,
    };
    if profile_err is Some {
        profile_err
    } else if spec_text_to_thread_mode(row.thread_mode@) is Err {
        Some(spec_text_to_thread_mode(row.thread_mode@)->Err_0)
    } else if spec_text_to_state(row.state@) is Err {
        Some(spec_text_to_state(row.state@)->Err_0)
    } else if spec_text_to_checksum_mode(row.checksum_mode@) is Err {
        Some(spec_text_to_checksum_mode(row.checksum_mode@)->Err_0)
    } else {
        None
    }
}

/// The manifest a row reads as, when it reads without error: chunks are
/// loaded separately, an unreadable mirror list reads as empty, a missing
/// mirror index as 0 and a missing priority as `Normal`.
pub open spec fn spec_row_manifest(row: DownloadRow, m: Manifest) -> bool {
    &&& m.id == row.id
    &&& m.url == row.url
    &&& m.final_url == row.final_url
    &&& m.user_agent == row.user_agent
    &&& m.destination_dir == row.destination_dir
    &&& m.file_name == row.file_name
    &&& m.file_name_locked == (row.file_name_locked != 0)
    &&& m.destination_path == row.destination_path
    &&& m.temp_path == row.temp_path
    &&& m.total_bytes == (match row.total_bytes { Some(x) => Some(x as u64), None => None::<u64> })
    &&& m.downloaded_bytes == row.downloaded_bytes as u64
    &&& m.supports_ranges == (row.supports_ranges != 0)
    &&& m.connection_count == row.connection_count as usize
    &&& spec_text_to_thread_mode(row.thread_mode@) == Ok::<ThreadMode, Seq<char>>(m.thread_mode)
    &&& m.requested_thread_count == (match row.requested_thread_count { Some(x) => Some(x as usize), None => None::<usize> })
    &&& m.desired_thread_count == (match row.desired_thread_count { Some(x) => Some(x as usize), None => None::<usize> })
    &&& m.allocated_thread_count == (match row.allocated_thread_count { Some(x) => Some(x as usize), None => None::<usize> })
    &&& (match row.adaptive_profile_snapshot {
        Some(p) => spec_text_to_adaptive_profile(p@) == Ok::<AdaptiveProfile, Seq<char>>(m.adaptive_profile_snapshot->0)
            && m.adaptive_profile_snapshot is Some,
        None => m.adaptive_profile_snapshot is None,
    })
    &&& m.thread_note == row.thread_note
    &&& m.etag == row.etag
    &&& m.last_modified == row.last_modified
    &&& spec_text_to_state(row.state@) == Ok::<DownloadState, Seq<char>>(m.state)
    &&& spec_text_to_checksum_mode(row.checksum_mode@) == Ok::<ChecksumMode, Seq<char>>(m.checksum_mode)
    &&& m.checksum == row.checksum
    &&& m.expected_checksum == row.expected_checksum
    &&& m.error == row.error
    &&& m.created_at_ms == row.created_at_ms as u64
    &&& m.updated_at_ms == row.updated_at_ms as u64
    &&& m.chunks@.len() == 0
    &&& m.cdn_accelerated == (row.cdn_accelerated != 0)
    &&& m.chunk_size == row.chunk_size as u64
    &&& m.mirror_url == row.mirror_url
    &&& spec_strings_view(m.mirror_urls@) == (match row.mirror_urls {
        Some(t) => match spec_strings_of_json(t@) {
            Some(v) => v,
            None => Seq::empty(),
        },
        None => Seq::empty(),
    })
    &&& m.current_mirror_index == (match row.current_mirror_index { Some(x) => x as usize, None => 0usize })
    &&& m.priority == spec_priority_from_code(match row.priority { Some(c) => c, None => 1u8 })
}

/// Reads a `downloads` row back into a manifest (`spec_row_manifest`), or
/// the message of the first unknown enum name (`spec_row_error`).
pub fn row_to_manifest(row: &DownloadRow) -> (r: Result<Manifest, String>)
    ensures
        match spec_row_error(*row) {
            Some(e) => r matches Err(x) && x@ == e,
            None => r matches Ok(m) && spec_row_manifest(*row, m),
        },
{
    let adaptive_profile_snapshot = match &row.adaptive_profile_snapshot {
        Some(p) => match text_to_adaptive_profile(p.as_str()) {
            Ok(v) => Some(v),
            Err(e) => return Err(e),
        },
        None => None,
    };
    let thread_mode = match text_to_thread_mode(row.thread_mode.as_str()) {
        Ok(v) => v,
        Err(e) => return Err(e),
    };
    let state = match text_to_state(row.state.as_str()) {
        Ok(v) => v,
        Err(e) => return Err(e),
    };
    let checksum_mode = match text_to_checksum_mode(row.checksum_mode.as_str()) {
        Ok(v) => v,
        Err(e) => return Err(e),
    };
    let mirror_urls: Vec<String> = match &row.mirror_urls {
        Some(t) => match json_to_strings(t.as_str()) {
            Some(v) => v,
            None => Vec::new(),
        },
        None => Vec::new(),
    };
    proof {
        assert(spec_strings_view(Seq::<String>::empty()) =~= Seq::<Seq<char>>::empty());
    }
    Ok(Manifest {
        id: row.id.clone(),
        url: row.url.clone(),
        final_url: row.final_url.clone(),
        user_agent: row.user_agent.clone(),
        destination_dir: row.destination_dir.clone(),
        file_name: row.file_name.clone(),
        file_name_locked: i64_to_bool(row.file_name_locked),
        destination_path: row.destination_path.clone(),
        temp_path: row.temp_path.clone(),
        total_bytes: opt_i64_to_u64(row.total_bytes),
        downloaded_bytes: i64_to_u64(row.downloaded_bytes),
        supports_ranges: i64_to_bool(row.supports_ranges),
        connection_count: i64_to_usize(row.connection_count),
        thread_mode,
        requested_thread_count: opt_i64_to_usize(row.requested_thread_count),
        desired_thread_count: opt_i64_to_usize(row.desired_thread_count),
        allocated_thread_count: opt_i64_to_usize(row.allocated_thread_count),
        adaptive_profile_snapshot,
        thread_note: clone_opt(&row.thread_note),
        etag: clone_opt(&row.etag),
        last_modified: clone_opt(&row.last_modified),
        state,
        cdn_accelerated: i64_to_bool(row.cdn_accelerated),
        checksum_mode,
        checksum: clone_opt(&row.checksum),
        expected_checksum: clone_opt(&row.expected_checksum),
        error: clone_opt(&row.error),
        priority: Priority::from_code(match row.priority {
            Some(c) => c,
            None => 1,
        }),
        created_at_ms: i64_to_u64(row.created_at_ms),
        updated_at_ms: i64_to_u64(row.updated_at_ms),
        mirror_url: clone_opt(&row.mirror_url),
        mirror_urls,
        current_mirror_index: match row.current_mirror_index {
            Some(x) => i64_to_usize(x),
            None => 0,
        },
        chunks: Vec::new(),
        chunk_size: i64_to_u64(row.chunk_size),
    })
}

// ── Chunk rows ───────────────────────────────────────────────────────

/// One SQLite value of a query's parameters.
#[derive(Clone, Debug, PartialEq, Eq)]
pub enum SqlValue {
    Null,
    Integer(i64),
    Text(String),
}

/// The parameters of a `chunks` upsert: download id, index, start, end,
/// downloaded bytes, completed flag and claiming worker (or NULL).
pub open spec fn spec_chunk_params(download_id: Seq<char>, c: ChunkManifest, p: Seq<SqlValue>) -> bool {
    &&& p.len() == 7
    &&& p[0] matches SqlValue::Text(t) && t@ == download_id
    &&& p[1] == SqlValue::Integer(c.index as i64)
    &&& p[2] == SqlValue::Integer(c.start as i64)
    &&& p[3] == SqlValue::Integer(c.end as i64)
    &&& p[4] == SqlValue::Integer(c.downloaded as i64)
    &&& p[5] == SqlValue::Integer(if c.completed { 1i64 } else { 0i64 })
    &&& p[6] == match c.claimed_by {
        Some(n) => SqlValue::Integer(n as i64),
        None => SqlValue::Null,
    }
}

pub fn chunk_to_params(download_id: &str, chunk: &ChunkManifest) -> (p: Vec<SqlValue>)
    ensures
        spec_chunk_params(download_id@, *chunk, p@),
{
    let mut p: Vec<SqlValue> = Vec::new();
    p.push(SqlValue::Text(owned(download_id)));
    p.push(SqlValue::Integer(usize_to_i64(chunk.index)));
    p.push(SqlValue::Integer(u64_to_i64(chunk.start)));
    p.push(SqlValue::Integer(u64_to_i64(chunk.end)));
    p.push(SqlValue::Integer(u64_to_i64(chunk.downloaded)));
    p.push(SqlValue::Integer(bool_to_i64(chunk.completed)));
    p.push(match chunk.claimed_by {
        Some(n) => SqlValue::Integer(usize_to_i64(n)),
        None => SqlValue::Null,
    });
    p
}

/// The columns of one `chunks` row after the download id.
#[derive(Clone, Copy, Debug, PartialEq, Eq, Structural)]
pub struct ChunkRow {
    pub chunk_index: i64,
    pub start_byte: i64,
    pub end_byte: i64,
    pub downloaded: i64,
    pub completed: i64,
    pub claimed_by: Option<i64>,
}

pub open spec fn spec_row_chunk(r: ChunkRow) -> ChunkManifest {
    ChunkManifest {
        index: r.chunk_index as usize,
        start: r.start_byte as u64,
        end: r.end_byte as u64,
        downloaded: r.downloaded as u64,
        completed: r.completed != 0,
        claimed_by: match r.claimed_by {
            Some(v) => Some(v as usize),
            None => None,
        },
        dirty: false,
    }
}

/// A chunk as read back from its row: not dirty.
pub fn row_to_chunk(row: &ChunkRow) -> (c: ChunkManifest)
    ensures
        c == spec_row_chunk(*row),
{
    ChunkManifest {
        index: i64_to_usize(row.chunk_index),
        start: i64_to_u64(row.start_byte),
        end: i64_to_u64(row.end_byte),
        downloaded: i64_to_u64(row.downloaded),
        completed: i64_to_bool(row.completed),
        claimed_by: opt_i64_to_usize(row.claimed_by),
        dirty: false,
    }
}

/// The row a chunk is stored as.
pub open spec fn spec_chunk_row(c: ChunkManifest) -> ChunkRow {
    ChunkRow {
        chunk_index: c.index as i64,
        start_byte: c.start as i64,
        end_byte: c.end as i64,
        downloaded: c.downloaded as i64,
        completed: if c.completed { 1 } else { 0 },
        claimed_by: match c.claimed_by {
            Some(n) => Some(n as i64),
            None => None,
        },
    }
}

/// A stored chunk reads back unchanged, apart from the dirty mark.
pub proof fn lemma_chunk_roundtrip(c: ChunkManifest)
    ensures
        spec_row_chunk(spec_chunk_row(c)) == (ChunkManifest { dirty: false, ..c }),
{
    lemma_integer_roundtrip(c.start, c.index);
    lemma_integer_roundtrip(c.end, 0);
    lemma_integer_roundtrip(c.downloaded, 0);
    match c.claimed_by {
        Some(n) => lemma_integer_roundtrip(0, n),
        None => {},
    }
}

/// A stored manifest reads back with the same fields (its mirror list with
/// the same texts), except that its chunks are loaded separately.
pub proof fn lemma_manifest_row_roundtrip(m: Manifest, row: DownloadRow, back: Manifest)
    requires
        spec_manifest_row(m, row),
        spec_row_manifest(row, back),
    ensures
        spec_row_error(row) is None,
        back == (Manifest {
            chunks: back.chunks,
            mirror_urls: back.mirror_urls,
            ..m
        }),
        back.chunks@.len() == 0,
        spec_strings_view(back.mirror_urls@) == spec_strings_view(m.mirror_urls@),
{
    lemma_enum_text_roundtrip(m.state, m.thread_mode, m.checksum_mode, match m.adaptive_profile_snapshot {
        Some(p) => p,
        None => AdaptiveProfile::Balanced,
    });
    lemma_integer_roundtrip(m.downloaded_bytes, m.connection_count);
    lemma_integer_roundtrip(m.created_at_ms, m.current_mirror_index);
    lemma_integer_roundtrip(m.updated_at_ms, 0);
    lemma_integer_roundtrip(m.chunk_size, 0);
    match m.total_bytes {
        Some(t) => lemma_integer_roundtrip(t, 0),
        None => {},
    }
    match m.requested_thread_count {
        Some(t) => lemma_integer_roundtrip(0, t),
        None => {},
    }
    match m.desired_thread_count {
        Some(t) => lemma_integer_roundtrip(0, t),
        None => {},
    }
    match m.allocated_thread_count {
        Some(t) => lemma_integer_roundtrip(0, t),
        None => {},
    }
    crate::types::lemma_priority_code_roundtrip(m.priority);
    match m.adaptive_profile_snapshot {
        Some(p) => {
            assert(back.adaptive_profile_snapshot == Some(p));
        },
        None => {},
    }
}

// ── Progress persistence ─────────────────────────────────────────────

/// One download's progress in a batch persist.
#[derive(Clone, Debug)]
pub struct ProgressBatchEntry {
    pub id: String,
    pub downloaded_bytes: u64,
    pub dirty_chunks: Vec<ChunkManifest>,
    pub state: String,
    pub updated_at_ms: u64,
}

pub open spec fn spec_clean(c: ChunkManifest) -> ChunkManifest {
    ChunkManifest { dirty: false, ..c }
}

/// The dirty chunks of a list, in order, with their mark cleared.
pub open spec fn spec_dirty_chunks(chunks: Seq<ChunkManifest>) -> Seq<ChunkManifest>
    decreases chunks.len(),
{
    if chunks.len() == 0 {
        Seq::empty()
    } else {
        let prev = spec_dirty_chunks(chunks.drop_last());
        if chunks.last().dirty { prev.push(spec_clean(chunks.last())) } else { prev }
    }
}

/// Takes the chunks changed since the last persist and clears their mark,
/// so changes made meanwhile mark them again for the next persist.
pub fn drain_dirty_chunks(manifest: &mut Manifest) -> (dirty: Vec<ChunkManifest>)
    ensures
        dirty@ == spec_dirty_chunks(old(manifest).chunks@),
        final(manifest).chunks@ == old(manifest).chunks@.map_values(|c: ChunkManifest| spec_clean(c)),
        *final(manifest) == (Manifest { chunks: final(manifest).chunks, ..*old(manifest) }),
{
    let ghost m0 = *manifest;
    let mut dirty: Vec<ChunkManifest> = Vec::new();
    let mut i: usize = 0;
    while i < manifest.chunks.len()
        invariant
            i <= m0.chunks@.len(),
            manifest.chunks@.len() == m0.chunks@.len(),
            *manifest == (Manifest { chunks: manifest.chunks, ..m0 }),
            dirty@ == spec_dirty_chunks(m0.chunks@.take(i as int)),
            forall|k: int| 0 <= k < i ==> manifest.chunks@[k] == spec_clean(m0.chunks@[k]),
            forall|k: int| i <= k < m0.chunks@.len() ==> manifest.chunks@[k] == m0.chunks@[k],
        decreases m0.chunks@.len() - i,
    {
        proof {
            assert(m0.chunks@.take(i + 1).drop_last() == m0.chunks@.take(i as int));
        }
        let mut c = manifest.chunks[i];
        if c.dirty {
            c.dirty = false;
            manifest.chunks.set(i, c);
            dirty.push(c);
        }
        i = i + 1;
    }
    proof {
        assert(m0.chunks@.take(m0.chunks@.len() as int) == m0.chunks@);
        assert(manifest.chunks@ =~= m0.chunks@.map_values(|c: ChunkManifest| spec_clean(c)));
    }
    dirty
}

/// The batch-persist entry of a download; its dirty chunks are drained.
pub fn progress_batch_entry(manifest: &mut Manifest) -> (e: ProgressBatchEntry)
    ensures
        e.id == old(manifest).id,
        e.downloaded_bytes == old(manifest).downloaded_bytes,
        e.dirty_chunks@ == spec_dirty_chunks(old(manifest).chunks@),
        e.state@ == spec_state_text(old(manifest).state),
        e.updated_at_ms == old(manifest).updated_at_ms,
        final(manifest).chunks@ == old(manifest).chunks@.map_values(|c: ChunkManifest| spec_clean(c)),
        *final(manifest) == (Manifest { chunks: final(manifest).chunks, ..*old(manifest) }),
{
    let dirty_chunks = drain_dirty_chunks(manifest);
    ProgressBatchEntry {
        id: manifest.id.clone(),
        downloaded_bytes: manifest.downloaded_bytes,
        dirty_chunks,
        state: owned(download_state_to_text(&manifest.state)),
        updated_at_ms: manifest.updated_at_ms,
    }
}

/// A download loaded at startup: a verification that finished (file in
/// place, no temp file) counts as completed; a running download keeps
/// running with no connections; a retrying, verifying or queued one is
/// paused. Returns whether its chunks must be loaded (not finished).
pub fn recover_loaded_manifest(manifest: &mut Manifest, destination_exists: bool, temp_exists: bool, now: u64) -> (needs_chunks: bool)
    ensures
        ({
            let verified = old(manifest).state == DownloadState::Verifying && destination_exists && !temp_exists;
            let s1 = if verified { DownloadState::Completed } else { old(manifest).state };
            let m1 = if verified { Manifest { state: DownloadState::Completed, updated_at_ms: now, ..*old(manifest) } } else { *old(manifest) };
            &&& *final(manifest) == match s1 {
                DownloadState::Downloading => Manifest {
                    connection_count: 0,
                    allocated_thread_count: Some(0),
                    updated_at_ms: now,
                    ..m1
                },
                DownloadState::Retrying | DownloadState::Verifying | DownloadState::Queued => Manifest {
                    state: DownloadState::Paused,
                    connection_count: 0,
                    allocated_thread_count: Some(0),
                    updated_at_ms: now,
                    ..m1
                },
                _ => m1,
            }
            &&& needs_chunks == !(final(manifest).state == DownloadState::Completed || final(manifest).state
                == DownloadState::Failed || final(manifest).state == DownloadState::Canceled)
        }),
{
    if manifest.state == DownloadState::Verifying && destination_exists && !temp_exists {
        manifest.state = DownloadState::Completed;
        manifest.updated_at_ms = now;
    }
    match manifest.state {
        DownloadState::Downloading => {
            manifest.connection_count = 0;
            manifest.allocated_thread_count = Some(0);
            manifest.updated_at_ms = now;
        },
        DownloadState::Retrying | DownloadState::Verifying | DownloadState::Queued => {
            manifest.state = DownloadState::Paused;
            manifest.connection_count = 0;
            manifest.allocated_thread_count = Some(0);
            manifest.updated_at_ms = now;
        },
        _ => {},
    }
    match manifest.state {
        DownloadState::Completed | DownloadState::Failed | DownloadState::Canceled => false,
        _ => true,
    }
}

/// A download's progress persist: its id, byte count, state name, update
/// time and drained dirty chunks.
pub fn progress_snapshot(core: &mut DownloadCore) -> (e: ProgressBatchEntry)
    ensures
        e.id == old(core).manifest.id,
        e.downloaded_bytes == old(core).manifest.downloaded_bytes,
        e.dirty_chunks@ == spec_dirty_chunks(old(core).manifest.chunks@),
        e.state@ == spec_state_text(old(core).manifest.state),
        e.updated_at_ms == old(core).manifest.updated_at_ms,
        final(core).snapshot == old(core).snapshot,
        final(core).manifest.chunks@ == old(core).manifest.chunks@.map_values(|c: ChunkManifest| spec_clean(c)),
        final(core).manifest == (Manifest { chunks: final(core).manifest.chunks, ..old(core).manifest }),
{
    progress_batch_entry(&mut core.manifest)
}


// ── Schema versions ──────────────────────────────────────────────────

/// The schema version to migrate from. Databases written before the
/// version was recorded are recognized by the columns that later
/// migrations added (`mirror_urls` for 3, `chunk_size` for 2).
pub open spec fn spec_compat_version(user_version: u32, has_chunk_size: bool, has_mirror_urls: bool) -> u32 {
    if user_version < 4 && has_mirror_urls {
        3
    } else if user_version < 4 && has_chunk_size {
        2
    } else {
        user_version
    }
}

/// The schema version to migrate from (`spec_compat_version`).
pub fn compat_schema_version(user_version: u32, has_chunk_size: bool, has_mirror_urls: bool) -> (v: u32)
    ensures
        v == spec_compat_version(user_version, has_chunk_size, has_mirror_urls),
{
    let mut v = user_version;
    if user_version < 4 {
        if has_chunk_size {
            v = 2;
        }
        if has_mirror_urls {
            v = 3;
        }
    }
    v
}

/// Positions, in order, of the migrations among the first `k` whose
/// version is newer than `current`.
pub open spec fn spec_pending(versions: Seq<u32>, current: u32, k: int) -> Seq<usize>
    decreases k,
{
    if k <= 0 || k > versions.len() {
        Seq::empty()
    } else {
        let prev = spec_pending(versions, current, k - 1);
        if versions[k - 1] > current { prev.push((k - 1) as usize) } else { prev }
    }
}

/// Positions, in order, of the migrations still to run on a database at
/// schema version `current`.
pub fn pending_migrations(versions: &Vec<u32>, current: u32) -> (r: Vec<usize>)
    ensures
        r@ == spec_pending(versions@, current, versions@.len() as int),
{
    let mut r: Vec<usize> = Vec::new();
    let mut i: usize = 0;
    while i < versions.len()
        invariant
            i <= versions@.len(),
            r@ == spec_pending(versions@, current, i as int),
        decreases versions@.len() - i,
    {
        if versions[i] > current {
            r.push(i);
        }
        i = i + 1;
    }
    r
}

/// The version a fresh database is stamped with: the last migration's, or
/// an initialization error when there are no migrations.
pub fn latest_schema_version(versions: &Vec<u32>) -> (r: Result<u32, DownloadError>)
    ensures
        versions@.len() > 0 ==> r == Ok::<u32, DownloadError>(versions@.last()),
        versions@.len() == 0 ==> (r matches Err(DownloadError::DatabaseInit(m)) && m@ == "no migrations defined"@),
{
    if versions.len() == 0 {
        Err(DownloadError::DatabaseInit(owned("no migrations defined")))
    } else {
        Ok(versions[versions.len() - 1])
    }
}

} // verus!
