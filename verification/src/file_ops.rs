//! File-system decisions of a download: the free-space rule, when
//! preallocation falls back to a plain resize, and the names of staging
//! and rotated log files.
use vstd::prelude::*;

use crate::error::DownloadError;
use crate::parse::{parse_u64, spec_parse_u64};
use crate::text::{
    chars_of, concat, decimal_string, slice_chars, spec_decimal, spec_starts_with, spec_trim, starts_with_chars,
    string_of, trim_string,
};

verus! {

/// Free space a download needs: its remaining size plus 10%.
pub open spec fn spec_required_space(required_bytes: u64) -> int {
    required_bytes + required_bytes / 10
}

/// Checks that `available` bytes leave room for `required_bytes` plus a
/// 10% margin; otherwise the error names both numbers.
pub fn check_disk_space(available: u64, required_bytes: u64) -> (r: Result<(), DownloadError>)
    requires
        spec_required_space(required_bytes) <= u64::MAX,
    ensures
        available >= spec_required_space(required_bytes) ==> r is Ok,
        available < spec_required_space(required_bytes) ==> r == Err::<(), DownloadError>(
            DownloadError::InsufficientDiskSpace { available, required: spec_required_space(required_bytes) as u64 },
        ),
{
    let required = required_bytes + required_bytes / 10;
    if available < required {
        return Err(DownloadError::InsufficientDiskSpace { available, required });
    }
    Ok(())
}

/// OS errors on which preallocation falls back to setting the file length:
/// EPERM, EINVAL, ENOSYS, ENOTSUP (45 and 524) and EOPNOTSUPP.
pub fn preallocation_falls_back(raw_os_error: Option<i32>) -> (r: bool)
    ensures
        r == match raw_os_error {
            Some(e) => e == 1 || e == 22 || e == 38 || e == 45 || e == 95 || e == 524,
            None => false,
        },
{
    match raw_os_error {
        Some(e) => e == 1 || e == 22 || e == 38 || e == 45 || e == 95 || e == 524,
        None => false,
    }
}

/// Name of a staging file next to the destination during a cross-device
/// move: `<name>.finalizing.<pid>.<attempt>.tmp`.
pub fn finalizing_name(file_name: &str, process_id: u32, attempt: u16) -> (r: String)
    ensures
        r@ == file_name@ + ".finalizing."@ + spec_decimal(process_id as nat) + "."@ + spec_decimal(attempt as nat)
            + ".tmp"@,
{
    let t = concat(file_name, ".finalizing.");
    let t = concat(t.as_str(), decimal_string(process_id as u64).as_str());
    let t = concat(t.as_str(), ".");
    let t = concat(t.as_str(), decimal_string(attempt as u64).as_str());
    concat(t.as_str(), ".tmp")
}

/// A directory entry is a leftover staging file of `file_name`.
pub fn is_finalizing_leftover(candidate: &str, file_name: &str) -> (r: bool)
    ensures
        r == spec_starts_with(candidate@, file_name@ + ".finalizing."@),
{
    let prefix = concat(file_name, ".finalizing.");
    starts_with_chars(&chars_of(candidate), &chars_of(prefix.as_str()))
}

/// Staging names are tried for attempts `0..1000`.
pub const FINALIZING_ATTEMPTS: u16 = 1000;

/// Message of the error when the destination already holds other content.
pub fn destination_exists_message(destination_path: &str) -> (r: String)
    ensures
        r@ == "destination file already exists: "@ + destination_path@,
{
    concat("destination file already exists: ", destination_path)
}

// ── Rotated logs ─────────────────────────────────────────────────────

/// What `u32::from_str` accepts: a `u64` reading that fits in 32 bits.
pub open spec fn spec_parse_u32(s: Seq<char>) -> Option<u32> {
    match spec_parse_u64(s) {
        Some(v) => if v <= u32::MAX { Some(v as u32) } else { None },
        None => None,
    }
}

/// Rotation number of a log file whose stem is `<stem>.<N>`.
pub open spec fn spec_rotation_number(file_stem: Seq<char>, log_stem: Seq<char>) -> Option<u32> {
    let prefix = log_stem + "."@;
    if spec_starts_with(file_stem, prefix) {
        spec_parse_u32(file_stem.skip(prefix.len() as int))
    } else {
        None
    }
}

/// The rotation number of a rotated log's file stem (`spec_rotation_number`).
pub fn rotation_number(file_stem: &str, log_stem: &str) -> (r: Option<u32>)
    ensures
        r == spec_rotation_number(file_stem@, log_stem@),
{
    let prefix = concat(log_stem, ".");
    let cs = chars_of(file_stem);
    let ps = chars_of(prefix.as_str());
    if !starts_with_chars(&cs, &ps) {
        return None;
    }
    let rest = slice_chars(&cs, ps.len(), cs.len());
    assert(rest@ == cs@.skip(ps@.len() as int));
    match parse_u64(&rest) {
        Some(v) => if v <= 4294967295 { Some(v as u32) } else { None },
        None => None,
    }
}

/// Name of rotated log number `n`: `<stem>.<n>.<ext>`.
pub fn rotated_log_name(stem: &str, n: u64, ext: &str) -> (r: String)
    ensures
        r@ == stem@ + "."@ + spec_decimal(n as nat) + "."@ + ext@,
{
    let t = concat(stem, ".");
    let t = concat(t.as_str(), decimal_string(n).as_str());
    let t = concat(t.as_str(), ".");
    concat(t.as_str(), ext)
}

/// `logs` is sorted by rotation number, highest first.
pub open spec fn spec_descending(logs: Seq<(String, u32)>) -> bool {
    forall|i: int, j: int| 0 <= i < j < logs.len() ==> logs[i].1 >= logs[j].1
}

/// Sorts rotated logs by rotation number, highest first (so each can be
/// renamed to the next number without overwriting another).
pub fn sort_rotated_logs(logs: Vec<(String, u32)>) -> (r: Vec<(String, u32)>)
    ensures
        spec_descending(r@),
        r@.to_multiset() == logs@.to_multiset(),
{
    let mut r: Vec<(String, u32)> = Vec::new();
    let mut rest = logs;
    let ghost all = rest@;
    proof {
        broadcast use vstd::multiset::group_multiset_axioms;
        broadcast use vstd::seq_lib::group_to_multiset_ensures;
        assert(r@.to_multiset() =~= vstd::multiset::Multiset::empty());
        assert(r@.to_multiset().add(rest@.to_multiset()) =~= all.to_multiset());
    }
    while rest.len() > 0
        invariant
            spec_descending(r@),
            r@.to_multiset().add(rest@.to_multiset()) == all.to_multiset(),
        ensures
            rest@.len() == 0,
        decreases rest@.len(),
    {
        let ghost rest0 = rest@;
        let item = rest.remove(0);
        proof {
            vstd::seq_lib::to_multiset_remove(rest0, 0);
            assert(rest@ == rest0.remove(0));
        }
        let mut p: usize = r.len();
        while p > 0 && r[p - 1].1 < item.1
            invariant
                p <= r@.len(),
                spec_descending(r@),
                forall|k: int| p <= k < r@.len() ==> r@[k].1 < item.1,
            decreases p,
        {
            p = p - 1;
        }
        let ghost old_r = r@;
        r.insert(p, item);
        proof {
            assert(r@ == old_r.insert(p as int, item));
            assert forall|i: int, j: int| 0 <= i < j < r@.len() implies r@[i].1 >= r@[j].1 by {
                if j < p {
                } else if j == p {
                    if p > 0 {
                        assert(old_r[p - 1].1 >= item.1);
                        assert(old_r[i].1 >= old_r[p - 1].1 || i == p - 1);
                    }
                } else if i == p {
                    assert(r@[j] == old_r[j - 1]);
                } else if i < p {
                    assert(r@[j] == old_r[j - 1]);
                    if j - 1 >= p {
                        assert(old_r[i].1 >= old_r[j - 1].1);
                    }
                } else {
                    assert(r@[i] == old_r[i - 1] && r@[j] == old_r[j - 1]);
                }
            }
            vstd::seq_lib::to_multiset_insert(old_r, p as int, item);
            broadcast use vstd::multiset::group_multiset_axioms;
            assert(item == rest0[0]);
            assert(rest0.contains(item));
            vstd::seq_lib::to_multiset_contains(rest0, item);
            assert(r@.to_multiset().add(rest@.to_multiset()) =~= all.to_multiset());
        }
    }
    proof {
        broadcast use vstd::multiset::group_multiset_axioms;
        broadcast use vstd::seq_lib::group_to_multiset_ensures;
        assert(rest@ =~= Seq::<(String, u32)>::empty());
        assert(rest@.to_multiset() =~= vstd::multiset::Multiset::empty());
        assert(r@.to_multiset() =~= r@.to_multiset().add(rest@.to_multiset()));
    }
    r
}


// ── Log files ────────────────────────────────────────────────────────

/// The log file the user configured (trimmed); `None` means the default
/// `logs/limedl.log` under the state directory.
pub fn configured_log_path(file_path: &str) -> (r: Option<String>)
    ensures
        spec_trim(file_path@).len() == 0 ==> r is None,
        spec_trim(file_path@).len() > 0 ==> (r matches Some(p) && p@ == spec_trim(file_path@)),
{
    let t = trim_string(file_path);
    if t.as_str().is_empty() {
        None
    } else {
        Some(t)
    }
}

/// Rotated logs beyond the retention count: those numbered above it.
pub open spec fn spec_over_count(logs: Seq<(String, u32)>, count: u32, k: int) -> Seq<String>
    decreases k,
{
    if k <= 0 || k > logs.len() {
        Seq::empty()
    } else {
        let prev = spec_over_count(logs, count, k - 1);
        if logs[k - 1].1 > count { prev.push(logs[k - 1].0) } else { prev }
    }
}

/// The rotated logs to delete under a retention count, in their order.
pub fn rotated_logs_over_count(logs: &Vec<(String, u32)>, count: u32) -> (r: Vec<String>)
    ensures
        r@ == spec_over_count(logs@, count, logs@.len() as int),
{
    let mut r: Vec<String> = Vec::new();
    let mut i: usize = 0;
    while i < logs.len()
        invariant
            i <= logs@.len(),
            r@ == spec_over_count(logs@, count, i as int),
        decreases logs@.len() - i,
    {
        if logs[i].1 > count {
            r.push(logs[i].0.clone());
            proof {
                assert(r@.last() == logs@[i as int].0);
            }
        }
        i = i + 1;
    }
    r
}

/// A log file whose age (whole seconds and nanoseconds) is more than
/// `days` days is deleted.
pub fn exceeds_retention_age(age_secs: u64, age_subsec_nanos: u32, days: u32) -> (r: bool)
    requires
        age_subsec_nanos < 1000000000,
    ensures
        r == (age_secs * 1000000000 + age_subsec_nanos > days * 86400 * 1000000000),
{
    let max_secs: u64 = (days as u64) * 86400;
    proof {
        let a = age_secs as int;
        let m = max_secs as int;
        let n = age_subsec_nanos as int;
        assert(a > m ==> a * 1000000000 + n > m * 1000000000) by (nonlinear_arith)
            requires
                0 <= n;
        assert(a < m ==> a * 1000000000 + n < m * 1000000000) by (nonlinear_arith)
            requires
                0 <= n < 1000000000;
    }
    age_secs > max_secs || (age_secs == max_secs && age_subsec_nanos > 0)
}

// ── Vectored writes ──────────────────────────────────────────────────

/// Most slices handed to one vectored write (POSIX `UIO_MAXIOV`).
pub const MAX_IOV_BATCH: usize = 1024;

/// Bytes in the first `k` slices.
pub open spec fn spec_prefix_len(lens: Seq<usize>, k: int) -> int
    decreases k,
{
    if k <= 0 || k > lens.len() {
        0
    } else {
        spec_prefix_len(lens, k - 1) + lens[k - 1]
    }
}

/// Bytes in all slices.
pub open spec fn spec_total_len(lens: Seq<usize>) -> int {
    spec_prefix_len(lens, lens.len() as int)
}

/// Progress through a list of slices: the slice being written and how
/// much of it is already written.
#[derive(Clone, Copy, Debug, PartialEq, Eq, Structural)]
pub struct SliceCursor {
    pub index: usize,
    pub offset: usize,
}

/// A cursor within the slices (past the end only at offset 0).
pub open spec fn spec_cursor_ok(lens: Seq<usize>, c: SliceCursor) -> bool {
    &&& c.index <= lens.len()
    &&& if c.index < lens.len() { c.offset <= lens[c.index as int] } else { c.offset == 0 }
}

/// Bytes before a cursor.
pub open spec fn spec_cursor_pos(lens: Seq<usize>, c: SliceCursor) -> int {
    spec_prefix_len(lens, c.index as int) + c.offset
}

proof fn lemma_prefix_monotone(lens: Seq<usize>, i: int, j: int)
    requires
        0 <= i <= j <= lens.len(),
    ensures
        spec_prefix_len(lens, i) <= spec_prefix_len(lens, j),
    decreases j - i,
{
    if i < j {
        lemma_prefix_monotone(lens, i, j - 1);
    }
}

/// The cursor moved past slices with nothing left to write; the position
/// stays, and the cursor then stands at the end or inside a slice with
/// bytes left.
pub fn skip_written_slices(lens: &Vec<usize>, c: SliceCursor) -> (r: SliceCursor)
    requires
        spec_cursor_ok(lens@, c),
    ensures
        spec_cursor_ok(lens@, r),
        spec_cursor_pos(lens@, r) == spec_cursor_pos(lens@, c),
        c.index <= r.index,
        r.index < lens@.len() ==> r.offset < lens@[r.index as int],
        r.index == c.index ==> r.offset == c.offset,
{
    let mut cur = c;
    while cur.index < lens.len() && lens[cur.index] <= cur.offset
        invariant
            spec_cursor_ok(lens@, cur),
            spec_cursor_pos(lens@, cur) == spec_cursor_pos(lens@, c),
            c.index <= cur.index,
            cur.index == c.index ==> cur.offset == c.offset,
        decreases lens@.len() - cur.index,
    {
        cur = SliceCursor { index: cur.index + 1, offset: 0 };
    }
    cur
}

/// The cursor after `written` more bytes went out.
pub fn advance_cursor(lens: &Vec<usize>, c: SliceCursor, written: usize) -> (r: SliceCursor)
    requires
        spec_cursor_ok(lens@, c),
        spec_cursor_pos(lens@, c) + written <= spec_total_len(lens@),
    ensures
        spec_cursor_ok(lens@, r),
        spec_cursor_pos(lens@, r) == spec_cursor_pos(lens@, c) + written,
{
    let mut cur = c;
    let mut rest = written;
    while rest > 0 && cur.index < lens.len()
        invariant
            spec_cursor_ok(lens@, cur),
            spec_cursor_pos(lens@, cur) + rest == spec_cursor_pos(lens@, c) + written,
            spec_cursor_pos(lens@, c) + written <= spec_total_len(lens@),
        decreases rest, lens@.len() - cur.index,
    {
        let left = lens[cur.index] - cur.offset;
        if rest >= left {
            rest = rest - left;
            cur = SliceCursor { index: cur.index + 1, offset: 0 };
        } else {
            cur = SliceCursor { index: cur.index, offset: cur.offset + rest };
            rest = 0;
        }
    }
    proof {
        if cur.index == lens@.len() {
            assert(spec_cursor_pos(lens@, cur) == spec_total_len(lens@));
        }
    }
    cur
}

/// The slices of the next vectored write: from the cursor's slice up to
/// `MAX_IOV_BATCH` slices (`end` is one past the last), and whether any of
/// them has bytes left.
pub fn next_batch(lens: &Vec<usize>, c: SliceCursor) -> (r: (usize, bool))
    requires
        spec_cursor_ok(lens@, c),
    ensures
        r.0 == (if c.index + MAX_IOV_BATCH < lens@.len() { c.index + MAX_IOV_BATCH } else { lens@.len() as int }),
        r.1 == exists|k: int|
            c.index <= k < r.0 && #[trigger] lens@[k] > (if k == c.index { c.offset as int } else { 0 }),
{
    let end: usize = if lens.len() - c.index > MAX_IOV_BATCH { c.index + MAX_IOV_BATCH } else { lens.len() };
    let mut k: usize = c.index;
    while k < end
        invariant
            c.index <= k <= end,
            end <= lens@.len(),
            end == (if c.index + MAX_IOV_BATCH < lens@.len() { c.index + MAX_IOV_BATCH } else { lens@.len() as int }),
            forall|j: int| c.index <= j < k ==> #[trigger] lens@[j] <= (if j == c.index { c.offset as int } else { 0 }),
        decreases end - k,
    {
        let skip = if k == c.index { c.offset } else { 0 };
        if lens[k] > skip {
            return (end, true);
        }
        k = k + 1;
    }
    (end, false)
}

} // verus!
