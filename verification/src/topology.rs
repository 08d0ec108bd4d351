//! Storage devices behind download directories: device identifiers, the
//! base disk of a partition, the media type read from the system, and the
//! per-device queue metrics and write policy.
use vstd::prelude::*;

use crate::parse::{spec_char_pos, split_once};
use crate::text::{
    chars_of, concat, decimal_string, owned, slice_chars, spec_decimal, spec_starts_with, spec_trim,
    starts_with_chars, str_equals, string_of, trim_string,
};
use crate::types::DiskType;
use crate::urls::opt_view;

verus! {

/// Identifier of a physical or logical storage device.
#[derive(Clone, Debug, PartialEq, Eq, Hash)]
pub enum DeviceId {
    /// Windows physical drive (`PhysicalDrive0`).
    Physical(String),
    /// Linux parent block device (`sda`, `nvme0n1`).
    UnixBlock(String),
    /// macOS BSD disk (`disk0`).
    MacDisk(String),
    /// Logical volume, the fallback (`D:`, `/mnt/data`).
    Volume(String),
    /// Network share.
    Network(String),
    /// Not identified.
    Unknown(String),
}

pub open spec fn spec_device_text(d: DeviceId) -> Seq<char> {
    match d {
        DeviceId::Physical(id) => "physical:"@ + id@,
        DeviceId::UnixBlock(id) => "block:"@ + id@,
        DeviceId::MacDisk(id) => "mac:"@ + id@,
        DeviceId::Volume(id) => "vol:"@ + id@,
        DeviceId::Network(id) => "net:"@ + id@,
        DeviceId::Unknown(id) => "unknown:"@ + id@,
    }
}

impl DeviceId {
    /// How a device identifier is shown: its kind, a colon and the id.
    pub fn to_display_string(&self) -> (s: String)
        ensures
            s@ == spec_device_text(*self),
    {
        match self {
            DeviceId::Physical(id) => concat("physical:", id.as_str()),
            DeviceId::UnixBlock(id) => concat("block:", id.as_str()),
            DeviceId::MacDisk(id) => concat("mac:", id.as_str()),
            DeviceId::Volume(id) => concat("vol:", id.as_str()),
            DeviceId::Network(id) => concat("net:", id.as_str()),
            DeviceId::Unknown(id) => concat("unknown:", id.as_str()),
        }
    }
}

/// Runtime figures of one device's write queue.
#[derive(Clone, Debug)]
pub struct DeviceMetric {
    pub device_id: DeviceId,
    pub disk_type: DiskType,
    pub bytes_written: u64,
    pub write_ops_count: u64,
    pub active_writes: usize,
    pub queued_writes: usize,
}

// ── Base disks ───────────────────────────────────────────────────────

pub open spec fn spec_is_ascii_digit(c: char) -> bool {
    '0' <= c && c <= '9'
}

/// Position of the last `c` in `s`.
pub open spec fn spec_last_pos(s: Seq<char>, c: char) -> Option<int> {
    if exists|i: int| 0 <= i < s.len() && s[i] == c {
        Some(choose|i: int| 0 <= i < s.len() && s[i] == c && forall|j: int| i < j < s.len() ==> s[j] != c)
    } else {
        None
    }
}

/// Position of the first ASCII digit of `s`.
pub open spec fn spec_first_digit(s: Seq<char>) -> Option<int> {
    if exists|i: int| 0 <= i < s.len() && spec_is_ascii_digit(s[i]) {
        Some(choose|i: int| 0 <= i < s.len() && spec_is_ascii_digit(s[i]) && forall|j: int| 0 <= j < i ==> !spec_is_ascii_digit(s[j]))
    } else {
        None
    }
}

/// The whole disk of a Linux block device name: `nvme`/`mmcblk` names drop
/// a trailing `p<digits>`; others are cut at their first digit.
pub open spec fn spec_strip_partition(name: Seq<char>) -> Seq<char> {
    if spec_starts_with(name, "nvme"@) || spec_starts_with(name, "mmcblk"@) {
        match spec_last_pos(name, 'p') {
            Some(pos) => if forall|k: int| pos < k < name.len() ==> spec_is_ascii_digit(#[trigger] name[k]) {
                name.take(pos)
            } else {
                name
            },
            None => name,
        }
    } else {
        match spec_first_digit(name) {
            Some(pos) => name.take(pos),
            None => name,
        }
    }
}

fn last_pos(cs: &Vec<char>, c: char) -> (r: Option<usize>)
    ensures
        match r {
            Some(i) => i < cs@.len() && spec_last_pos(cs@, c) == Some(i as int),
            None => spec_last_pos(cs@, c) is None,
        },
{
    let mut i = cs.len();
    while i > 0
        invariant
            i <= cs@.len(),
            forall|j: int| i <= j < cs@.len() ==> cs@[j] != c,
        decreases i,
    {
        if cs[i - 1] == c {
            proof {
                let k = (i - 1) as int;
                assert(cs@[k] == c);
                let w = choose|w: int| 0 <= w < cs@.len() && cs@[w] == c && forall|j: int| w < j < cs@.len() ==> cs@[j] != c;
                if w < k {
                    assert(cs@[k] != c);
                }
                assert(w == k);
            }
            return Some(i - 1);
        }
        i = i - 1;
    }
    None
}

fn first_digit(cs: &Vec<char>) -> (r: Option<usize>)
    ensures
        match r {
            Some(i) => i < cs@.len() && spec_first_digit(cs@) == Some(i as int),
            None => spec_first_digit(cs@) is None,
        },
{
    let mut i: usize = 0;
    while i < cs.len()
        invariant
            i <= cs@.len(),
            forall|j: int| 0 <= j < i ==> !spec_is_ascii_digit(cs@[j]),
        decreases cs@.len() - i,
    {
        if '0' <= cs[i] && cs[i] <= '9' {
            proof {
                assert(spec_is_ascii_digit(cs@[i as int]));
                let w = choose|w: int| 0 <= w < cs@.len() && spec_is_ascii_digit(cs@[w]) && forall|j: int| 0 <= j < w ==> !spec_is_ascii_digit(cs@[j]);
                if w > i {
                    assert(!spec_is_ascii_digit(cs@[i as int]));
                }
                assert(w == i);
            }
            return Some(i);
        }
        i = i + 1;
    }
    None
}

/// The whole disk of a partition's block device name (`spec_strip_partition`):
/// `sda1` gives `sda`, `nvme0n1p1` gives `nvme0n1`.
pub fn strip_partition(name: &str) -> (r: String)
    ensures
        r@ == spec_strip_partition(name@),
{
    let cs = chars_of(name);
    let n = cs.len();
    if starts_with_chars(&cs, &chars_of("nvme")) || starts_with_chars(&cs, &chars_of("mmcblk")) {
        match last_pos(&cs, 'p') {
            Some(pos) => {
                let mut k = pos + 1;
                while k < cs.len() && '0' <= cs[k] && cs[k] <= '9'
                    invariant
                        pos < k <= cs@.len(),
                        forall|j: int| pos < j < k ==> spec_is_ascii_digit(#[trigger] cs@[j]),
                    decreases cs@.len() - k,
                {
                    k = k + 1;
                }
                if k == cs.len() {
                    let r = slice_chars(&cs, 0, pos);
                    assert(r@ == cs@.take(pos as int));
                    string_of(&r)
                } else {
                    assert(!spec_is_ascii_digit(cs@[k as int]));
                    owned(name)
                }
            },
            None => owned(name),
        }
    } else {
        match first_digit(&cs) {
            Some(pos) => {
                let r = slice_chars(&cs, 0, pos);
                assert(r@ == cs@.take(pos as int));
                string_of(&r)
            },
            None => owned(name),
        }
    }
}

/// Position of the first `s` that follows a digit (the slice marker of a
/// BSD name such as `disk1s2`).
pub open spec fn spec_slice_marker(s: Seq<char>, i: int) -> bool {
    1 <= i < s.len() && s[i] == 's' && spec_is_ascii_digit(s[i - 1])
}

pub open spec fn spec_slice_pos(s: Seq<char>) -> Option<int> {
    if exists|i: int| #[trigger] spec_slice_marker(s, i) {
        Some(choose|i: int| spec_slice_marker(s, i) && forall|j: int| 1 <= j < i ==> !spec_slice_marker(s, j))
    } else {
        None
    }
}

/// The whole disk of a macOS BSD device name: `disk1s2` gives `disk1`,
/// `disk0` stays `disk0`.
pub open spec fn spec_base_disk_name(bsd: Seq<char>) -> Seq<char> {
    match spec_slice_pos(bsd) {
        Some(i) => bsd.take(i),
        None => bsd,
    }
}

pub fn base_disk_name(bsd: &str) -> (r: String)
    ensures
        r@ == spec_base_disk_name(bsd@),
{
    let cs = chars_of(bsd);
    let mut i: usize = 1;
    while i < cs.len()
        invariant
            1 <= i,
            cs@ == bsd@,
            i <= cs@.len() || cs@.len() == 0,
            forall|j: int| 1 <= j < i ==> !spec_slice_marker(cs@, j),
        decreases cs@.len() - i,
    {
        if cs[i] == 's' && '0' <= cs[i - 1] && cs[i - 1] <= '9' {
            proof {
                assert(spec_slice_marker(cs@, i as int));
                let w = choose|w: int| spec_slice_marker(cs@, w) && forall|j: int| 1 <= j < w ==> !spec_slice_marker(cs@, j);
                if w > i {
                    assert(!spec_slice_marker(cs@, i as int));
                }
                assert(w == i);
            }
            let r = slice_chars(&cs, 0, i);
            assert(r@ == cs@.take(i as int));
            return string_of(&r);
        }
        i = i + 1;
    }
    proof {
        assert forall|j: int| !spec_slice_marker(cs@, j) by {
            if 1 <= j < cs@.len() {
                assert(j < i);
            }
        }
    }
    owned(bsd)
}

// ── Detection decisions ──────────────────────────────────────────────

/// A block device is rotational (an HDD) when its `queue/rotational` file
/// reads `1`; unreadable or anything else means SSD.
pub open spec fn spec_disk_type(rotational: Option<Seq<char>>) -> DiskType {
    match rotational {
        Some(v) => if spec_trim(v) == "1"@ { DiskType::Hdd } else { DiskType::Ssd },
        None => DiskType::Ssd,
    }
}

/// Media type of a device from the contents of its `queue/rotational`
/// file (`spec_disk_type`); `None` when it could not be read.
pub fn detect_disk_type(rotational: &Option<String>) -> (t: DiskType)
    ensures
        t == spec_disk_type(opt_view(*rotational)),
{
    match rotational {
        Some(v) => {
            let trimmed = trim_string(v.as_str());
            if str_equals(trimmed.as_str(), "1") { DiskType::Hdd } else { DiskType::Ssd }
        },
        None => DiskType::Ssd,
    }
}

/// Media types of the devices whose rotational flag could be read, in order.
pub open spec fn spec_all_disk_types(devices: Seq<(String, Option<String>)>) -> Seq<(Seq<char>, DiskType)>
    decreases devices.len(),
{
    if devices.len() == 0 {
        Seq::empty()
    } else {
        let prev = spec_all_disk_types(devices.drop_last());
        let (name, rotational) = devices.last();
        if rotational is Some {
            prev.push((name@, spec_disk_type(opt_view(rotational))))
        } else {
            prev
        }
    }
}

pub open spec fn spec_named_type_view(p: (String, DiskType)) -> (Seq<char>, DiskType) {
    (p.0@, p.1)
}

/// Media type of every block device that has a readable rotational flag,
/// from `(name, rotational file contents)` pairs (`spec_all_disk_types`).
pub fn detect_all_disk_types(devices: &Vec<(String, Option<String>)>) -> (r: Vec<(String, DiskType)>)
    ensures
        r@.map_values(|p: (String, DiskType)| spec_named_type_view(p)) == spec_all_disk_types(devices@),
{
    let mut r: Vec<(String, DiskType)> = Vec::new();
    let mut j: usize = 0;
    while j < devices.len()
        invariant
            j <= devices@.len(),
            r@.map_values(|p: (String, DiskType)| spec_named_type_view(p)) == spec_all_disk_types(devices@.take(j as int)),
        decreases devices@.len() - j,
    {
        proof {
            assert(devices@.take(j + 1).drop_last() == devices@.take(j as int));
        }
        let (name, rotational) = &devices[j];
        if rotational.is_some() {
            let t = detect_disk_type(rotational);
            let ghost before = r@.map_values(|p: (String, DiskType)| spec_named_type_view(p));
            r.push((name.clone(), t));
            assert(r@.map_values(|p: (String, DiskType)| spec_named_type_view(p)) == before.push((name@, t)));
        }
        j = j + 1;
    }
    assert(devices@.take(devices@.len() as int) == devices@);
    r
}

/// The device identifier of a path from what the system reported: its
/// device numbers (`None` when the path could not be examined) and the
/// name its `/sys/dev/block/<major>:<minor>` link points to (`None` when
/// the link could not be read).
pub fn detect_device_id(dev: Option<(u32, u32)>, link_name: &Option<String>) -> (d: DeviceId)
    ensures
        match dev {
            None => d matches DeviceId::Unknown(s) && s@ == "stat_failed"@,
            Some((major, minor)) => match *link_name {
                Some(n) => d matches DeviceId::UnixBlock(s) && s@ == spec_strip_partition(n@),
                None => d matches DeviceId::Volume(s) && s@ == "dev_"@ + spec_decimal(major as nat) + "_"@
                    + spec_decimal(minor as nat),
            },
        },
{
    match dev {
        None => DeviceId::Unknown(owned("stat_failed")),
        Some((major, minor)) => match link_name {
            Some(n) => DeviceId::UnixBlock(strip_partition(n.as_str())),
            None => {
                let t = concat("dev_", decimal_string(major as u64).as_str());
                let t = concat(t.as_str(), "_");
                DeviceId::Volume(concat(t.as_str(), decimal_string(minor as u64).as_str()))
            },
        },
    }
}

// ── Device queues ────────────────────────────────────────────────────

/// Writer threads of a device queue: one serialized writer for an HDD (no
/// seek storms), four in parallel for an SSD.
pub fn channel_count(disk_type: DiskType) -> (n: usize)
    ensures
        n == match disk_type {
            DiskType::Hdd => 1usize,
            DiskType::Ssd => 4usize,
        },
{
    match disk_type {
        DiskType::Hdd => 1,
        DiskType::Ssd => 4,
    }
}

/// When written data is flushed to the disk.
#[derive(Clone, Copy, Debug, PartialEq, Eq, Structural)]
pub enum SyncMode {
    Off,
    Force,
    Adaptive,
}

/// Bytes after which adaptive syncing flushes (16 MiB).
pub const ADAPTIVE_SYNC_BYTES: u64 = 16777216;

/// Milliseconds after which adaptive syncing flushes.
pub const ADAPTIVE_SYNC_INTERVAL_MS: u64 = 3000;

/// Whether a write batch ends with a flush, given the bytes written since
/// the last flush (including this batch) and the time since it.
pub fn should_sync(mode: SyncMode, bytes_since_last_sync: u64, ms_since_last_sync: u64) -> (r: bool)
    ensures
        r == match mode {
            SyncMode::Off => false,
            SyncMode::Force => true,
            SyncMode::Adaptive => bytes_since_last_sync >= ADAPTIVE_SYNC_BYTES
                || ms_since_last_sync >= ADAPTIVE_SYNC_INTERVAL_MS,
        },
{
    match mode {
        SyncMode::Off => false,
        SyncMode::Force => true,
        SyncMode::Adaptive => bytes_since_last_sync >= ADAPTIVE_SYNC_BYTES
            || ms_since_last_sync >= ADAPTIVE_SYNC_INTERVAL_MS,
    }
}


/// After a write batch of `batch_bytes`: whether to flush now, and the
/// byte count since the last flush as it stands before that flush (only
/// adaptive syncing counts bytes). A successful flush then resets it to 0.
pub fn sync_after_batch(mode: SyncMode, bytes_since_last_sync: u64, batch_bytes: u64, ms_since_last_sync: u64) -> (r: (
    bool,
    u64,
))
    requires
        mode == SyncMode::Adaptive ==> bytes_since_last_sync + batch_bytes <= u64::MAX,
    ensures
        r == match mode {
            SyncMode::Off => (false, bytes_since_last_sync),
            SyncMode::Force => (true, bytes_since_last_sync),
            SyncMode::Adaptive => {
                let counted = (bytes_since_last_sync + batch_bytes) as u64;
                (counted >= ADAPTIVE_SYNC_BYTES || ms_since_last_sync >= ADAPTIVE_SYNC_INTERVAL_MS, counted)
            },
        },
{
    match mode {
        SyncMode::Adaptive => {
            let counted = bytes_since_last_sync + batch_bytes;
            (should_sync(mode, counted, ms_since_last_sync), counted)
        },
        _ => (should_sync(mode, bytes_since_last_sync, ms_since_last_sync), bytes_since_last_sync),
    }
}

} // verus!
