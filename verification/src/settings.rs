//! Validation and normalization of the persisted settings document.
use vstd::prelude::*;

use crate::error::DownloadError;
use crate::text::{
    chars_of, concat, first_index, insert_sorted_unique, join_lines, owned, slice_chars, spec_join_lines,
    spec_lt, spec_strictly_sorted, spec_trim, str_equals, string_of, trim_chars, trim_string,
};
use crate::text::{decimal_string, lemma_trim_idempotent, spec_decimal, spec_starts_with, starts_with_chars};
use crate::types::{
    default_http_user_agent, default_tracker_list_url, spec_default_http_user_agent, spec_default_tracker_list_url,
    AppSettings, AutomaticSchedulerSettings, BtPortRange, BtSettings, DownloadDefaultsSettings, GitHubMirrorSettings,
    IoBaselineSettings, LogSettings, MirrorEntry, ProxyMode, ProxySettings, SchedulerSettings,
    TraditionalSchedulerSettings,
};
use crate::urls::{parse_url, spec_url_parse};

verus! {

// ── Clamping helpers ─────────────────────────────────────────────────

pub open spec fn spec_clamp(v: int, lo: int, hi: int) -> int {
    if v < lo { lo } else if v > hi { hi } else { v }
}

pub fn clamp_usize(v: usize, lo: usize, hi: usize) -> (r: usize)
    requires
        lo <= hi,
    ensures
        r == spec_clamp(v as int, lo as int, hi as int),
{
    if v < lo { lo } else if v > hi { hi } else { v }
}

pub fn clamp_u64(v: u64, lo: u64, hi: u64) -> (r: u64)
    requires
        lo <= hi,
    ensures
        r == spec_clamp(v as int, lo as int, hi as int),
{
    if v < lo { lo } else if v > hi { hi } else { v }
}

pub fn clamp_u32(v: u32, lo: u32, hi: u32) -> (r: u32)
    requires
        lo <= hi,
    ensures
        r == spec_clamp(v as int, lo as int, hi as int),
{
    if v < lo { lo } else if v > hi { hi } else { v }
}

// ── Proxy ────────────────────────────────────────────────────────────

/// Message of the error for a manual proxy URL that fails to parse.
pub open spec fn spec_url_error(input: Seq<char>) -> Seq<char> {
    match spec_url_parse(input) {
        Err(m) => m,
        Ok(_) => seq![],
    }
}

/// Disabled and system proxies drop any manual URL; a manual proxy needs a
/// non-empty URL that parses, stored trimmed.
pub fn normalize_proxy_settings(settings: ProxySettings) -> (r: Result<ProxySettings, DownloadError>)
    ensures
        settings.mode != ProxyMode::Manual ==> (r matches Ok(p) && p.mode == settings.mode && p.manual_url@.len() == 0),
        settings.mode == ProxyMode::Manual ==> {
            let u = spec_trim(settings.manual_url@);
            if u.len() == 0 {
                r matches Err(DownloadError::InvalidProxy(m)) && m@ == "manual proxy url is required"@
            } else if spec_url_parse(u) is Err {
                r matches Err(DownloadError::InvalidProxy(m)) && m@ == spec_url_error(u)
            } else {
                r matches Ok(p) && p.mode == ProxyMode::Manual && p.manual_url@ == u
            }
        },
{
    match settings.mode {
        ProxyMode::Disabled | ProxyMode::System => Ok(ProxySettings { mode: settings.mode, manual_url: String::new() }),
        ProxyMode::Manual => {
            let manual_url = trim_string(settings.manual_url.as_str());
            if manual_url.as_str().is_empty() {
                return Err(DownloadError::InvalidProxy(owned("manual proxy url is required")));
            }
            match parse_url(manual_url.as_str()) {
                Err(message) => Err(DownloadError::InvalidProxy(message)),
                Ok(_) => Ok(ProxySettings { mode: ProxyMode::Manual, manual_url }),
            }
        },
    }
}

// ── Small normalizers ────────────────────────────────────────────────

pub open spec fn spec_normalize_min_threads(raw: usize, max_per_task: usize) -> int {
    if raw == 0 {
        if max_per_task / 2 > 1 { (max_per_task / 2) as int } else { 1 }
    } else {
        spec_clamp(raw as int, 1, max_per_task as int)
    }
}

/// Minimum threads per task: 0 means "half the per-task maximum, at least
/// one"; other values are clamped to `[1, max_per_task]`.
pub fn normalize_min_threads(raw: usize, max_per_task: usize) -> (r: usize)
    requires
        raw != 0 ==> max_per_task >= 1,
    ensures
        r == spec_normalize_min_threads(raw, max_per_task),
{
    if raw == 0 {
        let half = max_per_task / 2;
        if half > 1 { half } else { 1 }
    } else {
        clamp_usize(raw, 1, max_per_task)
    }
}

pub open spec fn spec_clamp_max_in_memory(raw: usize) -> int {
    if raw == 0 { 0 } else { spec_clamp(raw as int, 10, 10000) }
}

/// 0 means unlimited (no eviction); other values are clamped to `[10, 10000]`.
pub fn clamp_max_in_memory(raw: usize) -> (r: usize)
    ensures
        r == spec_clamp_max_in_memory(raw),
{
    if raw == 0 { 0 } else { clamp_usize(raw, 10, 10000) }
}

pub open spec fn spec_clamp_opt(v: Option<u32>, lo: int, hi: int) -> Option<int> {
    match v {
        Some(x) => Some(spec_clamp(x as int, lo, hi)),
        None => None,
    }
}

pub open spec fn opt_u32_int(v: Option<u32>) -> Option<int> {
    match v {
        Some(x) => Some(x as int),
        None => None,
    }
}

/// Trims the log path and clamps retention to 1000 files and 3650 days.
pub fn normalize_logging_settings(settings: LogSettings) -> (r: LogSettings)
    ensures
        r.enabled == settings.enabled,
        r.level == settings.level,
        r.file_path@ == spec_trim(settings.file_path@),
        opt_u32_int(r.retention_count) == spec_clamp_opt(settings.retention_count, 0, 1000),
        opt_u32_int(r.retention_days) == spec_clamp_opt(settings.retention_days, 0, 3650),
{
    LogSettings {
        enabled: settings.enabled,
        level: settings.level,
        file_path: trim_string(settings.file_path.as_str()),
        retention_count: match settings.retention_count {
            Some(c) => Some(clamp_u32(c, 0, 1000)),
            None => None,
        },
        retention_days: match settings.retention_days {
            Some(d) => Some(clamp_u32(d, 0, 3650)),
            None => None,
        },
    }
}

/// Whether `s` has a shape that some platform can take as an absolute path:
/// it begins with `/` or `\`, or holds a `:` (a drive or scheme prefix).
/// A path of any other shape is relative everywhere.
pub open spec fn spec_may_be_absolute(s: Seq<char>) -> bool {
    s.len() > 0 && (s[0] == '/' || s[0] == '\\' || s.contains(':'))
}

/// Asks `std::path::Path::is_absolute` whether `path` is absolute on the
/// running platform. Its documentation gives the rule per platform: on
/// Unix a path is absolute when it starts with the root `/`; on Windows
/// when it has a prefix (`C:`, `\\server\share`, `\\?\`, `\\.\`) and a
/// root. Only what every such rule shares is claimed: an absolute path
/// has the shape `spec_may_be_absolute`. Which paths of that shape count
/// as absolute depends on the platform and is not stated.
#[verifier::external_body]
pub(crate) fn path_is_absolute(path: &str) -> (r: bool)
    ensures
        r ==> spec_may_be_absolute(path@),
{
    std::path::Path::new(path).is_absolute()
}

/// The directory kept by download-directory normalization, given whether
/// the platform takes the trimmed path as absolute: the path itself when
/// it is absolute and not empty, otherwise the empty string.
pub fn absolute_dir_or_empty(trimmed: String, is_absolute: bool) -> (r: String)
    ensures
        r@ == (if is_absolute && trimmed@.len() > 0 { trimmed@ } else { Seq::<char>::empty() }),
{
    if is_absolute && !trimmed.as_str().is_empty() {
        trimmed
    } else {
        String::new()
    }
}

/// A trimmed directory if it is an absolute path, otherwise the empty
/// string. Whether a path of absolute shape is kept is the platform's
/// answer (see `path_is_absolute` and `absolute_dir_or_empty`); an empty
/// or relative-shaped path always gives the empty string.
pub fn normalize_download_dir(raw: &str) -> (r: String)
    ensures
        r@.len() == 0 || r@ == spec_trim(raw@),
        spec_trim(raw@).len() == 0 ==> r@.len() == 0,
        !spec_may_be_absolute(spec_trim(raw@)) ==> r@.len() == 0,
{
    let trimmed = trim_string(raw);
    if trimmed.as_str().is_empty() {
        return String::new();
    }
    let is_absolute = path_is_absolute(trimmed.as_str());
    absolute_dir_or_empty(trimmed, is_absolute)
}

// ── User agent ───────────────────────────────────────────────────────

/// Bytes allowed in an HTTP header value: visible ASCII, space, tab and any
/// non-ASCII byte. For a string this means every character is a tab, or
/// at least a space and not DEL.
pub open spec fn spec_header_char_ok(c: char) -> bool {
    ((c as u32) >= 32 && (c as u32) != 127) || (c as u32) == 9
}

pub open spec fn spec_header_value_ok(s: Seq<char>) -> bool {
    forall|i: int| 0 <= i < s.len() ==> spec_header_char_ok(#[trigger] s[i])
}

/// Asks `reqwest::header::HeaderValue::from_str` (from the `http` crate)
/// whether `value` is a valid header value. Its source accepts exactly the
/// strings whose UTF-8 bytes are all tab or in 32..=255 except 127; in terms
/// of characters that is `spec_header_value_ok`.
#[verifier::external_body]
pub(crate) fn header_value_ok(value: &str) -> (r: bool)
    ensures
        r == spec_header_value_ok(value@),
{
    reqwest::header::HeaderValue::from_str(value).is_ok()
}

/// Number of bytes of the UTF-8 encoding of `s`.
pub open spec fn spec_utf8_len(s: Seq<char>) -> int {
    (vstd::utf8::encode_utf8(s).len() as usize) as int
}

pub open spec fn spec_normalize_user_agent(ua: Seq<char>) -> Result<Seq<char>, ()> {
    let n = spec_trim(ua);
    if n.len() == 0 {
        Ok(spec_default_http_user_agent())
    } else if spec_utf8_len(n) > 512 || !spec_header_value_ok(n) {
        Err(())
    } else {
        Ok(n)
    }
}

pub open spec fn spec_ua_result(r: Result<String, DownloadError>, s: Result<Seq<char>, ()>) -> bool {
    match s {
        Ok(v) => r matches Ok(x) && x@ == v,
        Err(_) => r matches Err(DownloadError::InvalidResponse(m)) && m@ == "invalid user-agent value"@,
    }
}

/// A trimmed user agent; empty means the default browser user agent; more
/// than 512 bytes or characters not allowed in a header are rejected.
pub fn normalize_user_agent(user_agent: &str) -> (r: Result<String, DownloadError>)
    ensures
        spec_ua_result(r, spec_normalize_user_agent(user_agent@)),
{
    let normalized = trim_string(user_agent);
    if normalized.as_str().is_empty() {
        return Ok(default_http_user_agent());
    }
    if normalized.as_str().len() > 512 || !header_value_ok(normalized.as_str()) {
        return Err(DownloadError::InvalidResponse(owned("invalid user-agent value")));
    }
    Ok(normalized)
}

/// The request's user agent when it has non-blank text, else the default;
/// either one is then normalized.
pub fn resolve_user_agent(request_user_agent: Option<&str>, default_user_agent: &str) -> (r: Result<
    String,
    DownloadError,
>)
    ensures
        match request_user_agent {
            Some(ua) if spec_trim(ua@).len() > 0 => spec_ua_result(r, spec_normalize_user_agent(spec_trim(ua@))),
            _ => spec_ua_result(r, spec_normalize_user_agent(default_user_agent@)),
        },
{
    match request_user_agent {
        Some(ua) => {
            let t = trim_string(ua);
            if !t.as_str().is_empty() {
                return normalize_user_agent(t.as_str());
            }
            normalize_user_agent(default_user_agent)
        },
        None => normalize_user_agent(default_user_agent),
    }
}

// ── Tracker lists ────────────────────────────────────────────────────

/// Position of the first line feed of `s`, or its length when it has none.
pub open spec fn spec_nl_pos(s: Seq<char>) -> int
    decreases s.len(),
{
    if s.len() == 0 {
        0
    } else if s[0] == '\n' {
        0
    } else {
        1 + spec_nl_pos(s.drop_first())
    }
}

pub proof fn lemma_nl_pos_bounds(s: Seq<char>)
    ensures
        0 <= spec_nl_pos(s) <= s.len(),
        spec_nl_pos(s) < s.len() ==> s[spec_nl_pos(s)] == '\n',
        forall|j: int| 0 <= j < spec_nl_pos(s) ==> s[j] != '\n',
    decreases s.len(),
{
    if s.len() > 0 && s[0] != '\n' {
        lemma_nl_pos_bounds(s.drop_first());
        assert forall|j: int| 0 <= j < spec_nl_pos(s) implies s[j] != '\n' by {
            if j > 0 {
                assert(s[j] == s.drop_first()[j - 1]);
            }
        }
    }
}

pub proof fn lemma_nl_pos_is(s: Seq<char>, i: int)
    requires
        0 <= i <= s.len(),
        i < s.len() ==> s[i] == '\n',
        forall|j: int| 0 <= j < i ==> s[j] != '\n',
    ensures
        spec_nl_pos(s) == i,
    decreases s.len(),
{
    if s.len() > 0 && i > 0 {
        lemma_nl_pos_is(s.drop_first(), i - 1);
    }
}

/// `s` split at every line feed (the last piece may be empty).
pub open spec fn spec_split_lines(s: Seq<char>) -> Seq<Seq<char>>
    decreases s.len(),
{
    let i = spec_nl_pos(s);
    if i < s.len() {
        proof {
            lemma_nl_pos_bounds(s);
        }
        seq![s.take(i)] + spec_split_lines(s.skip(i + 1))
    } else {
        seq![s]
    }
}

/// The pieces of `s` between line feeds, in order.
pub fn split_lines(s: &str) -> (r: Vec<Vec<char>>)
    ensures
        r@.map_values(|e: Vec<char>| e@) == spec_split_lines(s@),
{
    let cs = chars_of(s);
    let mut r: Vec<Vec<char>> = Vec::new();
    let mut start: usize = 0;
    assert(cs@.skip(0) == cs@);
    loop
        invariant
            start <= cs@.len(),
            cs@ == s@,
            spec_split_lines(s@) == r@.map_values(|e: Vec<char>| e@) + spec_split_lines(cs@.skip(start as int)),
        decreases cs@.len() - start,
    {
        let rest = slice_chars(&cs, start, cs.len());
        assert(rest@ == cs@.skip(start as int));
        let next = first_index(&rest, '\n');
        let ghost old_r = r@.map_values(|e: Vec<char>| e@);
        match next {
            Some(i) => {
                proof {
                    lemma_nl_pos_is(rest@, i as int);
                    assert(rest@.skip(i + 1) == cs@.skip(start + i + 1));
                }
                r.push(slice_chars(&cs, start, start + i));
                assert(cs@.subrange(start as int, start + i) == rest@.take(i as int));
                assert(r@.map_values(|e: Vec<char>| e@) == old_r.push(rest@.take(i as int)));
                start = start + i + 1;
            },
            None => {
                proof {
                    lemma_nl_pos_is(rest@, rest@.len() as int);
                }
                r.push(rest);
                assert(r@.map_values(|e: Vec<char>| e@) == old_r.push(cs@.skip(start as int)));
                return r;
            },
        }
    }
}

/// The non-blank lines of `s`, trimmed. (Trimming also removes the `\r`
/// of `\r\n` line ends.)
pub open spec fn spec_tracker_entries(s: Seq<char>) -> Seq<Seq<char>> {
    spec_split_lines(s).map_values(|l: Seq<char>| spec_trim(l)).filter(|l: Seq<char>| l.len() > 0)
}

pub open spec fn spec_tracker_scheme_ok(scheme: Seq<char>) -> bool {
    scheme == "http"@ || scheme == "https"@ || scheme == "udp"@
}

/// Outcome of validating one tracker URL: its normalized serialization, or
/// the message of the error.
pub open spec fn spec_parse_tracker(t: Seq<char>) -> Result<Seq<char>, Seq<char>> {
    match spec_url_parse(t) {
        Err(m) => Err(m),
        Ok(u) => if spec_tracker_scheme_ok(u.1) {
            Ok(u.0)
        } else {
            Err("unsupported tracker scheme: "@ + u.1)
        },
    }
}

/// Parses a tracker URL and accepts `http`, `https` and `udp` schemes.
pub fn parse_tracker_url(tracker: &str) -> (r: Result<String, DownloadError>)
    ensures
        match spec_parse_tracker(tracker@) {
            Ok(v) => r matches Ok(x) && x@ == v,
            Err(m) => r matches Err(DownloadError::InvalidResponse(x)) && x@ == m,
        },
{
    match parse_url(tracker) {
        Err(message) => Err(DownloadError::InvalidResponse(message)),
        Ok(parts) => {
            proof {
                reveal_strlit("http");
                reveal_strlit("https");
                reveal_strlit("udp");
            }
            let s = parts.scheme.as_str();
            if str_equals(s, "http") || str_equals(s, "https") || str_equals(s, "udp") {
                Ok(parts.serialization)
            } else {
                Err(DownloadError::InvalidResponse(concat("unsupported tracker scheme: ", s)))
            }
        },
    }
}

/// The sorted, duplicate-free list of `items`.
pub open spec fn spec_is_sorted_set_of(sorted: Seq<Seq<char>>, items: Seq<Seq<char>>) -> bool {
    spec_strictly_sorted(sorted) && sorted.to_set() == items.to_set()
}

/// Text of a tracker list after sorting, removing duplicates and joining
/// with line feeds.
pub open spec fn spec_finalized_list(r: Seq<char>, items: Seq<Seq<char>>) -> bool {
    exists|sorted: Seq<Seq<char>>| spec_is_sorted_set_of(sorted, items) && r == spec_join_lines(sorted)
}

/// The non-blank trimmed lines of `s`, in order.
pub fn tracker_entries(s: &str) -> (r: Vec<Vec<char>>)
    ensures
        r@.map_values(|e: Vec<char>| e@) == spec_tracker_entries(s@),
{
    let lines = split_lines(s);
    let ghost lv = lines@.map_values(|e: Vec<char>| e@);
    let ghost tv = lv.map_values(|l: Seq<char>| spec_trim(l));
    let mut r: Vec<Vec<char>> = Vec::new();
    let mut i: usize = 0;
    while i < lines.len()
        invariant
            i <= lines@.len(),
            lv == lines@.map_values(|e: Vec<char>| e@),
            lv == spec_split_lines(s@),
            tv == lv.map_values(|l: Seq<char>| spec_trim(l)),
            r@.map_values(|e: Vec<char>| e@) == tv.take(i as int).filter(|l: Seq<char>| l.len() > 0),
        decreases lines@.len() - i,
    {
        let trimmed = trim_chars(string_of(&lines[i]).as_str());
        let ghost old_r = r@.map_values(|e: Vec<char>| e@);
        proof {
            assert(tv.take(i + 1) == tv.take(i as int).push(tv[i as int]));
            crate::text::lemma_filter_push(tv.take(i as int), |l: Seq<char>| l.len() > 0, tv[i as int]);
        }
        if trimmed.len() > 0 {
            r.push(trimmed);
            assert(r@.map_values(|e: Vec<char>| e@) == old_r.push(tv[i as int]));
        }
        i = i + 1;
    }
    assert(tv.take(lines@.len() as int) == tv);
    r
}

/// Sorts, de-duplicates and joins validated tracker URLs.
pub fn finalize_tracker_list(normalized: Vec<Vec<char>>) -> (r: String)
    ensures
        spec_finalized_list(r@, normalized@.map_values(|e: Vec<char>| e@)),
{
    let ghost items = normalized@.map_values(|e: Vec<char>| e@);
    let mut sorted: Vec<Vec<char>> = Vec::new();
    let mut i: usize = 0;
    assert(items.take(0).to_set() =~= sorted@.map_values(|e: Vec<char>| e@).to_set());
    while i < normalized.len()
        invariant
            i <= normalized@.len(),
            items == normalized@.map_values(|e: Vec<char>| e@),
            spec_is_sorted_set_of(sorted@.map_values(|e: Vec<char>| e@), items.take(i as int)),
        decreases normalized@.len() - i,
    {
        insert_sorted_unique(&mut sorted, normalized[i].clone());
        assert(items.take(i + 1) == items.take(i as int).push(items[i as int]));
        proof {
            items.take(i as int).lemma_push_to_set_commute(items[i as int]);
        }
        i = i + 1;
    }
    assert(items.take(normalized@.len() as int) == items);
    join_lines(&sorted)
}

/// First failure among the tracker entries, if any.
pub open spec fn spec_first_tracker_error(entries: Seq<Seq<char>>) -> Option<Seq<char>>
    decreases entries.len(),
{
    if entries.len() == 0 {
        None
    } else if spec_parse_tracker(entries[0]) is Err {
        Some(spec_parse_tracker(entries[0])->Err_0)
    } else {
        spec_first_tracker_error(entries.drop_first())
    }
}

pub open spec fn spec_parsed_trackers(entries: Seq<Seq<char>>) -> Seq<Seq<char>> {
    entries.map_values(|t: Seq<char>| spec_parse_tracker(t)->Ok_0)
}

/// Validates every non-blank line as a tracker URL; fails on the first bad
/// line, otherwise returns the sorted distinct normalized URLs, one per line.
pub fn normalize_tracker_list(tracker_list: &str) -> (r: Result<String, DownloadError>)
    ensures
        match spec_first_tracker_error(spec_tracker_entries(tracker_list@)) {
            Some(m) => r matches Err(DownloadError::InvalidResponse(x)) && x@ == m,
            None => r matches Ok(x) && spec_finalized_list(x@, spec_parsed_trackers(spec_tracker_entries(tracker_list@))),
        },
{
    let entries = tracker_entries(tracker_list);
    let ghost ev = entries@.map_values(|e: Vec<char>| e@);
    let mut normalized: Vec<Vec<char>> = Vec::new();
    let mut i: usize = 0;
    assert(ev.skip(0) == ev);
    while i < entries.len()
        invariant
            i <= entries@.len(),
            ev == entries@.map_values(|e: Vec<char>| e@),
            ev == spec_tracker_entries(tracker_list@),
            spec_first_tracker_error(ev) == spec_first_tracker_error(ev.skip(i as int)),
            normalized@.map_values(|e: Vec<char>| e@) == spec_parsed_trackers(ev.take(i as int)),
        decreases entries@.len() - i,
    {
        let text = string_of(&entries[i]);
        assert(ev.skip(i as int)[0] == ev[i as int]);
        assert(ev.skip(i as int).drop_first() == ev.skip(i + 1));
        match parse_tracker_url(text.as_str()) {
            Err(e) => {
                return Err(e);
            },
            Ok(url) => {
                let ghost old_n = normalized@.map_values(|e: Vec<char>| e@);
                normalized.push(chars_of(url.as_str()));
                assert(ev.take(i + 1) == ev.take(i as int).push(ev[i as int]));
                assert(normalized@.map_values(|e: Vec<char>| e@) == old_n.push(url@));
                assert(spec_parsed_trackers(ev.take(i + 1)) == spec_parsed_trackers(ev.take(i as int)).push(url@));
            },
        }
        i = i + 1;
    }
    assert(ev.take(ev.len() as int) == ev);
    Ok(finalize_tracker_list(normalized))
}

/// The entries that parse as tracker URLs, normalized, in order.
pub open spec fn spec_valid_trackers(entries: Seq<Seq<char>>) -> Seq<Seq<char>> {
    entries.filter(|t: Seq<char>| spec_parse_tracker(t) is Ok).map_values(
        |t: Seq<char>| spec_parse_tracker(t)->Ok_0,
    )
}

/// Like `normalize_tracker_list`, but drops invalid lines instead of failing.
pub fn normalize_tracker_list_lossy(tracker_list: &str) -> (r: String)
    ensures
        spec_finalized_list(r@, spec_valid_trackers(spec_tracker_entries(tracker_list@))),
{
    let entries = tracker_entries(tracker_list);
    let ghost ev = entries@.map_values(|e: Vec<char>| e@);
    let mut normalized: Vec<Vec<char>> = Vec::new();
    let mut i: usize = 0;
    while i < entries.len()
        invariant
            i <= entries@.len(),
            ev == entries@.map_values(|e: Vec<char>| e@),
            normalized@.map_values(|e: Vec<char>| e@) == spec_valid_trackers(ev.take(i as int)),
        decreases entries@.len() - i,
    {
        let text = string_of(&entries[i]);
        let ghost t = ev[i as int];
        proof {
            assert(ev.take(i + 1) == ev.take(i as int).push(t));
            crate::text::lemma_filter_push(ev.take(i as int), |t: Seq<char>| spec_parse_tracker(t) is Ok, t);
        }
        let ghost old_n = normalized@.map_values(|e: Vec<char>| e@);
        let ghost kept = ev.take(i as int).filter(|t: Seq<char>| spec_parse_tracker(t) is Ok);
        match parse_tracker_url(text.as_str()) {
            Err(_) => {},
            Ok(url) => {
                normalized.push(chars_of(url.as_str()));
                assert(normalized@.map_values(|e: Vec<char>| e@) == old_n.push(url@));
                assert(kept.push(t).map_values(|t: Seq<char>| spec_parse_tracker(t)->Ok_0)
                    == kept.map_values(|t: Seq<char>| spec_parse_tracker(t)->Ok_0).push(url@));
            },
        }
        i = i + 1;
    }
    assert(ev.take(ev.len() as int) == ev);
    finalize_tracker_list(normalized)
}

pub open spec fn spec_tracker_list_url_scheme_ok(scheme: Seq<char>) -> bool {
    scheme == "http"@ || scheme == "https"@
}

/// Blank means the default source; otherwise an `http`/`https` URL,
/// normalized.
pub fn normalize_tracker_list_url(tracker_list_url: &str) -> (r: Result<String, DownloadError>)
    ensures
        ({
            let t = spec_trim(tracker_list_url@);
            if t.len() == 0 {
                r matches Ok(x) && x@ == spec_default_tracker_list_url()
            } else {
                match spec_url_parse(t) {
                    Err(m) => r matches Err(DownloadError::InvalidResponse(x)) && x@ == m,
                    Ok(u) => if spec_tracker_list_url_scheme_ok(u.1) {
                        r matches Ok(x) && x@ == u.0
                    } else {
                        r matches Err(DownloadError::InvalidResponse(x)) && x@
                            == "unsupported tracker list url scheme: "@ + u.1
                    },
                }
            }
        }),
{
    let t = trim_string(tracker_list_url);
    if t.as_str().is_empty() {
        return Ok(default_tracker_list_url());
    }
    match parse_url(t.as_str()) {
        Err(message) => Err(DownloadError::InvalidResponse(message)),
        Ok(parts) => {
            proof {
                reveal_strlit("http");
                reveal_strlit("https");
            }
            let s = parts.scheme.as_str();
            if str_equals(s, "http") || str_equals(s, "https") {
                Ok(parts.serialization)
            } else {
                Err(DownloadError::InvalidResponse(concat("unsupported tracker list url scheme: ", s)))
            }
        },
    }
}


// ── Torrent settings ─────────────────────────────────────────────────

/// Upper bound on the upload limit: 10 TiB.
pub const MAX_UPLOAD_LIMIT_BYTES: u64 = 10995116277760;

/// Lowest port allowed in a listen port range.
pub const MIN_PORT: u16 = 1025;

pub open spec fn spec_bt_port_range_error(range: Option<BtPortRange>) -> Option<Seq<char>> {
    match range {
        None => None,
        Some(r) => if r.start > r.end {
            Some(
                "listen_port_range: start ("@ + spec_decimal(r.start as nat) + ") must be <= end ("@
                    + spec_decimal(r.end as nat) + ")"@,
            )
        } else if r.start < MIN_PORT || r.end < MIN_PORT {
            Some(
                "listen_port_range: ports must be >= 1025 (got "@ + spec_decimal(r.start as nat) + "-"@
                    + spec_decimal(r.end as nat) + ")"@,
            )
        } else {
            None
        },
    }
}

/// Message of the first error of the torrent settings, if any: tracker
/// list, tracker list source, then listen port range.
pub open spec fn spec_bt_error(b: BtSettings) -> Option<Seq<char>> {
    if spec_first_tracker_error(spec_tracker_entries(b.tracker_list@)) is Some {
        spec_first_tracker_error(spec_tracker_entries(b.tracker_list@))
    } else if spec_tracker_list_url_error(b.tracker_list_url@) is Some {
        spec_tracker_list_url_error(b.tracker_list_url@)
    } else {
        spec_bt_port_range_error(b.listen_port_range)
    }
}

pub open spec fn spec_tracker_list_url_error(raw: Seq<char>) -> Option<Seq<char>> {
    let t = spec_trim(raw);
    if t.len() == 0 {
        None
    } else {
        match spec_url_parse(t) {
            Err(m) => Some(m),
            Ok(u) => if spec_tracker_list_url_scheme_ok(u.1) {
                None
            } else {
                Some("unsupported tracker list url scheme: "@ + u.1)
            },
        }
    }
}

pub open spec fn spec_tracker_list_url_value(raw: Seq<char>) -> Seq<char> {
    let t = spec_trim(raw);
    if t.len() == 0 {
        spec_default_tracker_list_url()
    } else {
        spec_url_parse(t)->Ok_0.0
    }
}

/// `out` is the normalized form of the valid torrent settings `b`.
pub open spec fn spec_bt_normalized(b: BtSettings, out: BtSettings) -> bool {
    &&& spec_finalized_list(out.tracker_list@, spec_parsed_trackers(spec_tracker_entries(b.tracker_list@)))
    &&& out.tracker_list_url@ == spec_tracker_list_url_value(b.tracker_list_url@)
    &&& out.upload_limit_bytes == (if b.upload_limit_bytes < MAX_UPLOAD_LIMIT_BYTES { b.upload_limit_bytes } else { MAX_UPLOAD_LIMIT_BYTES })
    &&& out.listen_port_range == b.listen_port_range
    &&& out.listen_port == (match b.listen_port {
        Some(p) => if 1024 <= p { Some(p) } else { None },
        None => None,
    })
    &&& out.dht_enabled == b.dht_enabled
    &&& out.pause_upload_when_limit_reached == b.pause_upload_when_limit_reached
    &&& out.upnp_enabled == b.upnp_enabled
    &&& out.enable_natpmp == b.enable_natpmp
    &&& out.enable_ipv6 == b.enable_ipv6
    &&& out.enable_pex == b.enable_pex
    &&& out.enable_lsd == b.enable_lsd
    &&& out.enable_utp == b.enable_utp
    &&& out.enable_fast_extension == b.enable_fast_extension
    &&& out.enable_holepunch == b.enable_holepunch
    &&& out.enable_web_seed == b.enable_web_seed
    &&& out.enable_super_seeding == b.enable_super_seeding
    &&& out.global_download_rate_limit == b.global_download_rate_limit
    &&& out.global_upload_rate_limit == b.global_upload_rate_limit
    &&& out.preallocate_mode@ == b.preallocate_mode@
    &&& out.encryption_mode@ == b.encryption_mode@
    &&& out.max_downloads == b.max_downloads
    &&& out.max_seeds == b.max_seeds
    &&& out.max_torrents == b.max_torrents
    &&& out.active_limit == b.active_limit
}

fn port_range_error(range: Option<BtPortRange>) -> (r: Option<String>)
    ensures
        opt_string_view(r) == spec_bt_port_range_error(range),
{
    match range {
        None => None,
        Some(r) => {
            if r.start > r.end {
                let m = concat("listen_port_range: start (", decimal_string(r.start as u64).as_str());
                let m = concat(m.as_str(), ") must be <= end (");
                let m = concat(m.as_str(), decimal_string(r.end as u64).as_str());
                let m = concat(m.as_str(), ")");
                Some(m)
            } else if r.start < MIN_PORT || r.end < MIN_PORT {
                let m = concat("listen_port_range: ports must be >= 1025 (got ", decimal_string(r.start as u64).as_str());
                let m = concat(m.as_str(), "-");
                let m = concat(m.as_str(), decimal_string(r.end as u64).as_str());
                let m = concat(m.as_str(), ")");
                Some(m)
            } else {
                None
            }
        },
    }
}

pub open spec fn opt_string_view(s: Option<String>) -> Option<Seq<char>> {
    match s {
        Some(v) => Some(v@),
        None => None,
    }
}

/// Validates the tracker list, tracker list source and listen port range;
/// caps the upload limit at 10 TiB and drops listen ports below 1024.
pub fn normalize_bt_settings(settings: BtSettings) -> (r: Result<BtSettings, DownloadError>)
    ensures
        match spec_bt_error(settings) {
            Some(m) => r matches Err(DownloadError::InvalidResponse(x)) && x@ == m,
            None => r matches Ok(out) && spec_bt_normalized(settings, out),
        },
{
    let tracker_list = match normalize_tracker_list(settings.tracker_list.as_str()) {
        Ok(t) => t,
        Err(e) => return Err(e),
    };
    let tracker_list_url = match normalize_tracker_list_url(settings.tracker_list_url.as_str()) {
        Ok(t) => t,
        Err(e) => return Err(e),
    };
    match port_range_error(settings.listen_port_range) {
        Some(m) => return Err(DownloadError::InvalidResponse(m)),
        None => {},
    }
    Ok(BtSettings {
        dht_enabled: settings.dht_enabled,
        tracker_list,
        tracker_list_url,
        pause_upload_when_limit_reached: settings.pause_upload_when_limit_reached,
        upload_limit_bytes: if settings.upload_limit_bytes < MAX_UPLOAD_LIMIT_BYTES {
            settings.upload_limit_bytes
        } else {
            MAX_UPLOAD_LIMIT_BYTES
        },
        upnp_enabled: settings.upnp_enabled,
        listen_port_range: settings.listen_port_range,
        listen_port: match settings.listen_port {
            Some(p) => if 1024 <= p { Some(p) } else { None },
            None => None,
        },
        enable_natpmp: settings.enable_natpmp,
        enable_ipv6: settings.enable_ipv6,
        enable_pex: settings.enable_pex,
        enable_lsd: settings.enable_lsd,
        enable_utp: settings.enable_utp,
        enable_fast_extension: settings.enable_fast_extension,
        enable_holepunch: settings.enable_holepunch,
        enable_web_seed: settings.enable_web_seed,
        enable_super_seeding: settings.enable_super_seeding,
        global_download_rate_limit: settings.global_download_rate_limit,
        global_upload_rate_limit: settings.global_upload_rate_limit,
        preallocate_mode: settings.preallocate_mode,
        encryption_mode: settings.encryption_mode,
        max_downloads: settings.max_downloads,
        max_seeds: settings.max_seeds,
        max_torrents: settings.max_torrents,
        active_limit: settings.active_limit,
    })
}

// ── Mirrors ──────────────────────────────────────────────────────────

/// A mirror entry is kept when its trimmed URL is an `http://` or
/// `https://` URL that parses.
pub open spec fn spec_mirror_ok(url: Seq<char>) -> bool {
    let u = spec_trim(url);
    &&& u.len() > 0
    &&& (spec_starts_with(u, "http://"@) || spec_starts_with(u, "https://"@))
    &&& spec_url_parse(u) is Ok
}

/// The kept mirrors, trimmed, with `order` renumbered by position.
pub open spec fn spec_mirrors_normalized(input: Seq<MirrorEntry>, out: Seq<MirrorEntry>) -> bool {
    let kept = input.filter(|m: MirrorEntry| spec_mirror_ok(m.url@));
    &&& out.len() == kept.len()
    &&& forall|i: int| #![trigger out[i]] 0 <= i < out.len() ==> {
        &&& out[i].url@ == spec_trim(kept[i].url@)
        &&& out[i].enabled == kept[i].enabled
        &&& out[i].order == i as u32
    }
}

fn mirror_url_ok(url: &str) -> (r: bool)
    ensures
        r == spec_mirror_ok(url@),
{
    let t = trim_string(url);
    let tc = chars_of(t.as_str());
    if tc.len() == 0 {
        return false;
    }
    proof {
        reveal_strlit("http://");
        reveal_strlit("https://");
    }
    let http = chars_of("http://");
    let https = chars_of("https://");
    if !starts_with_chars(&tc, &http) && !starts_with_chars(&tc, &https) {
        return false;
    }
    match parse_url(t.as_str()) {
        Ok(_) => true,
        Err(_) => false,
    }
}

/// Trims mirror URLs, drops unusable ones and renumbers `order` 0, 1, 2, ...
pub fn normalize_github_mirror_settings(settings: GitHubMirrorSettings) -> (r: GitHubMirrorSettings)
    ensures
        r.enabled == settings.enabled,
        spec_mirrors_normalized(settings.mirrors@, r.mirrors@),
{
    let ghost input = settings.mirrors@;
    let mut mirrors: Vec<MirrorEntry> = Vec::new();
    let mut i: usize = 0;
    while i < settings.mirrors.len()
        invariant
            i <= input.len(),
            input == settings.mirrors@,
            spec_mirrors_normalized(input.take(i as int), mirrors@),
        decreases input.len() - i,
    {
        let entry = &settings.mirrors[i];
        let ghost kept = input.take(i as int).filter(|m: MirrorEntry| spec_mirror_ok(m.url@));
        proof {
            assert(input.take(i + 1) == input.take(i as int).push(input[i as int]));
            crate::text::lemma_filter_push(input.take(i as int), |m: MirrorEntry| spec_mirror_ok(m.url@), input[i as int]);
        }
        if mirror_url_ok(entry.url.as_str()) {
            let order = mirrors.len() as u32;
            mirrors.push(MirrorEntry { url: trim_string(entry.url.as_str()), enabled: entry.enabled, order });
        }
        i = i + 1;
    }
    assert(input.take(input.len() as int) == input);
    GitHubMirrorSettings { enabled: settings.enabled, mirrors }
}


// ── Whole document ───────────────────────────────────────────────────

/// Message of the error a proxy setting is rejected with, if any.
pub open spec fn spec_proxy_error(p: ProxySettings) -> Option<Seq<char>> {
    let u = spec_trim(p.manual_url@);
    if p.mode != ProxyMode::Manual {
        None
    } else if u.len() == 0 {
        Some("manual proxy url is required"@)
    } else if spec_url_parse(u) is Err {
        Some(spec_url_error(u))
    } else {
        None
    }
}

/// First error of a settings document: the proxy (reported as an invalid
/// proxy), then the torrent settings, then the default user agent (both
/// reported as invalid responses). `true` marks a proxy error.
pub open spec fn spec_settings_error(s: AppSettings) -> Option<(bool, Seq<char>)> {
    if spec_proxy_error(s.proxy) is Some {
        Some((true, spec_proxy_error(s.proxy)->0))
    } else if spec_bt_error(s.bt) is Some {
        Some((false, spec_bt_error(s.bt)->0))
    } else if spec_normalize_user_agent(s.download.default_user_agent@) is Err {
        Some((false, "invalid user-agent value"@))
    } else {
        None
    }
}

pub open spec fn spec_min_usize(a: int, b: int) -> int {
    if a < b { a } else { b }
}

/// `out` is the normalized form of the valid settings document `s`.
pub open spec fn spec_settings_normalized(s: AppSettings, out: AppSettings) -> bool {
    let max_threads = spec_clamp(s.scheduler.automatic.max_parallel_threads as int, 1, 64);
    let per_task = spec_min_usize(spec_clamp(s.scheduler.automatic.max_threads_per_task as int, 1, 32), max_threads);
    &&& out.appearance == s.appearance
    &&& out.proxy.mode == s.proxy.mode
    &&& (if s.proxy.mode == ProxyMode::Manual {
        out.proxy.manual_url@ == spec_trim(s.proxy.manual_url@)
    } else {
        out.proxy.manual_url@.len() == 0
    })
    &&& out.scheduler.mode == s.scheduler.mode
    &&& out.scheduler.traditional.max_parallel_tasks == spec_clamp(s.scheduler.traditional.max_parallel_tasks as int, 1, 32)
    &&& out.scheduler.automatic.max_parallel_threads == max_threads
    &&& out.scheduler.automatic.max_threads_per_task == per_task
    &&& out.scheduler.automatic.min_threads_per_task
        == spec_normalize_min_threads(s.scheduler.automatic.min_threads_per_task, per_task as usize)
    &&& out.scheduler.automatic.adaptive_profile == s.scheduler.automatic.adaptive_profile
    &&& out.scheduler.chunk_size_strategy == s.scheduler.chunk_size_strategy
    &&& out.scheduler.tail_sprint_enabled == s.scheduler.tail_sprint_enabled
    &&& out.scheduler.connection_warmup_enabled == s.scheduler.connection_warmup_enabled
    &&& out.download.default_download_dir@.len() == 0 || out.download.default_download_dir@ == spec_trim(s.download.default_download_dir@)
    &&& spec_trim(s.download.default_download_dir@).len() == 0 ==> out.download.default_download_dir@.len() == 0
    &&& out.download.default_max_retries == spec_clamp(s.download.default_max_retries as int, 0, 20)
    &&& out.download.default_checksum == s.download.default_checksum
    &&& out.download.default_user_agent@ == spec_normalize_user_agent(s.download.default_user_agent@)->Ok_0
    &&& spec_bt_normalized(s.bt, out.bt)
    &&& out.logging.enabled == s.logging.enabled
    &&& out.logging.level == s.logging.level
    &&& out.logging.file_path@ == spec_trim(s.logging.file_path@)
    &&& opt_u32_int(out.logging.retention_count) == spec_clamp_opt(s.logging.retention_count, 0, 1000)
    &&& opt_u32_int(out.logging.retention_days) == spec_clamp_opt(s.logging.retention_days, 0, 3650)
    &&& out.aria2_rpc == s.aria2_rpc
    &&& out.cdn_acceleration == s.cdn_acceleration
    &&& out.github_mirror.enabled == s.github_mirror.enabled
    &&& spec_mirrors_normalized(s.github_mirror.mirrors@, out.github_mirror.mirrors@)
    &&& out.global_speed_limit_bps == s.global_speed_limit_bps
    &&& out.speed_limit_schedule@ == s.speed_limit_schedule@
    &&& out.notifications == s.notifications
    &&& out.io_baseline.buffer_limit_mb == spec_clamp(s.io_baseline.buffer_limit_mb as int, 64, 32768)
    &&& out.io_baseline.game_mode_buffer_mb == spec_clamp(s.io_baseline.game_mode_buffer_mb as int, 16, 4096)
    &&& out.io_baseline.game_mode == s.io_baseline.game_mode
    &&& out.io_baseline.max_parallel_hdd == spec_clamp(s.io_baseline.max_parallel_hdd as int, 1, 16)
    &&& out.io_baseline.game_mode_max_parallel == spec_clamp(s.io_baseline.game_mode_max_parallel as int, 1, 4)
    &&& out.io_baseline.disk_type_overrides == s.io_baseline.disk_type_overrides
    &&& out.io_baseline.hdd_buffer_enabled == s.io_baseline.hdd_buffer_enabled
    &&& out.io_baseline.ssd_write_combine_mb == s.io_baseline.ssd_write_combine_mb
    &&& out.autostart == s.autostart
    &&& out.setup_completed == s.setup_completed
    &&& opt_u32_int(out.last_setup_step) == spec_clamp_opt(s.last_setup_step, 0, 9)
    &&& out.download_limits == s.download_limits
    &&& out.max_in_memory_downloads == spec_clamp_max_in_memory(s.max_in_memory_downloads)
}

/// Validates the whole settings document and clamps every numeric field to
/// its allowed range.
pub fn normalize_settings(settings: AppSettings) -> (r: Result<AppSettings, DownloadError>)
    ensures
        match spec_settings_error(settings) {
            Some((true, m)) => r matches Err(DownloadError::InvalidProxy(x)) && x@ == m,
            Some((false, m)) => r matches Err(DownloadError::InvalidResponse(x)) && x@ == m,
            None => r matches Ok(out) && spec_settings_normalized(settings, out),
        },
{
    let ghost input = settings;
    let proxy = match normalize_proxy_settings(settings.proxy) {
        Ok(p) => p,
        Err(e) => return Err(e),
    };
    let max_parallel_tasks = clamp_usize(settings.scheduler.traditional.max_parallel_tasks, 1, 32);
    let max_parallel_threads = clamp_usize(settings.scheduler.automatic.max_parallel_threads, 1, 64);
    let per_task = clamp_usize(settings.scheduler.automatic.max_threads_per_task, 1, 32);
    let max_threads_per_task = if per_task < max_parallel_threads { per_task } else { max_parallel_threads };
    let bt = match normalize_bt_settings(settings.bt) {
        Ok(b) => b,
        Err(e) => return Err(e),
    };
    let logging = normalize_logging_settings(settings.logging);
    let default_user_agent = match normalize_user_agent(settings.download.default_user_agent.as_str()) {
        Ok(u) => u,
        Err(e) => return Err(e),
    };
    let default_download_dir = normalize_download_dir(settings.download.default_download_dir.as_str());
    let github_mirror = normalize_github_mirror_settings(settings.github_mirror);
    let io_baseline = IoBaselineSettings {
        buffer_limit_mb: clamp_u64(settings.io_baseline.buffer_limit_mb, 64, 32768),
        game_mode_buffer_mb: clamp_u64(settings.io_baseline.game_mode_buffer_mb, 16, 4096),
        game_mode: settings.io_baseline.game_mode,
        max_parallel_hdd: clamp_usize(settings.io_baseline.max_parallel_hdd, 1, 16),
        game_mode_max_parallel: clamp_usize(settings.io_baseline.game_mode_max_parallel, 1, 4),
        disk_type_overrides: settings.io_baseline.disk_type_overrides,
        hdd_buffer_enabled: settings.io_baseline.hdd_buffer_enabled,
        ssd_write_combine_mb: settings.io_baseline.ssd_write_combine_mb,
    };
    Ok(AppSettings {
        appearance: settings.appearance,
        proxy,
        scheduler: SchedulerSettings {
            mode: settings.scheduler.mode,
            traditional: TraditionalSchedulerSettings { max_parallel_tasks },
            automatic: AutomaticSchedulerSettings {
                max_parallel_threads,
                max_threads_per_task,
                min_threads_per_task: normalize_min_threads(
                    settings.scheduler.automatic.min_threads_per_task,
                    max_threads_per_task,
                ),
                adaptive_profile: settings.scheduler.automatic.adaptive_profile,
            },
            chunk_size_strategy: settings.scheduler.chunk_size_strategy,
            tail_sprint_enabled: settings.scheduler.tail_sprint_enabled,
            connection_warmup_enabled: settings.scheduler.connection_warmup_enabled,
        },
        download: DownloadDefaultsSettings {
            default_download_dir,
            default_max_retries: clamp_u32(settings.download.default_max_retries, 0, 20),
            default_checksum: settings.download.default_checksum,
            default_user_agent,
        },
        bt,
        logging,
        aria2_rpc: settings.aria2_rpc,
        cdn_acceleration: settings.cdn_acceleration,
        github_mirror,
        global_speed_limit_bps: settings.global_speed_limit_bps,
        speed_limit_schedule: settings.speed_limit_schedule,
        notifications: settings.notifications,
        io_baseline,
        autostart: settings.autostart,
        setup_completed: settings.setup_completed,
        last_setup_step: match settings.last_setup_step {
            Some(step) => Some(clamp_u32(step, 0, 9)),
            None => None,
        },
        download_limits: settings.download_limits,
        max_in_memory_downloads: clamp_max_in_memory(settings.max_in_memory_downloads),
    })
}


// ── Settings documents ───────────────────────────────────────────────

/// Top-level keys of a full settings document; a file with none of them
/// holds the proxy settings alone (the oldest format).
pub open spec fn spec_settings_section(k: Seq<char>) -> bool {
    k == "appearance"@ || k == "proxy"@ || k == "scheduler"@ || k == "download"@ || k == "bt"@ || k
        == "logging"@ || k == "cdnAcceleration"@ || k == "notifications"@ || k == "ioBaseline"@
}

fn is_settings_section(k: &str) -> (r: bool)
    ensures
        r == spec_settings_section(k@),
{
    str_equals(k, "appearance") || str_equals(k, "proxy") || str_equals(k, "scheduler") || str_equals(k, "download")
        || str_equals(k, "bt") || str_equals(k, "logging") || str_equals(k, "cdnAcceleration") || str_equals(
        k,
        "notifications",
    ) || str_equals(k, "ioBaseline")
}

/// Whether a settings file whose top-level object has these keys is a
/// full settings document (else it is read as proxy settings alone).
pub fn is_full_settings_document(top_level_keys: &Vec<String>) -> (r: bool)
    ensures
        r == exists|i: int| 0 <= i < top_level_keys@.len() && spec_settings_section(#[trigger] top_level_keys@[i]@),
{
    let mut i: usize = 0;
    while i < top_level_keys.len()
        invariant
            i <= top_level_keys@.len(),
            forall|j: int| 0 <= j < i ==> !spec_settings_section(#[trigger] top_level_keys@[j]@),
        decreases top_level_keys@.len() - i,
    {
        if is_settings_section(top_level_keys[i].as_str()) {
            return true;
        }
        i = i + 1;
    }
    false
}


// ── Normalizing twice ────────────────────────────────────────────────

/// What a second normalization keeps of normalized settings `r` in `r2`:
/// every field, except the tracker list and tracker list URL (URL
/// serializations, re-parsed), the default download directory (which the
/// platform may keep or drop, see `normalize_download_dir`) and the
/// default user agent (see `lemma_normalize_settings_stable`).
pub open spec fn spec_settings_stable(r: AppSettings, r2: AppSettings) -> bool {
    &&& r2.appearance == r.appearance
    &&& r2.proxy.mode == r.proxy.mode
    &&& r2.proxy.manual_url@ == r.proxy.manual_url@
    &&& r2.scheduler.mode == r.scheduler.mode
    &&& r2.scheduler.traditional.max_parallel_tasks == r.scheduler.traditional.max_parallel_tasks
    &&& r2.scheduler.automatic.max_parallel_threads == r.scheduler.automatic.max_parallel_threads
    &&& r2.scheduler.automatic.max_threads_per_task == r.scheduler.automatic.max_threads_per_task
    &&& r2.scheduler.automatic.min_threads_per_task == r.scheduler.automatic.min_threads_per_task
    &&& r2.scheduler.automatic.adaptive_profile == r.scheduler.automatic.adaptive_profile
    &&& r2.scheduler.chunk_size_strategy == r.scheduler.chunk_size_strategy
    &&& r2.scheduler.tail_sprint_enabled == r.scheduler.tail_sprint_enabled
    &&& r2.scheduler.connection_warmup_enabled == r.scheduler.connection_warmup_enabled
    &&& (r2.download.default_download_dir@.len() == 0 || r2.download.default_download_dir@
        == r.download.default_download_dir@)
    &&& r2.download.default_max_retries == r.download.default_max_retries
    &&& r2.download.default_checksum == r.download.default_checksum
    &&& r2.bt.upload_limit_bytes == r.bt.upload_limit_bytes
    &&& r2.bt.listen_port_range == r.bt.listen_port_range
    &&& r2.bt.listen_port == r.bt.listen_port
    &&& r2.bt.dht_enabled == r.bt.dht_enabled
    &&& r2.bt.pause_upload_when_limit_reached == r.bt.pause_upload_when_limit_reached
    &&& r2.bt.upnp_enabled == r.bt.upnp_enabled
    &&& r2.bt.enable_natpmp == r.bt.enable_natpmp
    &&& r2.bt.enable_ipv6 == r.bt.enable_ipv6
    &&& r2.bt.enable_pex == r.bt.enable_pex
    &&& r2.bt.enable_lsd == r.bt.enable_lsd
    &&& r2.bt.enable_utp == r.bt.enable_utp
    &&& r2.bt.enable_fast_extension == r.bt.enable_fast_extension
    &&& r2.bt.enable_holepunch == r.bt.enable_holepunch
    &&& r2.bt.enable_web_seed == r.bt.enable_web_seed
    &&& r2.bt.enable_super_seeding == r.bt.enable_super_seeding
    &&& r2.bt.global_download_rate_limit == r.bt.global_download_rate_limit
    &&& r2.bt.global_upload_rate_limit == r.bt.global_upload_rate_limit
    &&& r2.bt.preallocate_mode@ == r.bt.preallocate_mode@
    &&& r2.bt.encryption_mode@ == r.bt.encryption_mode@
    &&& r2.bt.max_downloads == r.bt.max_downloads
    &&& r2.bt.max_seeds == r.bt.max_seeds
    &&& r2.bt.max_torrents == r.bt.max_torrents
    &&& r2.bt.active_limit == r.bt.active_limit
    &&& r2.logging.enabled == r.logging.enabled
    &&& r2.logging.level == r.logging.level
    &&& r2.logging.file_path@ == r.logging.file_path@
    &&& r2.logging.retention_count == r.logging.retention_count
    &&& r2.logging.retention_days == r.logging.retention_days
    &&& r2.aria2_rpc == r.aria2_rpc
    &&& r2.cdn_acceleration == r.cdn_acceleration
    &&& r2.github_mirror.enabled == r.github_mirror.enabled
    &&& r2.github_mirror.mirrors@.len() == r.github_mirror.mirrors@.len()
    &&& forall|i: int| #![trigger r2.github_mirror.mirrors@[i]] 0 <= i < r.github_mirror.mirrors@.len() ==> {
        &&& r2.github_mirror.mirrors@[i].url@ == r.github_mirror.mirrors@[i].url@
        &&& r2.github_mirror.mirrors@[i].enabled == r.github_mirror.mirrors@[i].enabled
        &&& r2.github_mirror.mirrors@[i].order == r.github_mirror.mirrors@[i].order
    }
    &&& r2.global_speed_limit_bps == r.global_speed_limit_bps
    &&& r2.speed_limit_schedule@ == r.speed_limit_schedule@
    &&& r2.notifications == r.notifications
    &&& r2.io_baseline == r.io_baseline
    &&& r2.autostart == r.autostart
    &&& r2.setup_completed == r.setup_completed
    &&& r2.last_setup_step == r.last_setup_step
    &&& r2.download_limits == r.download_limits
    &&& r2.max_in_memory_downloads == r.max_in_memory_downloads
}

proof fn lemma_filter_keeps_all<A>(s: Seq<A>, p: spec_fn(A) -> bool)
    requires
        forall|i: int| 0 <= i < s.len() ==> p(#[trigger] s[i]),
    ensures
        s.filter(p) == s,
    decreases s.len(),
{
    reveal(Seq::filter);
    if s.len() > 0 {
        lemma_filter_keeps_all(s.drop_last(), p);
        assert(s.drop_last().push(s.last()) == s);
    }
}

/// Normalizing settings that were already normalized keeps them: the
/// second pass fails neither on the proxy, nor on the listen port range,
/// nor on a user agent of the user's own, and it keeps every field that
/// `spec_settings_stable` lists; a user agent of the user's own (not the
/// default one) is kept too. The tracker list and its URL are URL
/// serializations, and whether re-parsing one gives it back is the URL
/// parser's (`spec_url_parse`) business, which is not stated here.
pub proof fn lemma_normalize_settings_stable(s: AppSettings, r: AppSettings, r2: AppSettings)
    requires
        spec_settings_error(s) is None,
        spec_settings_normalized(s, r),
        spec_settings_normalized(r, r2),
    ensures
        spec_proxy_error(r.proxy) is None,
        spec_bt_port_range_error(r.bt.listen_port_range) is None,
        spec_trim(s.download.default_user_agent@).len() > 0 ==> {
            &&& spec_normalize_user_agent(r.download.default_user_agent@) == Ok::<Seq<char>, ()>(r.download.default_user_agent@)
            &&& r2.download.default_user_agent@ == r.download.default_user_agent@
        },
        spec_settings_stable(r, r2),
{
    lemma_trim_idempotent(s.proxy.manual_url@);
    lemma_trim_idempotent(s.download.default_user_agent@);
    lemma_trim_idempotent(s.logging.file_path@);
    lemma_trim_idempotent(r.download.default_download_dir@);
    lemma_trim_idempotent(s.download.default_download_dir@);
    // The kept mirrors are all kept again, trimmed already and in order.
    let kept = s.github_mirror.mirrors@.filter(|m: MirrorEntry| spec_mirror_ok(m.url@));
    let rm = r.github_mirror.mirrors@;
    assert forall|i: int| 0 <= i < rm.len() implies (|m: MirrorEntry| spec_mirror_ok(m.url@))(#[trigger] rm[i]) by {
        assert(rm[i].url@ == spec_trim(kept[i].url@));
        lemma_trim_idempotent(kept[i].url@);
        s.github_mirror.mirrors@.lemma_filter_pred(|m: MirrorEntry| spec_mirror_ok(m.url@), i);
    }
    lemma_filter_keeps_all(rm, |m: MirrorEntry| spec_mirror_ok(m.url@));
    if r.proxy.mode != ProxyMode::Manual {
        assert(r2.proxy.manual_url@ =~= r.proxy.manual_url@);
    }
    assert forall|i: int| 0 <= i < rm.len() implies rm[i].url@ == spec_trim(rm[i].url@) by {
        lemma_trim_idempotent(kept[i].url@);
    }
}
} // verus!
