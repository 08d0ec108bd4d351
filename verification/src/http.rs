//! HTTP response handling on plain values: status classes, size and range
//! headers, file names from `Content-Disposition` or the URL, anti-abuse
//! pages, extra request headers and referer guesses for hot-link checks.
use vstd::prelude::*;

use crate::error::DownloadError;
use crate::manifest::{Manifest, RemoteMetadata};
use crate::parse::{
    after_last, find, parse_u64, spec_after_last, spec_find, spec_parse_u64, spec_split_char,
    spec_split_once, spec_trim_quotes, split_char, split_once, trim_quotes,
};
use crate::settings::{header_value_ok, spec_header_value_ok};
use crate::text::{
    chars_of, concat, contains_chars, decimal_string, eq_ignore_ascii_case, lower_chars, owned,
    slice_chars, spec_contains, spec_decimal, spec_eq_ignore_ascii_case, spec_lower, spec_starts_with,
    spec_trim, starts_with_chars, string_of, trim_chars,
};
use crate::urls::{opt_view, parse_url, spec_url_parse};

verus! {

// ── Status classes ───────────────────────────────────────────────────

/// What to do with a download response, by status.
#[derive(Clone, Copy, Debug, PartialEq, Eq, Structural)]
pub enum ResponseDisposition {
    /// 200 or 206: read the body.
    Use,
    /// 408, 429 or 5xx: try again.
    Retryable(u16),
    /// Anything else.
    Invalid(u16),
}

pub open spec fn spec_classify(status: u16) -> ResponseDisposition {
    if status == 200 || status == 206 {
        ResponseDisposition::Use
    } else if status == 408 || status == 429 || (500 <= status && status <= 599) {
        ResponseDisposition::Retryable(status)
    } else {
        ResponseDisposition::Invalid(status)
    }
}

/// Classifies a response status (`spec_classify`).
pub fn classify_download_response(status: u16) -> (r: ResponseDisposition)
    ensures
        r == spec_classify(status),
{
    if status == 200 || status == 206 {
        ResponseDisposition::Use
    } else if status == 408 || status == 429 || (500 <= status && status <= 599) {
        ResponseDisposition::Retryable(status)
    } else {
        ResponseDisposition::Invalid(status)
    }
}

/// Reason phrase that the `http` crate's `StatusCode::canonical_reason`
/// gives for a status code in `100..=999`.
pub uninterp spec fn spec_canonical_reason(code: u16) -> Option<Seq<char>>;

/// Calls `reqwest::StatusCode::from_u16` and `canonical_reason` (from the
/// `http` crate); the contract names the phrase `spec_canonical_reason`.
#[verifier::external_body]
fn canonical_reason(code: u16) -> (r: Option<String>)
    requires
        100 <= code <= 999,
    ensures
        opt_view(r) == spec_canonical_reason(code),
{
    match reqwest::StatusCode::from_u16(code) {
        Ok(s) => s.canonical_reason().map(|p| p.to_string()),
        Err(_) => None,
    }
}

/// How a status code prints: the number and its reason phrase.
pub open spec fn spec_status_text(code: u16) -> Seq<char> {
    spec_decimal(code as nat) + " "@ + match spec_canonical_reason(code) {
        Some(p) => p,
        None => "<unknown status code>"@,
    }
}

fn status_text(code: u16) -> (r: String)
    requires
        100 <= code <= 999,
    ensures
        r@ == spec_status_text(code),
{
    let t = concat(decimal_string(code as u64).as_str(), " ");
    match canonical_reason(code) {
        Some(p) => concat(t.as_str(), p.as_str()),
        None => concat(t.as_str(), "<unknown status code>"),
    }
}

/// A probe is accepted with status 200 or 206.
pub fn validate_probe_response(status: u16) -> (r: Result<(), DownloadError>)
    requires
        100 <= status <= 999,
    ensures
        status == 200 || status == 206 ==> r is Ok,
        !(status == 200 || status == 206) ==> (r matches Err(DownloadError::InvalidResponse(m))
            && m@ == "probe returned http status "@ + spec_status_text(status)),
{
    if status == 200 || status == 206 {
        return Ok(());
    }
    Err(DownloadError::InvalidResponse(concat("probe returned http status ", status_text(status).as_str())))
}

// ── Anti-abuse pages ─────────────────────────────────────────────────

/// Most bytes of a 403 body that are sniffed for anti-abuse markers.
pub const ANTI_ABUSE_SNIFF_LIMIT: usize = 16384;

/// Lower-case markers of WAF and mirror anti-abuse denial pages.
pub open spec fn spec_anti_abuse_markers() -> Seq<Seq<char>> {
    seq![
        "uncommon characteristics"@,
        "非常用软件的特征"@,
        "you have been denied access"@,
        "无法访问此页面"@,
        "cf-error-details"@,
        "cf-chl-"@,
        "attention required! | cloudflare"@,
        "sorry, you have been blocked"@,
        "访问被拒绝"@,
        "请求被拦截"@,
    ]
}

fn anti_abuse_markers() -> (r: Vec<&'static str>)
    ensures
        r@.map_values(|m: &str| m@) == spec_anti_abuse_markers(),
{
    let r = vec![
        "uncommon characteristics",
        "非常用软件的特征",
        "you have been denied access",
        "无法访问此页面",
        "cf-error-details",
        "cf-chl-",
        "attention required! | cloudflare",
        "sorry, you have been blocked",
        "访问被拒绝",
        "请求被拦截",
    ];
    assert(r@.map_values(|m: &str| m@) =~= spec_anti_abuse_markers());
    r
}

/// Text that `String::from_utf8_lossy` makes of a byte string.
pub uninterp spec fn spec_utf8_lossy(bytes: Seq<u8>) -> Seq<char>;

/// Calls `String::from_utf8_lossy`; the contract names its text
/// `spec_utf8_lossy`. ASCII bytes are valid UTF-8, each the character of
/// the same code, so an all-ASCII input comes back unchanged; how invalid
/// sequences are replaced is not restated.
#[verifier::external_body]
fn utf8_lossy(bytes: &[u8]) -> (r: String)
    ensures
        r@ == spec_utf8_lossy(bytes@),
        (forall|i: int| 0 <= i < bytes@.len() ==> #[trigger] bytes@[i] < 128) ==> r@ =~= bytes@.map_values(
            |b: u8| b as char,
        ),
{
    String::from_utf8_lossy(bytes).into_owned()
}

/// A body is an anti-abuse denial page when, decoded and lower-cased
/// (ASCII), it contains one of the markers.
pub open spec fn spec_looks_like_anti_abuse_page(body: Seq<u8>) -> bool {
    body.len() > 0 && exists|i: int| 0 <= i < spec_anti_abuse_markers().len()
        && spec_contains(spec_lower(spec_utf8_lossy(body)), #[trigger] spec_anti_abuse_markers()[i])
}

/// Whether a 403 body looks like a WAF / anti-abuse denial page.
pub fn looks_like_anti_abuse_page(body: &[u8]) -> (r: bool)
    ensures
        r == spec_looks_like_anti_abuse_page(body@),
{
    if body.len() == 0 {
        return false;
    }
    let text = utf8_lossy(body);
    let lowered = lower_chars(&chars_of(text.as_str()));
    let markers = anti_abuse_markers();
    let ghost ms = spec_anti_abuse_markers();
    let mut i: usize = 0;
    while i < markers.len()
        invariant
            i <= markers@.len(),
            body@.len() > 0,
            markers@.map_values(|m: &str| m@) == ms,
            ms == spec_anti_abuse_markers(),
            lowered@ == spec_lower(spec_utf8_lossy(body@)),
            forall|k: int| 0 <= k < i ==> !spec_contains(lowered@, #[trigger] ms[k]),
        decreases markers@.len() - i,
    {
        let marker = chars_of(markers[i]);
        assert(marker@ == ms[i as int]);
        if contains_chars(&lowered, &marker) {
            assert(spec_contains(spec_lower(spec_utf8_lossy(body@)), spec_anti_abuse_markers()[i as int]));
            return true;
        }
        i = i + 1;
    }
    false
}

/// The error for a 403 whose body is an anti-abuse page.
pub fn anti_abuse_forbidden_error() -> (e: DownloadError)
    ensures
        e matches DownloadError::InvalidResponse(m) && m@ == "http status 403 Forbidden (server anti-abuse check rejected this client; update the default User-Agent in Settings or try another mirror)"@,
{
    DownloadError::InvalidResponse(owned(
        "http status 403 Forbidden (server anti-abuse check rejected this client; update the default User-Agent in Settings or try another mirror)",
    ))
}

/// A transport error or a server answer that carried status 429.
pub fn is_too_many_requests_error(error: &DownloadError) -> (r: bool)
    ensures
        r == match *error {
            DownloadError::InvalidResponse(m) => spec_contains(m@, "429"@),
            DownloadError::Http { status, .. } => status == Some(429u16),
            _ => false,
        },
{
    match error {
        DownloadError::InvalidResponse(m) => {
            let needle = chars_of("429");
            contains_chars(&chars_of(m.as_str()), &needle)
        },
        DownloadError::Http { status, .. } => match status {
            Some(s) => *s == 429,
            None => false,
        },
        _ => false,
    }
}

// ── Size and range headers ───────────────────────────────────────────

/// File size from a probe: for 206 the total after the last `/` of
/// `Content-Range`, else `Content-Length`; numbers as `u64::from_str` reads them.
pub open spec fn spec_total_bytes(status: u16, content_range: Option<Seq<char>>, content_length: Option<Seq<char>>) -> Option<u64> {
    if status == 206 && content_range is Some {
        spec_parse_u64(spec_after_last(content_range->0, '/'))
    } else {
        match content_length {
            Some(v) => spec_parse_u64(v),
            None => None,
        }
    }
}

/// File size announced by a response's headers (`spec_total_bytes`).
pub fn extract_total_bytes(status: u16, content_range: &Option<String>, content_length: &Option<String>) -> (r: Option<u64>)
    ensures
        r == spec_total_bytes(status, opt_view(*content_range), opt_view(*content_length)),
{
    if status == 206 {
        match content_range {
            Some(cr) => {
                let tail = after_last(&chars_of(cr.as_str()), '/');
                return parse_u64(&tail);
            },
            None => {},
        }
    }
    match content_length {
        Some(v) => parse_u64(&chars_of(v.as_str())),
        None => None,
    }
}

/// The server takes range requests: it answered 206, sent `Content-Range`,
/// or advertises `Accept-Ranges: bytes` (any case).
pub fn supports_ranges(status: u16, has_content_range: bool, accept_ranges: &Option<String>) -> (r: bool)
    ensures
        r == (status == 206 || has_content_range || match *accept_ranges {
            Some(v) => spec_eq_ignore_ascii_case(v@, "bytes"@),
            None => false,
        }),
{
    if status == 206 || has_content_range {
        return true;
    }
    match accept_ranges {
        Some(v) => eq_ignore_ascii_case(&chars_of(v.as_str()), &chars_of("bytes")),
        None => false,
    }
}

/// Outcome of checking a ranged response's `Content-Range` against the
/// requested `[start, end]`: `Ok` or the error message.
pub open spec fn spec_segment_check(content_range: Option<Seq<char>>, start: u64, end: u64) -> Result<(), Seq<char>> {
    match content_range {
        None => Err("segment response missing content-range"@),
        Some(cr) => if !spec_starts_with(cr, "bytes "@) {
            Err("invalid content-range format"@)
        } else {
            match spec_split_once(cr.skip(6), '/') {
                None => Err("invalid content-range payload"@),
                Some((range, _total)) => match spec_split_once(range, '-') {
                    None => Err("invalid content-range bounds"@),
                    Some((s, e)) => match spec_parse_u64(s) {
                        None => Err("invalid content-range start"@),
                        Some(ps) => match spec_parse_u64(e) {
                            None => Err("invalid content-range end"@),
                            Some(pe) => if ps != start || pe > end {
                                Err("unexpected content-range "@ + spec_decimal(ps as nat) + "-"@ + spec_decimal(
                                    pe as nat,
                                ) + ", expected "@ + spec_decimal(start as nat) + "-"@ + spec_decimal(end as nat))
                            } else {
                                Ok(())
                            },
                        },
                    },
                },
            }
        },
    }
}

fn invalid(msg: &str) -> (e: DownloadError)
    ensures
        e matches DownloadError::InvalidResponse(m) && m@ == msg@,
{
    DownloadError::InvalidResponse(owned(msg))
}

/// Checks that a ranged response covers the requested range (`spec_segment_check`).
pub fn validate_segment_response(content_range: &Option<String>, expected_start: u64, expected_end: u64) -> (r: Result<(), DownloadError>)
    ensures
        match spec_segment_check(opt_view(*content_range), expected_start, expected_end) {
            Ok(_) => r is Ok,
            Err(m) => r matches Err(DownloadError::InvalidResponse(x)) && x@ == m,
        },
{
    let cr = match content_range {
        Some(v) => chars_of(v.as_str()),
        None => return Err(invalid("segment response missing content-range")),
    };
    let prefix = chars_of("bytes ");
    if !starts_with_chars(&cr, &prefix) {
        return Err(invalid("invalid content-range format"));
    }
    proof {
        reveal_strlit("bytes ");
    }
    let rest = slice_chars(&cr, 6, cr.len());
    assert(rest@ == cr@.skip(6));
    let (range, _total) = match split_once(&rest, '/') {
        Some(p) => p,
        None => return Err(invalid("invalid content-range payload")),
    };
    let (s, e) = match split_once(&range, '-') {
        Some(p) => p,
        None => return Err(invalid("invalid content-range bounds")),
    };
    let ps = match parse_u64(&s) {
        Some(v) => v,
        None => return Err(invalid("invalid content-range start")),
    };
    let pe = match parse_u64(&e) {
        Some(v) => v,
        None => return Err(invalid("invalid content-range end")),
    };
    if ps != expected_start || pe > expected_end {
        let t = concat("unexpected content-range ", decimal_string(ps).as_str());
        let t = concat(t.as_str(), "-");
        let t = concat(t.as_str(), decimal_string(pe).as_str());
        let t = concat(t.as_str(), ", expected ");
        let t = concat(t.as_str(), decimal_string(expected_start).as_str());
        let t = concat(t.as_str(), "-");
        let t = concat(t.as_str(), decimal_string(expected_end).as_str());
        return Err(DownloadError::InvalidResponse(t));
    }
    Ok(())
}

/// Validator sent in `If-Range` on resumed requests: the ETag, else the
/// Last-Modified date, when it is a valid header value.
pub open spec fn spec_if_range(etag: Option<String>, last_modified: Option<String>) -> Option<Seq<char>> {
    let v = match etag {
        Some(e) => Some(e@),
        None => opt_view(last_modified),
    };
    match v {
        Some(x) => if spec_header_value_ok(x) { Some(x) } else { None },
        None => None,
    }
}

/// The `If-Range` value of a download (`spec_if_range`).
pub fn if_range_value(manifest: &Manifest) -> (r: Option<String>)
    ensures
        opt_view(r) == spec_if_range(manifest.etag, manifest.last_modified),
{
    let v = match &manifest.etag {
        Some(e) => e,
        None => match &manifest.last_modified {
            Some(l) => l,
            None => return None,
        },
    };
    if header_value_ok(v.as_str()) {
        Some(v.clone())
    } else {
        None
    }
}

// ── Extra request headers ────────────────────────────────────────────

/// A character of an HTTP token: a letter, a digit or one of
/// `` ! # $ % & ' * + - . ^ _ ` | ~ ``.
pub open spec fn spec_token_char(c: char) -> bool {
    ||| ('a' <= c && c <= 'z')
    ||| ('A' <= c && c <= 'Z')
    ||| ('0' <= c && c <= '9')
    ||| c == '!' || c == '#' || c == '$' || c == '%' || c == '&' || c == '\''
    ||| c == '*' || c == '+' || c == '-' || c == '.' || c == '^' || c == '_'
    ||| c == '`' || c == '|' || c == '~'
}

/// A valid header name: 1 to 65535 characters, each a token character.
pub open spec fn spec_header_name_ok(name: Seq<char>) -> bool {
    &&& 1 <= name.len() <= 65535
    &&& forall|i: int| 0 <= i < name.len() ==> spec_token_char(#[trigger] name[i])
}

/// Asks `reqwest::header::HeaderName::from_bytes` (the `http` crate)
/// whether `name` is a valid header name. Its source accepts exactly the
/// byte strings of 1 to `MAX_HEADER_NAME_LEN` (65535) bytes whose every
/// byte maps to a non-zero entry of its `HEADER_CHARS` table: the token
/// characters, all ASCII, so that bytes and characters count alike; that
/// is `spec_header_name_ok`.
#[verifier::external_body]
fn header_name_ok(name: &str) -> (r: bool)
    ensures
        r == spec_header_name_ok(name@),
{
    reqwest::header::HeaderName::from_bytes(name.as_bytes()).is_ok()
}

/// The `(name, value)` pair that a `"Name: Value"` line contributes, if any:
/// both parts trimmed, non-empty and valid for a header.
pub open spec fn spec_extra_header(line: Seq<char>) -> Option<(Seq<char>, Seq<char>)> {
    match spec_split_once(line, ':') {
        None => None,
        Some((n, v)) => {
            let name = spec_trim(n);
            let value = spec_trim(v);
            if name.len() == 0 || value.len() == 0 || !spec_header_name_ok(name) || !spec_header_value_ok(value) {
                None
            } else {
                Some((name, value))
            }
        },
    }
}

/// The extra headers of all lines, in order, skipping malformed ones.
pub open spec fn spec_extra_headers(lines: Seq<Seq<char>>) -> Seq<(Seq<char>, Seq<char>)>
    decreases lines.len(),
{
    if lines.len() == 0 {
        Seq::empty()
    } else {
        let prev = spec_extra_headers(lines.drop_last());
        match spec_extra_header(lines.last()) {
            Some(p) => prev.push(p),
            None => prev,
        }
    }
}

pub open spec fn spec_pair_view(p: (String, String)) -> (Seq<char>, Seq<char>) {
    (p.0@, p.1@)
}

/// Parses `"Name: Value"` lines into the headers to add to a request
/// (`spec_extra_headers`).
pub fn parse_extra_headers(headers: &Vec<String>) -> (r: Vec<(String, String)>)
    ensures
        r@.map_values(|p: (String, String)| spec_pair_view(p)) == spec_extra_headers(headers@.map_values(|h: String| h@)),
{
    let ghost lines = headers@.map_values(|h: String| h@);
    let mut r: Vec<(String, String)> = Vec::new();
    let mut i: usize = 0;
    while i < headers.len()
        invariant
            i <= headers@.len(),
            lines == headers@.map_values(|h: String| h@),
            r@.map_values(|p: (String, String)| spec_pair_view(p)) == spec_extra_headers(lines.take(i as int)),
        decreases headers@.len() - i,
    {
        proof {
            assert(lines.take(i + 1).drop_last() == lines.take(i as int));
            assert(lines.take(i + 1).last() == headers@[i as int]@);
        }
        let ghost before = r@.map_values(|p: (String, String)| spec_pair_view(p));
        let line = chars_of(headers[i].as_str());
        match split_once(&line, ':') {
            Some((n, v)) => {
                let name = trim_chars(string_of(&n).as_str());
                let value = trim_chars(string_of(&v).as_str());
                if name.len() > 0 && value.len() > 0 {
                    let ns = string_of(&name);
                    let vs = string_of(&value);
                    if header_name_ok(ns.as_str()) && header_value_ok(vs.as_str()) {
                        r.push((ns, vs));
                        assert(r@.map_values(|p: (String, String)| spec_pair_view(p)) == before.push((name@, value@)));
                    }
                }
            },
            None => {},
        }
        i = i + 1;
    }
    assert(lines.take(headers@.len() as int) == lines);
    r
}

/// Header line `h` has the name `name` (ASCII case ignored).
pub open spec fn spec_header_named(h: Seq<char>, name: Seq<char>) -> bool {
    match spec_split_once(h, ':') {
        Some((n, _)) => spec_eq_ignore_ascii_case(spec_trim(n), name),
        None => false,
    }
}

/// Whether one of the `"Name: Value"` lines sets `header_name` (any case).
pub fn has_header(headers: &Vec<String>, header_name: &str) -> (r: bool)
    ensures
        r == exists|i: int| 0 <= i < headers@.len() && spec_header_named(#[trigger] headers@[i]@, header_name@),
{
    let wanted = chars_of(header_name);
    let mut i: usize = 0;
    while i < headers.len()
        invariant
            i <= headers@.len(),
            wanted@ == header_name@,
            forall|k: int| 0 <= k < i ==> !spec_header_named(#[trigger] headers@[k]@, header_name@),
        decreases headers@.len() - i,
    {
        let line = chars_of(headers[i].as_str());
        match split_once(&line, ':') {
            Some((n, _)) => {
                let name = trim_chars(string_of(&n).as_str());
                if eq_ignore_ascii_case(&name, &wanted) {
                    return true;
                }
            },
            None => {},
        }
        i = i + 1;
    }
    false
}

// ── File names ───────────────────────────────────────────────────────

/// Value of a hexadecimal digit byte (`0-9`, `a-f`, `A-F`).
pub open spec fn spec_hex_value(b: u8) -> Option<u8> {
    if 48 <= b && b <= 57 {
        Some((b - 48) as u8)
    } else if 97 <= b && b <= 102 {
        Some((b - 87) as u8)
    } else if 65 <= b && b <= 70 {
        Some((b - 55) as u8)
    } else {
        None
    }
}

/// Percent-decoding of bytes: each `%` followed by two hex digits becomes
/// the byte they spell; every other byte is kept.
pub open spec fn spec_percent_decode_bytes(b: Seq<u8>) -> Seq<u8>
    decreases b.len(),
{
    if b.len() == 0 {
        Seq::empty()
    } else if b[0] == 37 && b.len() >= 3 && spec_hex_value(b[1]) is Some && spec_hex_value(b[2]) is Some {
        seq![(spec_hex_value(b[1])->0 * 16 + spec_hex_value(b[2])->0) as u8] + spec_percent_decode_bytes(b.skip(3))
    } else {
        seq![b[0]] + spec_percent_decode_bytes(b.skip(1))
    }
}

/// Percent-decoding of text, as UTF-8: `None` when the decoded bytes are not UTF-8.
pub open spec fn spec_percent_decode_utf8(s: Seq<char>) -> Option<Seq<char>> {
    let b = spec_percent_decode_bytes(vstd::utf8::encode_utf8(s));
    if vstd::utf8::valid_utf8(b) {
        Some(vstd::utf8::decode_utf8(b))
    } else {
        None
    }
}

/// Calls `percent_encoding::percent_decode_str(s).decode_utf8()`. Its
/// source decodes `%` and two hex digits into a byte, keeps other bytes,
/// and fails when the result is not UTF-8: `spec_percent_decode_utf8`.
#[verifier::external_body]
fn percent_decode_utf8(s: &str) -> (r: Option<String>)
    ensures
        opt_view(r) == spec_percent_decode_utf8(s@),
{
    match percent_encoding::percent_decode_str(s).decode_utf8() {
        Ok(text) => Some(text.into_owned()),
        Err(_) => None,
    }
}

/// A character that may stand in a sanitized file name: none of
/// `/ ? < > \ : * | "` and no C0 or C1 control character.
pub open spec fn spec_file_name_char_ok(c: char) -> bool {
    &&& !(c == '/' || c == '?' || c == '<' || c == '>' || c == '\\' || c == ':' || c == '*' || c == '|' || c == '"')
    &&& !((c as u32) <= 0x1f || (0x80 <= (c as u32) && (c as u32) <= 0x9f))
}

/// `sub` is `s` with some characters removed: its characters stand in `s`
/// in the same order.
pub open spec fn spec_subsequence(sub: Seq<char>, s: Seq<char>) -> bool {
    exists|f: Seq<int>|
        #![trigger f.len()]
        f.len() == sub.len()
        && (forall|k: int| 0 <= k < f.len() ==> 0 <= #[trigger] f[k] < s.len() && sub[k] == s[f[k]])
        && (forall|k: int, l: int| 0 <= k < l < f.len() ==> #[trigger] f[k] < #[trigger] f[l])
}

/// Bytes of the UTF-8 encoding of `s`.
pub open spec fn spec_utf8_bytes(s: Seq<char>) -> nat
    decreases s.len(),
{
    if s.len() == 0 {
        0
    } else {
        let c = s.last() as u32;
        spec_utf8_bytes(s.drop_last()) + if c < 0x80 { 1nat } else if c < 0x800 { 2nat } else if c < 0x10000 { 3nat } else { 4nat }
    }
}

/// `c` is the ASCII letter `lower` in either case.
pub open spec fn spec_letter_ci(c: char, lower: char) -> bool {
    c == lower || (c as u32) + 32 == (lower as u32)
}

/// `s` begins with one of the stems of the Windows device names (`con`,
/// `prn`, `aux`, `nul`, `com`, `lpt`), in any case.
pub open spec fn spec_device_stem(s: Seq<char>) -> bool {
    s.len() >= 3 && {
        let (a, b, c) = (s[0], s[1], s[2]);
        ||| spec_letter_ci(a, 'c') && spec_letter_ci(b, 'o') && spec_letter_ci(c, 'n')
        ||| spec_letter_ci(a, 'p') && spec_letter_ci(b, 'r') && spec_letter_ci(c, 'n')
        ||| spec_letter_ci(a, 'a') && spec_letter_ci(b, 'u') && spec_letter_ci(c, 'x')
        ||| spec_letter_ci(a, 'n') && spec_letter_ci(b, 'u') && spec_letter_ci(c, 'l')
        ||| spec_letter_ci(a, 'c') && spec_letter_ci(b, 'o') && spec_letter_ci(c, 'm')
        ||| spec_letter_ci(a, 'l') && spec_letter_ci(b, 'p') && spec_letter_ci(c, 't')
    }
}

/// A file name that sanitizing leaves as it is on every platform: only
/// allowed characters, not ending in a dot or a space (so not made only
/// of dots), not beginning like a Windows device name, and at most 255
/// bytes long.
pub open spec fn spec_file_name_clean(s: Seq<char>) -> bool {
    &&& forall|i: int| 0 <= i < s.len() ==> spec_file_name_char_ok(#[trigger] s[i])
    &&& !(s.len() > 0 && (s.last() == '.' || s.last() == ' '))
    &&& !spec_device_stem(s)
    &&& spec_utf8_bytes(s) <= 255
}

/// `clean` is a possible sanitized form of `raw`: `raw` with characters
/// removed, made only of characters allowed in a file name, and `raw`
/// itself when `raw` is already clean.
pub open spec fn spec_sanitized_from(clean: Seq<char>, raw: Seq<char>) -> bool {
    &&& clean.len() <= raw.len()
    &&& forall|i: int| 0 <= i < clean.len() ==> spec_file_name_char_ok(#[trigger] clean[i])
    &&& spec_subsequence(clean, raw)
    &&& spec_file_name_clean(raw) ==> clean == raw
}

/// Calls `sanitize_filename::sanitize`. Its source removes the characters
/// `/ ? < > \ : * | "` and the C0 and C1 control characters, replaces a
/// name made only of dots by nothing and cuts the rest to 255 bytes at a
/// character boundary; on Windows builds it also removes a reserved device
/// name (`CON`, `LPT1`, ...) and trailing dots and spaces. Every step only
/// removes matched characters or cuts, so the result is the input with
/// characters removed, made of allowed characters, and a name that none of
/// the steps matches (`spec_file_name_clean`) comes back unchanged
/// (`spec_sanitized_from`). Which of the Windows steps apply depends on the
/// platform the crate was built for, so the exact result is not stated.
#[verifier::external_body]
pub(crate) fn sanitize_file_name(name: &str) -> (r: String)
    ensures
        spec_sanitized_from(r@, name@),
{
    sanitize_filename::sanitize(name)
}

/// The encoded text of an RFC 5987 `filename*=` value: the part after the
/// first `''` (up to a following `''`), or all of it when there is none.
pub open spec fn spec_ext_encoded(rest: Seq<char>) -> Seq<char> {
    match spec_find(rest, "''"@) {
        Some(p) => {
            let after = rest.skip(p + 2);
            match spec_find(after, "''"@) {
                Some(q) => after.take(q),
                None => after,
            }
        },
        None => rest,
    }
}

/// Decoded name of a `filename*=` part.
pub open spec fn spec_ext_name(part: Seq<char>) -> Option<Seq<char>> {
    spec_percent_decode_utf8(spec_ext_encoded(spec_trim_quotes(part.skip(10))))
}

/// First decodable `filename*=` part at or after position `i`.
pub open spec fn spec_cd_ext_from(parts: Seq<Seq<char>>, i: int) -> Option<Seq<char>>
    decreases parts.len() - i,
{
    if i < 0 || i >= parts.len() {
        None
    } else if spec_starts_with(parts[i], "filename*="@) && spec_ext_name(parts[i]) is Some {
        spec_ext_name(parts[i])
    } else {
        spec_cd_ext_from(parts, i + 1)
    }
}

/// First `filename=` part at or after position `i`, unquoted.
pub open spec fn spec_cd_plain_from(parts: Seq<Seq<char>>, i: int) -> Option<Seq<char>>
    decreases parts.len() - i,
{
    if i < 0 || i >= parts.len() {
        None
    } else if spec_starts_with(parts[i], "filename="@) {
        Some(spec_trim_quotes(parts[i].skip(9)))
    } else {
        spec_cd_plain_from(parts, i + 1)
    }
}

/// The `;`-separated, trimmed parts of a header value.
pub open spec fn spec_cd_parts(value: Seq<char>) -> Seq<Seq<char>> {
    spec_split_char(value, ';').map_values(|p: Seq<char>| spec_trim(p))
}

/// File name from a `Content-Disposition` value: a decodable `filename*=`
/// first, else a plain `filename=`.
pub open spec fn spec_parse_content_disposition(value: Seq<char>) -> Option<Seq<char>> {
    match spec_cd_ext_from(spec_cd_parts(value), 0) {
        Some(n) => Some(n),
        None => spec_cd_plain_from(spec_cd_parts(value), 0),
    }
}

#[verifier::rlimit(40)]
fn ext_encoded(rest: &Vec<char>) -> (r: Vec<char>)
    ensures
        r@ == spec_ext_encoded(rest@),
{
    let sep = chars_of("''");
    let n = rest.len();
    match find(rest, &sep) {
        Some(p) => {
            assert(p + 2 <= n) by {
                reveal_strlit("''");
            }
            let after = slice_chars(rest, p + 2, n);
            assert(after@ =~= rest@.skip(p + 2));
            match find(&after, &sep) {
                Some(q) => {
                    assert(q <= after@.len()) by {
                        reveal_strlit("''");
                    }
                    let r = slice_chars(&after, 0, q);
                    assert(r@ =~= after@.take(q as int));
                    r
                },
                None => after,
            }
        },
        None => {
            let r = slice_chars(rest, 0, n);
            assert(r@ =~= rest@);
            r
        },
    }
}

/// File name carried by a `Content-Disposition` value (`spec_parse_content_disposition`).
pub fn parse_content_disposition(value: &str) -> (r: Option<String>)
    ensures
        opt_view(r) == spec_parse_content_disposition(value@),
{
    let pieces = split_char(&chars_of(value), ';');
    let ghost parts = spec_cd_parts(value@);
    let mut trimmed: Vec<Vec<char>> = Vec::new();
    let mut i: usize = 0;
    while i < pieces.len()
        invariant
            i <= pieces@.len(),
            pieces@.map_values(|e: Vec<char>| e@) == spec_split_char(value@, ';'),
            parts == spec_cd_parts(value@),
            trimmed@.len() == i,
            forall|k: int| 0 <= k < i ==> (#[trigger] trimmed@[k])@ == parts[k],
        decreases pieces@.len() - i,
    {
        let t = trim_chars(string_of(&pieces[i]).as_str());
        trimmed.push(t);
        i = i + 1;
    }
    let ext_prefix = chars_of("filename*=");
    let plain_prefix = chars_of("filename=");
    proof {
        reveal_strlit("filename*=");
        reveal_strlit("filename=");
    }
    let mut i: usize = 0;
    while i < trimmed.len()
        invariant
            i <= trimmed@.len(),
            trimmed@.len() == parts.len(),
            forall|k: int| 0 <= k < parts.len() ==> (#[trigger] trimmed@[k])@ == parts[k],
            parts == spec_cd_parts(value@),
            ext_prefix@ == "filename*="@,
            ext_prefix@.len() == 10,
            spec_cd_ext_from(parts, 0) == spec_cd_ext_from(parts, i as int),
        decreases trimmed@.len() - i,
    {
        let part = &trimmed[i];
        if starts_with_chars(part, &ext_prefix) {
            let rest = trim_quotes(&slice_chars(part, 10, part.len()));
            assert(part@.subrange(10, part@.len() as int) == part@.skip(10));
            let encoded = ext_encoded(&rest);
            match percent_decode_utf8(string_of(&encoded).as_str()) {
                Some(decoded) => {
                    assert(spec_ext_name(parts[i as int]) == Some(decoded@));
                    assert(spec_cd_ext_from(parts, i as int) == Some(decoded@));
                    return Some(decoded);
                },
                None => {
                    assert(spec_ext_name(parts[i as int]) is None);
                },
            }
        }
        i = i + 1;
    }
    let mut i: usize = 0;
    while i < trimmed.len()
        invariant
            i <= trimmed@.len(),
            trimmed@.len() == parts.len(),
            forall|k: int| 0 <= k < parts.len() ==> (#[trigger] trimmed@[k])@ == parts[k],
            parts == spec_cd_parts(value@),
            plain_prefix@ == "filename="@,
            plain_prefix@.len() == 9,
            spec_cd_ext_from(parts, 0) is None,
            spec_cd_plain_from(parts, 0) == spec_cd_plain_from(parts, i as int),
        decreases trimmed@.len() - i,
    {
        let part = &trimmed[i];
        if starts_with_chars(part, &plain_prefix) {
            let rest = trim_quotes(&slice_chars(part, 9, part.len()));
            assert(part@.subrange(9, part@.len() as int) == part@.skip(9));
            assert(spec_cd_plain_from(parts, i as int) == Some(rest@));
            return Some(string_of(&rest));
        }
        i = i + 1;
    }
    None
}

/// The name a file takes from the sanitized candidates: the sanitized
/// `Content-Disposition` name if it is non-empty, else the sanitized last
/// URL path segment if non-empty, else `download`.
pub open spec fn spec_pick_file_name(header_clean: Option<Seq<char>>, url_clean: Option<Seq<char>>) -> Seq<char> {
    match header_clean {
        Some(h) if h.len() > 0 => h,
        _ => match url_clean {
            Some(u) if u.len() > 0 => u,
            _ => "download"@,
        },
    }
}

/// Picks the file name from the sanitized candidates (`spec_pick_file_name`).
pub fn pick_file_name(header_clean: Option<String>, url_clean: Option<String>) -> (r: String)
    ensures
        r@ == spec_pick_file_name(opt_view(header_clean), opt_view(url_clean)),
{
    proof {
        reveal_strlit("download");
    }
    match header_clean {
        Some(h) => {
            if !h.as_str().is_empty() {
                return h;
            }
        },
        None => {},
    }
    match url_clean {
        Some(u) => {
            if !u.as_str().is_empty() {
                return u;
            }
        },
        None => {},
    }
    owned("download")
}

/// `clean` is a sanitized form of `source` where there is a source, and
/// absent where there is none.
pub open spec fn spec_clean_of(source: Option<Seq<char>>, clean: Option<Seq<char>>) -> bool {
    match (source, clean) {
        (None, None) => true,
        (Some(s), Some(c)) => spec_sanitized_from(c, s),
        _ => false,
    }
}

/// The file name a `Content-Disposition` value carries, if any.
pub open spec fn spec_disposition_name(content_disposition: Option<Seq<char>>) -> Option<Seq<char>> {
    match content_disposition {
        Some(v) => spec_parse_content_disposition(v),
        None => None,
    }
}

/// The last path segment of a URL, if it parses and has one.
pub open spec fn spec_url_segment(url: Seq<char>) -> Option<Seq<char>> {
    match spec_url_parse(url) {
        Ok(u) => u.3,
        Err(_) => None,
    }
}

/// `name` is what `infer_file_name` gives for some outcome of sanitizing
/// the `Content-Disposition` name and the last URL path segment.
pub open spec fn spec_inferred_file_name(final_url: Seq<char>, content_disposition: Option<Seq<char>>, name: Seq<char>) -> bool {
    exists|hc: Option<Seq<char>>, uc: Option<Seq<char>>|
        #[trigger] spec_clean_of(spec_disposition_name(content_disposition), hc)
        && #[trigger] spec_clean_of(spec_url_segment(final_url), uc)
        && name == spec_pick_file_name(hc, uc)
}

/// Sanitizes an optional candidate name.
fn sanitize_candidate(source: Option<String>) -> (r: Option<String>)
    ensures
        spec_clean_of(opt_view(source), opt_view(r)),
{
    match source {
        Some(s) => Some(sanitize_file_name(s.as_str())),
        None => None,
    }
}

/// File name of a download from its final URL and `Content-Disposition`
/// value: the two candidates are sanitized and `pick_file_name` chooses
/// (`spec_inferred_file_name`); there always is one.
pub fn infer_file_name(final_url: &str, content_disposition: &Option<String>) -> (r: Option<String>)
    ensures
        r matches Some(n) && spec_inferred_file_name(final_url@, opt_view(*content_disposition), n@),
        match spec_disposition_name(opt_view(*content_disposition)) {
            Some(d) => d.len() > 0 && spec_file_name_clean(d) ==> (r matches Some(n) && n@ == d),
            None => match spec_url_segment(final_url@) {
                Some(g) => g.len() > 0 && spec_file_name_clean(g) ==> (r matches Some(n) && n@ == g),
                None => true,
            },
        },
{
    let from_header: Option<String> = match content_disposition {
        Some(v) => parse_content_disposition(v.as_str()),
        None => None,
    };
    let segment: Option<String> = match parse_url(final_url) {
        Ok(parts) => parts.last_segment,
        Err(_) => None,
    };
    let hc = sanitize_candidate(from_header);
    let uc = sanitize_candidate(segment);
    let ghost hcv = opt_view(hc);
    let ghost ucv = opt_view(uc);
    let name = pick_file_name(hc, uc);
    assert(spec_clean_of(spec_disposition_name(opt_view(*content_disposition)), hcv)
        && spec_clean_of(spec_url_segment(final_url@), ucv)
        && name@ == spec_pick_file_name(hcv, ucv));
    Some(name)
}

// ── Referer guesses ──────────────────────────────────────────────────

/// `v` with `x` appended unless already present.
pub open spec fn spec_push_unique(v: Seq<Seq<char>>, x: Seq<char>) -> Seq<Seq<char>> {
    if v.contains(x) { v } else { v.push(x) }
}

/// The labels of `parts` joined with `.`.
pub open spec fn spec_join_dots(parts: Seq<Seq<char>>) -> Seq<char>
    decreases parts.len(),
{
    if parts.len() == 0 {
        Seq::empty()
    } else if parts.len() == 1 {
        parts[0]
    } else {
        spec_join_dots(parts.drop_last()) + "."@ + parts.last()
    }
}

/// Second-level registry labels (`example.com.cn`-style domains).
pub open spec fn spec_is_registry_label(l: Seq<char>) -> bool {
    l == "com"@ || l == "co"@ || l == "org"@ || l == "net"@ || l == "edu"@ || l == "gov"@
}

/// The registrable base domain of a lower-case host of three or more labels.
pub open spec fn spec_base_domain(labels: Seq<Seq<char>>) -> Seq<char> {
    let n = labels.len();
    if n >= 4 && spec_is_registry_label(labels[n - 2]) {
        spec_join_dots(labels.skip(n - 3))
    } else {
        spec_join_dots(labels.skip(n - 2))
    }
}

/// Referers to try when a server refuses a download with 403: known
/// vendor sites, the URL's own origin, then `www.` and the bare base domain.
pub open spec fn spec_candidate_referers(url: Seq<char>) -> Seq<Seq<char>> {
    match spec_url_parse(url) {
        Err(_) => Seq::empty(),
        Ok(u) => match u.2 {
            None => Seq::empty(),
            Some(host) => {
                let lower = spec_lower(host);
                let scheme = u.1;
                let vendor: Seq<Seq<char>> = if spec_contains(lower, "nvidia.com"@) {
                    seq!["https://www.nvidia.com/"@, "https://www.nvidia.cn/"@]
                } else if spec_contains(lower, "nvidia.cn"@) {
                    seq!["https://www.nvidia.cn/"@, "https://www.nvidia.com/"@]
                } else {
                    Seq::empty()
                };
                let with_origin = spec_push_unique(vendor, scheme + "://"@ + host + "/"@);
                let labels = spec_split_char(lower, '.');
                if labels.len() >= 3 {
                    let base = spec_base_domain(labels);
                    spec_push_unique(
                        spec_push_unique(with_origin, scheme + "://www."@ + base + "/"@),
                        scheme + "://"@ + base + "/"@,
                    )
                } else {
                    with_origin
                }
            },
        },
    }
}

fn push_unique(v: &mut Vec<String>, x: String)
    ensures
        final(v)@.map_values(|s: String| s@) == spec_push_unique(old(v)@.map_values(|s: String| s@), x@),
{
    let ghost before = v@.map_values(|s: String| s@);
    let mut i: usize = 0;
    while i < v.len()
        invariant
            i <= v@.len(),
            before == v@.map_values(|s: String| s@),
            forall|k: int| 0 <= k < i ==> v@[k]@ != x@,
        decreases v@.len() - i,
    {
        if v[i] == x {
            assert(before[i as int] == x@);
            return;
        }
        i = i + 1;
    }
    assert(!before.contains(x@)) by {
        if before.contains(x@) {
            let k = choose|k: int| 0 <= k < before.len() && before[k] == x@;
            assert(v@[k]@ == x@);
        }
    }
    v.push(x);
    assert(v@.map_values(|s: String| s@) =~= before.push(x@));
}

fn join_dots(parts: &Vec<Vec<char>>, from: usize) -> (r: String)
    requires
        from < parts@.len(),
    ensures
        r@ == spec_join_dots(parts@.map_values(|e: Vec<char>| e@).skip(from as int)),
{
    let ghost all = parts@.map_values(|e: Vec<char>| e@);
    let n = parts.len();
    let mut r = string_of(&parts[from]);
    let mut i = from + 1;
    proof {
        let t = all.skip(from as int).take(1);
        assert(t.len() == 1);
        assert(all.skip(from as int).take(1) =~= seq![all[from as int]]);
    }
    while i < parts.len()
        invariant
            from < i <= parts@.len(),
            all == parts@.map_values(|e: Vec<char>| e@),
            r@ == spec_join_dots(all.skip(from as int).take(i - from)),
        decreases parts@.len() - i,
    {
        let next = string_of(&parts[i]);
        let t = concat(r.as_str(), ".");
        r = concat(t.as_str(), next.as_str());
        proof {
            let s = all.skip(from as int).take(i + 1 - from);
            assert(s.drop_last() =~= all.skip(from as int).take(i - from));
            assert(s.last() == all[i as int]);
        }
        i = i + 1;
    }
    proof {
        assert(all.skip(from as int).take(i - from) =~= all.skip(from as int));
    }
    r
}

fn is_registry_label(l: &Vec<char>) -> (r: bool)
    ensures
        r == spec_is_registry_label(l@),
{
    let s = string_of(l);
    let s = s.as_str();
    crate::text::str_equals(s, "com") || crate::text::str_equals(s, "co") || crate::text::str_equals(s, "org")
        || crate::text::str_equals(s, "net") || crate::text::str_equals(s, "edu") || crate::text::str_equals(s, "gov")
}

/// Referer candidates for a URL (`spec_candidate_referers`).
pub fn infer_candidate_referers(url: &str) -> (r: Vec<String>)
    ensures
        r@.map_values(|s: String| s@) == spec_candidate_referers(url@),
{
    let mut candidates: Vec<String> = Vec::new();
    let parsed = match parse_url(url) {
        Ok(p) => p,
        Err(_) => {
            assert(candidates@.map_values(|s: String| s@) =~= Seq::<Seq<char>>::empty());
            return candidates;
        },
    };
    let host = match parsed.host {
        Some(h) => h,
        None => {
            assert(candidates@.map_values(|s: String| s@) =~= Seq::<Seq<char>>::empty());
            return candidates;
        },
    };
    let lower = lower_chars(&chars_of(host.as_str()));
    if contains_chars(&lower, &chars_of("nvidia.com")) {
        candidates.push(owned("https://www.nvidia.com/"));
        candidates.push(owned("https://www.nvidia.cn/"));
    } else if contains_chars(&lower, &chars_of("nvidia.cn")) {
        candidates.push(owned("https://www.nvidia.cn/"));
        candidates.push(owned("https://www.nvidia.com/"));
    }
    let ghost vendor = candidates@.map_values(|s: String| s@);
    let ghost u = spec_url_parse(url@)->Ok_0;
    assert(spec_url_parse(url@) is Ok);
    assert(u.2 == Some(host@));
    assert(lower@ == spec_lower(host@));
    assert(vendor =~= (if spec_contains(lower@, "nvidia.com"@) {
        seq!["https://www.nvidia.com/"@, "https://www.nvidia.cn/"@]
    } else if spec_contains(lower@, "nvidia.cn"@) {
        seq!["https://www.nvidia.cn/"@, "https://www.nvidia.com/"@]
    } else {
        Seq::<Seq<char>>::empty()
    }));
    let scheme = parsed.scheme;
    let t = concat(scheme.as_str(), "://");
    let t = concat(t.as_str(), host.as_str());
    let origin = concat(t.as_str(), "/");
    assert(origin@ == u.1 + "://"@ + host@ + "/"@);
    push_unique(&mut candidates, origin);
    let ghost with_origin = candidates@.map_values(|s: String| s@);
    let labels = split_char(&lower, '.');
    let ghost lv = labels@.map_values(|e: Vec<char>| e@);
    let n = labels.len();
    if n >= 3 {
        let second_level = n >= 4 && is_registry_label(&labels[n - 2]);
        let base = if second_level { join_dots(&labels, n - 3) } else { join_dots(&labels, n - 2) };
        assert(second_level == (lv.len() >= 4 && spec_is_registry_label(lv[lv.len() - 2])));
        assert(base@ == spec_base_domain(lv));
        let t = concat(scheme.as_str(), "://www.");
        let t = concat(t.as_str(), base.as_str());
        let www = concat(t.as_str(), "/");
        push_unique(&mut candidates, www);
        let t = concat(scheme.as_str(), "://");
        let t = concat(t.as_str(), base.as_str());
        let bare = concat(t.as_str(), "/");
        push_unique(&mut candidates, bare);
    }
    assert(candidates@.map_values(|s: String| s@) == spec_candidate_referers(url@));
    candidates
}


// ── Probe results ────────────────────────────────────────────────────

/// The response headers a probe reads, as text (a value that is not
/// visible ASCII reads as missing); `has_content_range` says whether the
/// header is present at all.
#[derive(Clone, Debug)]
pub struct ProbeHeaders {
    pub has_content_range: bool,
    pub content_range: Option<String>,
    pub content_length: Option<String>,
    pub accept_ranges: Option<String>,
    pub content_disposition: Option<String>,
    pub etag: Option<String>,
    pub last_modified: Option<String>,
}

/// What a probe learns about a remote file from its response: size,
/// range support, file name and validators; a status other than 200 or
/// 206 is refused as `validate_probe_response` refuses it.
pub fn probe_metadata(status: u16, final_url: String, headers: ProbeHeaders) -> (r: Result<RemoteMetadata, DownloadError>)
    requires
        100 <= status <= 999,
    ensures
        !(status == 200 || status == 206) ==> (r matches Err(DownloadError::InvalidResponse(m))
            && m@ == "probe returned http status "@ + spec_status_text(status)),
        status == 200 || status == 206 ==> (r matches Ok(md) && {
            &&& md.final_url == final_url
            &&& spec_inferred_file_name(final_url@, opt_view(headers.content_disposition), md.file_name@)
            &&& md.total_bytes == spec_total_bytes(status, opt_view(headers.content_range), opt_view(headers.content_length))
            &&& md.supports_ranges == (status == 206 || headers.has_content_range || match headers.accept_ranges {
                Some(v) => spec_eq_ignore_ascii_case(v@, "bytes"@),
                None => false,
            })
            &&& md.etag == headers.etag
            &&& md.last_modified == headers.last_modified
        }),
{
    match validate_probe_response(status) {
        Err(e) => {
            return Err(e);
        },
        Ok(()) => {},
    }
    let total_bytes = extract_total_bytes(status, &headers.content_range, &headers.content_length);
    let ranges = supports_ranges(status, headers.has_content_range, &headers.accept_ranges);
    let file_name = match infer_file_name(final_url.as_str(), &headers.content_disposition) {
        Some(n) => n,
        None => {
            return Err(DownloadError::MissingFileName);
        },
    };
    Ok(RemoteMetadata {
        final_url,
        file_name,
        total_bytes,
        etag: headers.etag,
        last_modified: headers.last_modified,
        supports_ranges: ranges,
    })
}

} // verus!
