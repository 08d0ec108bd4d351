//! URL parsing through the `url` parser that `reqwest` re-exports.
use vstd::prelude::*;

verus! {

/// The pieces of a parsed URL that the engine reads, as plain text.
pub struct UrlParts {
    /// The normalized serialization (what `Url::to_string` prints).
    pub serialization: String,
    /// The lower-case scheme, without `:`.
    pub scheme: String,
    /// The host, for URLs that have one.
    pub host: Option<String>,
    /// The last `/`-separated path segment, for URLs with a hierarchical path.
    pub last_segment: Option<String>,
}

/// Result of parsing a string as an absolute URL: either the
/// (serialization, scheme, host, last path segment) of the URL, or the
/// message of the parse error.
pub uninterp spec fn spec_url_parse(input: Seq<char>) -> Result<
    (Seq<char>, Seq<char>, Option<Seq<char>>, Option<Seq<char>>),
    Seq<char>,
>;

pub open spec fn opt_view(s: Option<String>) -> Option<Seq<char>> {
    match s {
        Some(v) => Some(v@),
        None => None,
    }
}

/// Parses `input` with `reqwest::Url::parse` (the `url` crate's parser).
/// The contract names the outcome `spec_url_parse(input)`: on success the
/// serialization (`to_string`), `scheme()`, `host_str()` and the last item
/// of `path_segments()`; on failure the error's message. Nothing more about
/// URL syntax is claimed.
#[verifier::external_body]
pub(crate) fn parse_url(input: &str) -> (r: Result<UrlParts, String>)
    ensures
        match (r, spec_url_parse(input@)) {
            (Ok(p), Ok(t)) => p.serialization@ == t.0 && p.scheme@ == t.1 && opt_view(p.host) == t.2
                && opt_view(p.last_segment) == t.3,
            (Err(m), Err(e)) => m@ == e,
            _ => false,
        },
{
    match reqwest::Url::parse(input) {
        Ok(u) => Ok(UrlParts {
            serialization: u.to_string(),
            scheme: u.scheme().to_string(),
            host: u.host_str().map(|h| h.to_string()),
            last_segment: u.path_segments().and_then(|mut s| s.next_back()).map(|s| s.to_string()),
        }),
        Err(e) => Err(e.to_string()),
    }
}

} // verus!
