//! Error type of the download engine and its stable machine-readable kinds.
use vstd::prelude::*;

use crate::text::{concat, decimal_string, owned, spec_decimal};

verus! {

/// Errors of the download engine. Transport, I/O and decoding errors from
/// outside libraries are carried as their message text (a transport error
/// also keeps the HTTP status it carried, if any).
#[derive(Debug, Clone, PartialEq, Eq)]
pub enum DownloadError {
    UnsupportedScheme,
    NotFound,
    AlreadyRunning,
    NotResumable,
    Canceled,
    MissingFileName,
    Interrupted,
    Http { message: String, status: Option<u16> },
    Io(String),
    PermissionDenied { path: String, source: String },
    Serde(String),
    InvalidResponse(String),
    InvalidRequest(String),
    InvalidProxy(String),
    Torrent(String),
    TorrentNetwork(String),
    TorrentInvalidData(String),
    TorrentIo(String),
    InsufficientDiskSpace { available: u64, required: u64 },
    DatabaseInit(String),
    Internal(String),
    TooManyConcurrentDownloads,
}

/// Stable snake_case name of an error's variant.
pub open spec fn spec_error_kind(e: DownloadError) -> Seq<char> {
    match e {
        DownloadError::UnsupportedScheme => "unsupported_scheme"@,
        DownloadError::NotFound => "not_found"@,
        DownloadError::AlreadyRunning => "already_running"@,
        DownloadError::NotResumable => "not_resumable"@,
        DownloadError::Canceled => "canceled"@,
        DownloadError::MissingFileName => "missing_file_name"@,
        DownloadError::Interrupted => "interrupted"@,
        DownloadError::Http { .. } => "http"@,
        DownloadError::Io(_) => "io"@,
        DownloadError::PermissionDenied { .. } => "permission_denied"@,
        DownloadError::Serde(_) => "serde"@,
        DownloadError::InvalidResponse(_) => "invalid_response"@,
        DownloadError::InvalidRequest(_) => "invalid_request"@,
        DownloadError::InvalidProxy(_) => "invalid_proxy"@,
        DownloadError::Torrent(_) => "torrent"@,
        DownloadError::TorrentNetwork(_) => "torrent_network"@,
        DownloadError::TorrentInvalidData(_) => "torrent_invalid_data"@,
        DownloadError::TorrentIo(_) => "torrent_io"@,
        DownloadError::InsufficientDiskSpace { .. } => "insufficient_disk_space"@,
        DownloadError::DatabaseInit(_) => "database_init"@,
        DownloadError::TooManyConcurrentDownloads => "too_many_concurrent_downloads"@,
        DownloadError::Internal(_) => "internal"@,
    }
}

impl DownloadError {
    /// Machine-readable kind of this error, as sent to the frontend.
    pub fn kind(&self) -> (k: &'static str)
        ensures
            k@ == spec_error_kind(*self),
    {
        proof {
            reveal_strlit("unsupported_scheme");
            reveal_strlit("not_found");
            reveal_strlit("already_running");
            reveal_strlit("not_resumable");
            reveal_strlit("canceled");
            reveal_strlit("missing_file_name");
            reveal_strlit("interrupted");
            reveal_strlit("http");
            reveal_strlit("io");
            reveal_strlit("permission_denied");
            reveal_strlit("serde");
            reveal_strlit("invalid_response");
            reveal_strlit("invalid_request");
            reveal_strlit("invalid_proxy");
            reveal_strlit("torrent");
            reveal_strlit("torrent_network");
            reveal_strlit("torrent_invalid_data");
            reveal_strlit("torrent_io");
            reveal_strlit("insufficient_disk_space");
            reveal_strlit("database_init");
            reveal_strlit("too_many_concurrent_downloads");
            reveal_strlit("internal");
        }
        match self {
            DownloadError::UnsupportedScheme => "unsupported_scheme",
            DownloadError::NotFound => "not_found",
            DownloadError::AlreadyRunning => "already_running",
            DownloadError::NotResumable => "not_resumable",
            DownloadError::Canceled => "canceled",
            DownloadError::MissingFileName => "missing_file_name",
            DownloadError::Interrupted => "interrupted",
            DownloadError::Http { .. } => "http",
            DownloadError::Io(_) => "io",
            DownloadError::PermissionDenied { .. } => "permission_denied",
            DownloadError::Serde(_) => "serde",
            DownloadError::InvalidResponse(_) => "invalid_response",
            DownloadError::InvalidRequest(_) => "invalid_request",
            DownloadError::InvalidProxy(_) => "invalid_proxy",
            DownloadError::Torrent(_) => "torrent",
            DownloadError::TorrentNetwork(_) => "torrent_network",
            DownloadError::TorrentInvalidData(_) => "torrent_invalid_data",
            DownloadError::TorrentIo(_) => "torrent_io",
            DownloadError::InsufficientDiskSpace { .. } => "insufficient_disk_space",
            DownloadError::DatabaseInit(_) => "database_init",
            DownloadError::TooManyConcurrentDownloads => "too_many_concurrent_downloads",
            DownloadError::Internal(_) => "internal",
        }
    }
}

/// Kind of the first engine error found while walking an error's cause
/// chain (outermost first); `"internal"` when the chain holds none.
pub open spec fn spec_chain_kind(chain: Seq<Option<DownloadError>>) -> Seq<char>
    decreases chain.len(),
{
    if chain.len() == 0 {
        "internal"@
    } else if chain[0] is Some {
        spec_error_kind(chain[0]->0)
    } else {
        spec_chain_kind(chain.drop_first())
    }
}

/// Walks a cause chain (outermost first; `None` for causes that are not
/// engine errors) and returns the kind of the first engine error, or
/// `"internal"` when there is none.
pub fn extract_kind_from_anyhow(chain: &Vec<Option<DownloadError>>) -> (k: &'static str)
    ensures
        k@ == spec_chain_kind(chain@),
{
    let mut i: usize = 0;
    assert(chain@.skip(0) == chain@);
    while i < chain.len()
        invariant
            i <= chain@.len(),
            spec_chain_kind(chain@) == spec_chain_kind(chain@.skip(i as int)),
        decreases chain@.len() - i,
    {
        assert(chain@.skip(i as int).drop_first() == chain@.skip(i + 1));
        match &chain[i] {
            Some(e) => {
                return e.kind();
            },
            None => {},
        }
        i = i + 1;
    }
    proof {
        reveal_strlit("internal");
    }
    "internal"
}

/// The first engine error of a cause chain (outermost first), if any.
pub open spec fn spec_first_engine_error(chain: Seq<Option<DownloadError>>) -> Option<DownloadError>
    decreases chain.len(),
{
    if chain.len() == 0 {
        None
    } else if chain[0] is Some {
        chain[0]
    } else {
        spec_first_engine_error(chain.drop_first())
    }
}

/// The engine error that a generic error stands for: the engine error it
/// is itself (`downcast`), else an internal error carrying the rendered
/// chain, prefixed with `[kind] ` when an engine error (other than an
/// internal one) sits further down the chain.
pub open spec fn spec_from_chain(
    e: DownloadError,
    downcast: Option<DownloadError>,
    chain: Seq<Option<DownloadError>>,
    rendered: Seq<char>,
) -> bool {
    match downcast {
        Some(d) => e == d,
        None => match spec_first_engine_error(chain) {
            Some(c) if !(c is Internal) => e matches DownloadError::Internal(m)
                && m@ == "["@ + spec_error_kind(c) + "] "@ + rendered,
            _ => e matches DownloadError::Internal(m) && m@ == rendered,
        },
    }
}

/// Converts a generic error, given as the engine error it is itself (if
/// any), its cause chain and its rendered text, into an engine error.
pub fn download_error_from_chain(
    downcast: Option<DownloadError>,
    chain: &Vec<Option<DownloadError>>,
    rendered: String,
) -> (e: DownloadError)
    ensures
        spec_from_chain(e, downcast, chain@, rendered@),
{
    match downcast {
        Some(e) => {
            return e;
        },
        None => {},
    }
    let mut i: usize = 0;
    assert(chain@.skip(0) == chain@);
    while i < chain.len()
        invariant
            i <= chain@.len(),
            downcast is None,
            spec_first_engine_error(chain@) == spec_first_engine_error(chain@.skip(i as int)),
        decreases chain@.len() - i,
    {
        assert(chain@.skip(i as int).drop_first() == chain@.skip(i + 1));
        assert(chain@.skip(i as int)[0] == chain@[i as int]);
        match &chain[i] {
            Some(DownloadError::Internal(_)) => {
                return DownloadError::Internal(rendered);
            },
            Some(e) => {
                let t = concat("[", e.kind());
                let t = concat(t.as_str(), "] ");
                let t = concat(t.as_str(), rendered.as_str());
                return DownloadError::Internal(t);
            },
            None => {},
        }
        i = i + 1;
    }
    DownloadError::Internal(rendered)
}

/// Whether an I/O failure is reported as a permission problem on a path
/// rather than as a plain I/O error.
pub fn io_error_with_path(permission_denied: bool, message: String, path: String) -> (e: DownloadError)
    ensures
        permission_denied ==> e == (DownloadError::PermissionDenied { path, source: message }),
        !permission_denied ==> e == DownloadError::Io(message),
{
    if permission_denied {
        DownloadError::PermissionDenied { path, source: message }
    } else {
        DownloadError::Io(message)
    }
}


/// The human-readable message of an error.
pub open spec fn spec_error_message(e: DownloadError) -> Seq<char> {
    match e {
        DownloadError::UnsupportedScheme => "unsupported url scheme"@,
        DownloadError::NotFound => "download not found"@,
        DownloadError::AlreadyRunning => "download is already running"@,
        DownloadError::NotResumable => "download is not paused or failed"@,
        DownloadError::Canceled => "download was canceled and cannot be resumed"@,
        DownloadError::MissingFileName => "server does not provide a file name and no fallback could be derived"@,
        DownloadError::Interrupted => "download interrupted"@,
        DownloadError::Http { message, .. } => "http error: "@ + message@,
        DownloadError::Io(m) => "io error: "@ + m@,
        DownloadError::PermissionDenied { path, .. } => "permission denied: "@ + path@,
        DownloadError::Serde(m) => "serde error: "@ + m@,
        DownloadError::InvalidResponse(m) => "invalid server response: "@ + m@,
        DownloadError::InvalidRequest(m) => "invalid request: "@ + m@,
        DownloadError::InvalidProxy(m) => "invalid proxy configuration: "@ + m@,
        DownloadError::Torrent(m) => "torrent error: "@ + m@,
        DownloadError::TorrentNetwork(m) => "torrent network error: "@ + m@,
        DownloadError::TorrentInvalidData(m) => "torrent data error: "@ + m@,
        DownloadError::TorrentIo(m) => "torrent io error: "@ + m@,
        DownloadError::InsufficientDiskSpace { available, required } => "insufficient disk space: "@
            + spec_decimal(available as nat) + " bytes available, "@ + spec_decimal(required as nat)
            + " bytes required (incl. 10% buffer)"@,
        DownloadError::DatabaseInit(m) => "database initialization error: "@ + m@,
        DownloadError::Internal(m) => "internal error: "@ + m@,
        DownloadError::TooManyConcurrentDownloads => "too many concurrent downloads"@,
    }
}

impl DownloadError {
    /// The human-readable message of this error (its display text).
    pub fn message(&self) -> (m: String)
        ensures
            m@ == spec_error_message(*self),
    {
        match self {
            DownloadError::UnsupportedScheme => owned("unsupported url scheme"),
            DownloadError::NotFound => owned("download not found"),
            DownloadError::AlreadyRunning => owned("download is already running"),
            DownloadError::NotResumable => owned("download is not paused or failed"),
            DownloadError::Canceled => owned("download was canceled and cannot be resumed"),
            DownloadError::MissingFileName => owned(
                "server does not provide a file name and no fallback could be derived",
            ),
            DownloadError::Interrupted => owned("download interrupted"),
            DownloadError::Http { message, .. } => concat("http error: ", message.as_str()),
            DownloadError::Io(m) => concat("io error: ", m.as_str()),
            DownloadError::PermissionDenied { path, .. } => concat("permission denied: ", path.as_str()),
            DownloadError::Serde(m) => concat("serde error: ", m.as_str()),
            DownloadError::InvalidResponse(m) => concat("invalid server response: ", m.as_str()),
            DownloadError::InvalidRequest(m) => concat("invalid request: ", m.as_str()),
            DownloadError::InvalidProxy(m) => concat("invalid proxy configuration: ", m.as_str()),
            DownloadError::Torrent(m) => concat("torrent error: ", m.as_str()),
            DownloadError::TorrentNetwork(m) => concat("torrent network error: ", m.as_str()),
            DownloadError::TorrentInvalidData(m) => concat("torrent data error: ", m.as_str()),
            DownloadError::TorrentIo(m) => concat("torrent io error: ", m.as_str()),
            DownloadError::InsufficientDiskSpace { available, required } => {
                let t = concat("insufficient disk space: ", decimal_string(*available).as_str());
                let t = concat(t.as_str(), " bytes available, ");
                let t = concat(t.as_str(), decimal_string(*required).as_str());
                concat(t.as_str(), " bytes required (incl. 10% buffer)")
            },
            DownloadError::DatabaseInit(m) => concat("database initialization error: ", m.as_str()),
            DownloadError::Internal(m) => concat("internal error: ", m.as_str()),
            DownloadError::TooManyConcurrentDownloads => owned("too many concurrent downloads"),
        }
    }
}

} // verus!
