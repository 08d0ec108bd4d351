use limedl_core::error::{download_error_from_chain, extract_kind_from_anyhow, io_error_with_path, DownloadError};

#[test]
fn io_error_with_path_permission_denied() {
    let download_err = io_error_with_path(true, "permission denied".to_string(), "/test/path".to_string());
    assert_eq!(download_err.kind(), "permission_denied");
}

#[test]
fn io_error_with_path_other_io_error() {
    let download_err = io_error_with_path(false, "No such file or directory (os error 2)".to_string(), "/test/path".to_string());
    assert_eq!(download_err.kind(), "io");
}

#[test]
fn extract_kind_from_anyhow_direct() {
    let chain = vec![Some(DownloadError::NotFound)];
    let kind = extract_kind_from_anyhow(&chain);
    assert_eq!(kind, "not_found");
}

#[test]
fn from_anyhow_direct_download_error() {
    let chain = vec![Some(DownloadError::NotFound)];
    let result = download_error_from_chain(Some(DownloadError::NotFound), &chain, "download not found".to_string());
    assert_eq!(result.kind(), "not_found");
}

#[test]
fn from_anyhow_internal_with_kind_prefix() {
    // The "[kind]" prefix is only text: no engine error sits in the chain.
    let chain = vec![None];
    let result = download_error_from_chain(None, &chain, "[permission_denied] failed to write".to_string());
    assert_eq!(result.kind(), "internal");
}

#[test]
fn from_anyhow_bare_internal_error() {
    let chain = vec![None];
    let result = download_error_from_chain(None, &chain, "something went wrong".to_string());
    assert_eq!(result.kind(), "internal");
}

#[test]
fn download_error_kind_exhaustive() {
    assert_eq!(DownloadError::UnsupportedScheme.kind(), "unsupported_scheme");
    assert_eq!(DownloadError::NotFound.kind(), "not_found");
    assert_eq!(DownloadError::AlreadyRunning.kind(), "already_running");
    assert_eq!(DownloadError::NotResumable.kind(), "not_resumable");
    assert_eq!(DownloadError::Canceled.kind(), "canceled");
    assert_eq!(DownloadError::MissingFileName.kind(), "missing_file_name");
    assert_eq!(DownloadError::Interrupted.kind(), "interrupted");
    assert_eq!(DownloadError::TooManyConcurrentDownloads.kind(), "too_many_concurrent_downloads");

    assert_eq!(DownloadError::InvalidResponse("test".into()).kind(), "invalid_response");
    assert_eq!(DownloadError::InvalidRequest("test".into()).kind(), "invalid_request");
    assert_eq!(DownloadError::InvalidProxy("test".into()).kind(), "invalid_proxy");
    assert_eq!(DownloadError::Torrent("test".into()).kind(), "torrent");
    assert_eq!(DownloadError::TorrentNetwork("test".into()).kind(), "torrent_network");
    assert_eq!(DownloadError::TorrentInvalidData("test".into()).kind(), "torrent_invalid_data");
    assert_eq!(DownloadError::TorrentIo("test".into()).kind(), "torrent_io");
    assert_eq!(DownloadError::DatabaseInit("test".into()).kind(), "database_init");
    assert_eq!(DownloadError::Internal("test".into()).kind(), "internal");

    assert_eq!(DownloadError::Io("test".into()).kind(), "io");
    assert_eq!(DownloadError::Serde("expected value at line 1 column 1".into()).kind(), "serde");
    assert_eq!(
        DownloadError::Http { message: "builder error".into(), status: None }.kind(),
        "http"
    );

    assert_eq!(
        DownloadError::PermissionDenied { path: "/data/file".into(), source: "access denied".into() }.kind(),
        "permission_denied",
    );
    assert_eq!(
        DownloadError::InsufficientDiskSpace { available: 0, required: 100 }.kind(),
        "insufficient_disk_space",
    );
}

// ── own scenarios ──────────────────────────────────────

#[test]
fn from_chain_prefixes_kind_of_wrapped_engine_error() {
    let chain = vec![None, Some(DownloadError::NotFound)];
    let result = download_error_from_chain(None, &chain, "loading task: download not found".to_string());
    assert_eq!(
        result,
        DownloadError::Internal("[not_found] loading task: download not found".to_string())
    );
}

#[test]
fn from_chain_does_not_prefix_internal_kind() {
    let chain = vec![None, Some(DownloadError::Internal("x".to_string()))];
    let result = download_error_from_chain(None, &chain, "ctx: internal error: x".to_string());
    assert_eq!(result, DownloadError::Internal("ctx: internal error: x".to_string()));
}

#[test]
fn extract_kind_without_engine_error_is_internal() {
    assert_eq!(extract_kind_from_anyhow(&vec![None, None]), "internal");
    assert_eq!(extract_kind_from_anyhow(&vec![]), "internal");
}

#[test]
fn extract_kind_takes_first_engine_error() {
    let chain = vec![None, Some(DownloadError::Canceled), Some(DownloadError::NotFound)];
    assert_eq!(extract_kind_from_anyhow(&chain), "canceled");
}

#[test]
fn io_error_with_path_keeps_path_and_message() {
    let e = io_error_with_path(true, "denied".to_string(), "/x".to_string());
    assert_eq!(e, DownloadError::PermissionDenied { path: "/x".to_string(), source: "denied".to_string() });
    let e = io_error_with_path(false, "boom".to_string(), "/x".to_string());
    assert_eq!(e, DownloadError::Io("boom".to_string()));
}

#[test]
fn messages_match_display_text() {
    assert_eq!(
        DownloadError::InsufficientDiskSpace { available: 10, required: 110 }.message(),
        "insufficient disk space: 10 bytes available, 110 bytes required (incl. 10% buffer)"
    );
    assert_eq!(DownloadError::NotFound.message(), "download not found");
    assert_eq!(DownloadError::Io("x".into()).message(), "io error: x");
}
