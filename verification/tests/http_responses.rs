use limedl_core::error::DownloadError;
use limedl_core::http::{
    anti_abuse_forbidden_error, classify_download_response, extract_total_bytes, has_header, if_range_value,
    infer_candidate_referers, infer_file_name, is_too_many_requests_error, looks_like_anti_abuse_page,
    parse_content_disposition, parse_extra_headers, supports_ranges, validate_probe_response,
    validate_segment_response, ResponseDisposition,
};
use limedl_core::manifest::Manifest;
use limedl_core::types::{ChecksumMode, DownloadState, Priority, ThreadMode};

fn s(v: &str) -> Option<String> {
    Some(v.to_string())
}

fn make_minimal_manifest() -> Manifest {
    Manifest {
        id: "test-id".into(),
        url: "https://example.com/file".into(),
        final_url: "https://example.com/file".into(),
        user_agent: "test".into(),
        destination_dir: "/tmp".into(),
        file_name: "file".into(),
        file_name_locked: false,
        destination_path: "/tmp/file".into(),
        temp_path: "/tmp/file.part".into(),
        total_bytes: None,
        downloaded_bytes: 0,
        supports_ranges: false,
        chunk_size: 4194304,
        connection_count: 0,
        thread_mode: ThreadMode::Fixed,
        requested_thread_count: None,
        desired_thread_count: None,
        allocated_thread_count: None,
        adaptive_profile_snapshot: None,
        thread_note: None,
        etag: None,
        last_modified: None,
        state: DownloadState::Queued,
        cdn_accelerated: false,
        checksum_mode: ChecksumMode::Disabled,
        checksum: None,
        expected_checksum: None,
        error: None,
        priority: Priority::Normal,
        created_at_ms: 0,
        updated_at_ms: 0,
        chunks: vec![],
        mirror_url: None,
        mirror_urls: Vec::new(),
        current_mirror_index: 0,
    }
}

// ── classify_download_response ─────────────────────────

#[test]
fn classify_200_ok_is_use() {
    assert_eq!(classify_download_response(200), ResponseDisposition::Use);
}

#[test]
fn classify_206_partial_content_is_use() {
    assert_eq!(classify_download_response(206), ResponseDisposition::Use);
}

#[test]
fn classify_408_request_timeout_is_retryable() {
    assert_eq!(classify_download_response(408), ResponseDisposition::Retryable(408));
}

#[test]
fn classify_429_too_many_requests_is_retryable() {
    assert_eq!(classify_download_response(429), ResponseDisposition::Retryable(429));
}

#[test]
fn classify_500_server_error_is_retryable() {
    assert_eq!(classify_download_response(500), ResponseDisposition::Retryable(500));
}

#[test]
fn classify_503_is_retryable() {
    assert_eq!(classify_download_response(503), ResponseDisposition::Retryable(503));
}

#[test]
fn classify_301_redirect_is_invalid() {
    assert_eq!(classify_download_response(301), ResponseDisposition::Invalid(301));
}

#[test]
fn classify_404_not_found_is_invalid() {
    assert_eq!(classify_download_response(404), ResponseDisposition::Invalid(404));
}

#[test]
fn classify_403_forbidden_is_invalid() {
    assert_eq!(classify_download_response(403), ResponseDisposition::Invalid(403));
}

// ── looks_like_anti_abuse_page ──────────────────────────

#[test]
fn detects_tuna_anti_abuse_page_english() {
    let body = br#"<html><body><h1>Sorry, you've been denied access to this page</h1>
        <li>The software that you are using is with uncommon characteristics;</li>
        <li>Your subnet has sent abnormal requests to our site recently</li></body></html>"#;
    assert!(looks_like_anti_abuse_page(body));
}

#[test]
fn detects_tuna_anti_abuse_page_chinese() {
    let body = "<html><body><h1>抱歉，您目前无法访问此页面</h1>\
        <li>您访问使用的软件带有非常用软件的特征；</li></body></html>"
        .as_bytes();
    assert!(looks_like_anti_abuse_page(body));
}

#[test]
fn detects_cloudflare_block_page() {
    let body = br#"<html><head><title>Attention Required! | Cloudflare</title></head>
        <body><div class="cf-error-details">Sorry, you have been blocked</div></body></html>"#;
    assert!(looks_like_anti_abuse_page(body));
}

#[test]
fn plain_forbidden_body_is_not_anti_abuse() {
    assert!(!looks_like_anti_abuse_page(b""));
    assert!(!looks_like_anti_abuse_page(
        b"<html><head><title>403 Forbidden</title></head><body><center><h1>403 Forbidden</h1></center></body></html>"
    ));
    assert!(!looks_like_anti_abuse_page(b"Access to this resource is forbidden"));
}

#[test]
fn anti_abuse_error_keeps_status_prefix() {
    let e = anti_abuse_forbidden_error();
    match e {
        DownloadError::InvalidResponse(m) => assert!(m.starts_with("http status 403 Forbidden (")),
        _ => panic!("expected InvalidResponse"),
    }
}

// ── validate_probe_response ─────────────────────────────

#[test]
fn validate_probe_200_ok() {
    assert!(validate_probe_response(200).is_ok());
}

#[test]
fn validate_probe_206_partial_content() {
    assert!(validate_probe_response(206).is_ok());
}

#[test]
fn validate_probe_non_ok_returns_error() {
    assert!(validate_probe_response(404).is_err());
}

#[test]
fn validate_probe_500_returns_error() {
    assert!(validate_probe_response(500).is_err());
}

#[test]
fn validate_probe_error_names_status() {
    match validate_probe_response(404) {
        Err(DownloadError::InvalidResponse(m)) => assert_eq!(m, "probe returned http status 404 Not Found"),
        _ => panic!("expected InvalidResponse"),
    }
}

// ── extract_total_bytes ─────────────────────────────────

#[test]
fn extract_bytes_from_content_length() {
    assert_eq!(extract_total_bytes(200, &None, &s("1024")), Some(1024));
}

#[test]
fn extract_bytes_from_content_range_with_partial() {
    assert_eq!(extract_total_bytes(206, &s("bytes 0-499/2000"), &None), Some(2000));
}

#[test]
fn extract_bytes_prefers_content_range_over_length_for_partial() {
    assert_eq!(extract_total_bytes(206, &s("bytes 0-999/5000"), &s("1000")), Some(5000));
}

#[test]
fn extract_bytes_missing_headers_returns_none() {
    assert_eq!(extract_total_bytes(200, &None, &None), None);
}

#[test]
fn extract_bytes_content_range_asterisk_total() {
    assert_eq!(extract_total_bytes(206, &s("bytes */5000"), &None), Some(5000));
}

#[test]
fn extract_bytes_invalid_length_returns_none() {
    assert_eq!(extract_total_bytes(200, &None, &s("not-a-number")), None);
}

#[test]
fn extract_bytes_plus_sign_and_overflow() {
    assert_eq!(extract_total_bytes(200, &None, &s("+77")), Some(77));
    assert_eq!(extract_total_bytes(200, &None, &s("18446744073709551615")), Some(u64::MAX));
    assert_eq!(extract_total_bytes(200, &None, &s("18446744073709551616")), None);
    assert_eq!(extract_total_bytes(200, &None, &s("-1")), None);
    assert_eq!(extract_total_bytes(200, &None, &s("")), None);
}

// ── supports_ranges ─────────────────────────────────────

#[test]
fn supports_ranges_partial_content_status() {
    assert!(supports_ranges(206, false, &None));
}

#[test]
fn supports_ranges_via_content_range_header() {
    assert!(supports_ranges(200, true, &None));
}

#[test]
fn supports_ranges_via_accept_ranges_bytes() {
    assert!(supports_ranges(200, false, &s("bytes")));
}

#[test]
fn supports_ranges_accept_ranges_case_insensitive() {
    assert!(supports_ranges(200, false, &s("Bytes")));
}

#[test]
fn supports_ranges_no_header_returns_false() {
    assert!(!supports_ranges(200, false, &None));
}

#[test]
fn supports_ranges_accept_ranges_none_returns_false() {
    assert!(!supports_ranges(200, false, &s("none")));
}

// ── infer_file_name ─────────────────────────────────────

#[test]
fn infer_name_from_content_disposition_quoted() {
    let cd = s(r#"attachment; filename="myfile.zip""#);
    assert_eq!(infer_file_name("https://example.com/ignored", &cd).as_deref(), Some("myfile.zip"));
}

#[test]
fn infer_name_from_content_disposition_unquoted() {
    let cd = s("attachment; filename=myfile.zip");
    assert_eq!(infer_file_name("https://example.com/ignored", &cd).as_deref(), Some("myfile.zip"));
}

#[test]
fn infer_name_from_content_disposition_ext_filename() {
    let cd = s("attachment; filename*=UTF-8''encoded%20file.txt");
    assert_eq!(infer_file_name("https://example.com/ignored", &cd).as_deref(), Some("encoded file.txt"));
}

#[test]
fn infer_name_falls_back_to_url_path() {
    assert_eq!(
        infer_file_name("https://example.com/path/to/document.pdf", &None).as_deref(),
        Some("document.pdf")
    );
}

#[test]
fn infer_name_falls_back_to_download_when_no_path() {
    assert_eq!(infer_file_name("https://example.com/", &None).as_deref(), Some("download"));
}

#[test]
fn infer_name_sanitizes_malicious_filename() {
    let cd = s(r#"attachment; filename="../../etc/passwd""#);
    let name = infer_file_name("https://example.com/ok", &cd);
    assert!(name.is_some());
    let n = name.unwrap();
    assert!(!n.contains('/'), "should not contain forward slashes");
    assert!(!n.contains('\\'), "should not contain backslashes");
}

#[test]
fn infer_name_uses_content_disposition_over_url() {
    let cd = s(r#"attachment; filename="actual.txt""#);
    assert_eq!(infer_file_name("https://example.com/ignored.html", &cd).as_deref(), Some("actual.txt"));
}

// ── validate_segment_response ──────────────────────────

#[test]
fn validate_segment_response_exact_match() {
    assert!(validate_segment_response(&s("bytes 100-199/1000"), 100, 199).is_ok());
}

#[test]
fn validate_segment_response_start_mismatch() {
    assert!(validate_segment_response(&s("bytes 99-199/1000"), 100, 199).is_err());
}

#[test]
fn validate_segment_response_end_exceeds_expected() {
    assert!(validate_segment_response(&s("bytes 100-200/1000"), 100, 199).is_err());
}

#[test]
fn validate_segment_response_missing_content_range() {
    assert!(validate_segment_response(&None, 0, 99).is_err());
}

#[test]
fn validate_segment_response_invalid_content_range_format() {
    assert!(validate_segment_response(&s("invalid"), 0, 99).is_err());
}

#[test]
fn validate_segment_response_non_bytes_unit() {
    assert!(validate_segment_response(&s("bytes 0-99/100"), 0, 99).is_ok());
}

#[test]
fn validate_segment_response_error_messages() {
    let msg = |r: Result<(), DownloadError>| match r {
        Err(DownloadError::InvalidResponse(m)) => m,
        _ => String::from("ok"),
    };
    assert_eq!(msg(validate_segment_response(&None, 0, 9)), "segment response missing content-range");
    assert_eq!(msg(validate_segment_response(&s("items 0-9/10"), 0, 9)), "invalid content-range format");
    assert_eq!(msg(validate_segment_response(&s("bytes 0-9"), 0, 9)), "invalid content-range payload");
    assert_eq!(msg(validate_segment_response(&s("bytes 09/10"), 0, 9)), "invalid content-range bounds");
    assert_eq!(msg(validate_segment_response(&s("bytes x-9/10"), 0, 9)), "invalid content-range start");
    assert_eq!(msg(validate_segment_response(&s("bytes 0-y/10"), 0, 9)), "invalid content-range end");
    assert_eq!(
        msg(validate_segment_response(&s("bytes 5-20/30"), 0, 9)),
        "unexpected content-range 5-20, expected 0-9"
    );
}

// ── if_range_header ─────────────────────────────────────

#[test]
fn if_range_uses_etag_when_present() {
    let manifest = Manifest { etag: Some("\"abc123\"".into()), last_modified: None, ..make_minimal_manifest() };
    assert_eq!(if_range_value(&manifest).as_deref(), Some("\"abc123\""));
}

#[test]
fn if_range_uses_last_modified_when_no_etag() {
    let manifest = Manifest {
        etag: None,
        last_modified: Some("Mon, 01 Jan 2024 00:00:00 GMT".into()),
        ..make_minimal_manifest()
    };
    assert_eq!(if_range_value(&manifest).as_deref(), Some("Mon, 01 Jan 2024 00:00:00 GMT"));
}

#[test]
fn if_range_etag_preferred_over_last_modified() {
    let manifest = Manifest {
        etag: Some("\"etag-value\"".into()),
        last_modified: Some("some-date".into()),
        ..make_minimal_manifest()
    };
    assert_eq!(if_range_value(&manifest).as_deref(), Some("\"etag-value\""));
}

#[test]
fn if_range_none_when_both_missing() {
    let manifest = Manifest { etag: None, last_modified: None, ..make_minimal_manifest() };
    assert!(if_range_value(&manifest).is_none());
}

#[test]
fn if_range_skips_invalid_header_value() {
    let manifest = Manifest { etag: Some("bad\nvalue".into()), ..make_minimal_manifest() };
    assert!(if_range_value(&manifest).is_none());
}

// ── parse_content_disposition ───────────────────────────

#[test]
fn parse_cd_quoted_filename() {
    assert_eq!(parse_content_disposition(r#"attachment; filename="file.txt""#).as_deref(), Some("file.txt"));
}

#[test]
fn parse_cd_unquoted_filename() {
    assert_eq!(parse_content_disposition("attachment; filename=file.txt").as_deref(), Some("file.txt"));
}

#[test]
fn parse_cd_ext_filename_takes_priority() {
    let result = parse_content_disposition("attachment; filename=old.txt; filename*=UTF-8''new.txt");
    assert_eq!(result.as_deref(), Some("new.txt"));
}

#[test]
fn parse_cd_url_encoded_filename() {
    let result = parse_content_disposition("attachment; filename*=UTF-8''%E4%B8%AD%E6%96%87.txt");
    assert_eq!(result.as_deref(), Some("中文.txt"));
}

#[test]
fn parse_cd_no_filename_returns_none() {
    assert!(parse_content_disposition("attachment;").is_none());
}

#[test]
fn parse_cd_empty_value_returns_none() {
    assert!(parse_content_disposition("").is_none());
}

#[test]
fn parse_cd_only_extension_returns_none_when_no_standard() {
    let result = parse_content_disposition("attachment; filename*=UTF-8''encoded.bin");
    assert_eq!(result.as_deref(), Some("encoded.bin"));
}

#[test]
fn parse_cd_undecodable_ext_falls_back_to_plain() {
    let result = parse_content_disposition("attachment; filename*=UTF-8''%FF%FE; filename=plain.bin");
    assert_eq!(result.as_deref(), Some("plain.bin"));
}

// ── extra headers ───────────────────────────────────────

#[test]
fn has_header_case_insensitive() {
    let headers = vec!["Authorization: Bearer token".to_string(), "Referer: https://example.com/".to_string()];
    assert!(has_header(&headers, "referer"));
    assert!(has_header(&headers, "Referer"));
    assert!(has_header(&headers, "REFERER"));
    assert!(has_header(&headers, "authorization"));
    assert!(!has_header(&headers, "user-agent"));
}

#[test]
fn has_header_empty_list() {
    assert!(!has_header(&Vec::new(), "referer"));
}

#[test]
fn extra_headers_skip_malformed_lines() {
    let headers = vec![
        " X-Token :  abc ".to_string(),
        "no colon here".to_string(),
        "Empty:".to_string(),
        "Bad Name: v".to_string(),
        "Cookie: a=b".to_string(),
    ];
    let parsed = parse_extra_headers(&headers);
    assert_eq!(
        parsed,
        vec![("X-Token".to_string(), "abc".to_string()), ("Cookie".to_string(), "a=b".to_string())]
    );
}

// ── infer_candidate_referers ────────────────────────────

#[test]
fn infer_nvidia_com_referers() {
    let url = "https://cn.download.nvidia.com/Windows/617.14/617.14-desktop-win10-win11-64bit-international-dch-whql.exe";
    let cands = infer_candidate_referers(url);
    assert!(cands.contains(&"https://www.nvidia.com/".to_string()));
    assert!(cands.contains(&"https://www.nvidia.cn/".to_string()));
    assert!(cands.contains(&"https://cn.download.nvidia.com/".to_string()));
}

#[test]
fn infer_nvidia_cn_referers() {
    let url = "https://cn.download.nvidia.cn/Windows/driver.exe";
    let cands = infer_candidate_referers(url);
    assert!(cands.contains(&"https://www.nvidia.cn/".to_string()));
    assert!(cands.contains(&"https://www.nvidia.com/".to_string()));
}

#[test]
fn infer_generic_subdomain_referers() {
    let url = "https://dl.example.com/files/archive.tar.gz";
    let cands = infer_candidate_referers(url);
    assert!(cands.contains(&"https://dl.example.com/".to_string()));
    assert!(cands.contains(&"https://www.example.com/".to_string()));
    assert!(cands.contains(&"https://example.com/".to_string()));
}

#[test]
fn infer_second_level_domain_referers() {
    let url = "https://cdn.example.com.cn/files/archive.tar.gz";
    let cands = infer_candidate_referers(url);
    assert!(cands.contains(&"https://cdn.example.com.cn/".to_string()));
    assert!(cands.contains(&"https://www.example.com.cn/".to_string()));
    assert!(cands.contains(&"https://example.com.cn/".to_string()));
}

#[test]
fn infer_invalid_url_empty() {
    assert!(infer_candidate_referers("not-a-url").is_empty());
}

#[test]
fn referers_are_unique_and_ordered() {
    let cands = infer_candidate_referers("https://www.nvidia.com/drivers");
    assert_eq!(
        cands,
        vec![
            "https://www.nvidia.com/".to_string(),
            "https://www.nvidia.cn/".to_string(),
            "https://nvidia.com/".to_string(),
        ]
    );
}

// ── is_too_many_requests_error ──────────────────────────

#[test]
fn detects_429_too_many_requests() {
    let err1 = DownloadError::InvalidResponse("http status 429 Too Many Requests".to_string());
    assert!(is_too_many_requests_error(&err1));
    let err2 = DownloadError::InvalidResponse("http status 500 Internal Server Error".to_string());
    assert!(!is_too_many_requests_error(&err2));
    let err3 = DownloadError::Interrupted;
    assert!(!is_too_many_requests_error(&err3));
}

#[test]
fn detects_429_from_transport_status() {
    let e = DownloadError::Http { message: "x".into(), status: Some(429) };
    assert!(is_too_many_requests_error(&e));
    let e = DownloadError::Http { message: "x".into(), status: None };
    assert!(!is_too_many_requests_error(&e));
}

#[test]
fn extra_header_names_are_tokens() {
    let long_name = "x".repeat(70);
    let headers = vec![
        "X~Odd_#Name!: 1".to_string(),
        "Bäd: 2".to_string(),
        "Bad(Name): 3".to_string(),
        format!("{long_name}: 4"),
    ];
    let parsed = parse_extra_headers(&headers);
    assert_eq!(
        parsed,
        vec![("X~Odd_#Name!".to_string(), "1".to_string()), (long_name.clone(), "4".to_string())]
    );
}
