use limedl_core::error::DownloadError;
use limedl_core::settings::{
    normalize_github_mirror_settings, normalize_proxy_settings, normalize_tracker_list_url,
};
use limedl_core::types::{default_tracker_list_url, GitHubMirrorSettings, MirrorEntry, ProxyMode, ProxySettings};

#[test]
fn test_normalize_proxy_disabled_clears_url() {
    let input = ProxySettings {
        mode: ProxyMode::Disabled,
        manual_url: "http://should-be-cleared".into(),
    };
    let result = normalize_proxy_settings(input).unwrap();
    assert_eq!(result.mode, ProxyMode::Disabled);
    assert!(result.manual_url.is_empty());
}

#[test]
fn test_normalize_proxy_system_clears_url() {
    let input = ProxySettings {
        mode: ProxyMode::System,
        manual_url: "http://should-be-cleared".into(),
    };
    let result = normalize_proxy_settings(input).unwrap();
    assert_eq!(result.mode, ProxyMode::System);
    assert!(result.manual_url.is_empty());
}

#[test]
fn test_normalize_proxy_manual_valid_url_ok() {
    let input = ProxySettings {
        mode: ProxyMode::Manual,
        manual_url: "http://proxy:8080".into(),
    };
    let result = normalize_proxy_settings(input).unwrap();
    assert_eq!(result.mode, ProxyMode::Manual);
    assert_eq!(result.manual_url, "http://proxy:8080");
}

#[test]
fn test_normalize_proxy_manual_empty_url_err() {
    let input = ProxySettings {
        mode: ProxyMode::Manual,
        manual_url: String::new(),
    };
    let err = normalize_proxy_settings(input).unwrap_err();
    assert!(matches!(err, DownloadError::InvalidProxy(_)));
}

#[test]
fn test_normalize_proxy_manual_invalid_url_err() {
    let input = ProxySettings {
        mode: ProxyMode::Manual,
        manual_url: "not-a-url".into(),
    };
    let err = normalize_proxy_settings(input).unwrap_err();
    assert!(matches!(err, DownloadError::InvalidProxy(_)));
}

#[test]
fn test_normalize_proxy_manual_url_trimmed() {
    let input = ProxySettings {
        mode: ProxyMode::Manual,
        manual_url: "  http://proxy:8080  ".into(),
    };
    let result = normalize_proxy_settings(input).unwrap();
    assert_eq!(result.manual_url, "http://proxy:8080");
}

#[test]
fn test_normalize_tracker_list_url_empty_returns_default() {
    let result = normalize_tracker_list_url("").unwrap();
    assert_eq!(result, default_tracker_list_url());
}

#[test]
fn test_normalize_tracker_list_url_valid_http() {
    let result = normalize_tracker_list_url("http://example.com/list.txt").unwrap();
    assert_eq!(result, "http://example.com/list.txt");
}

#[test]
fn test_normalize_tracker_list_url_valid_https() {
    let result = normalize_tracker_list_url("https://trackers.example.com/best.txt").unwrap();
    assert_eq!(result, "https://trackers.example.com/best.txt");
}

#[test]
fn test_normalize_tracker_list_url_invalid_scheme() {
    let err = normalize_tracker_list_url("ftp://example.com/list.txt").unwrap_err();
    assert!(matches!(err, DownloadError::InvalidResponse(_)));
}

#[test]
fn test_normalize_tracker_list_url_invalid_url() {
    let err = normalize_tracker_list_url("not a url").unwrap_err();
    assert!(matches!(err, DownloadError::InvalidResponse(_)));
}

#[test]
fn test_normalize_github_mirror_empty() {
    let input = GitHubMirrorSettings::default();
    let result = normalize_github_mirror_settings(input);
    assert!(result.mirrors.is_empty());
}

#[test]
fn test_normalize_github_mirror_valid_urls_filtered_and_ordered() {
    let input = GitHubMirrorSettings {
        enabled: true,
        mirrors: vec![
            MirrorEntry {
                url: "https://mirror2.example.com".into(),
                enabled: true,
                order: 99,
            },
            MirrorEntry {
                url: "https://mirror1.example.com".into(),
                enabled: true,
                order: 42,
            },
        ],
    };
    let result = normalize_github_mirror_settings(input);
    assert_eq!(result.mirrors.len(), 2);
    assert_eq!(result.mirrors[0].order, 0);
    assert_eq!(result.mirrors[1].order, 1);
    assert_eq!(result.mirrors[0].url, "https://mirror2.example.com");
    assert_eq!(result.mirrors[1].url, "https://mirror1.example.com");
}

#[test]
fn test_normalize_github_mirror_invalid_urls_filtered() {
    let input = GitHubMirrorSettings {
        enabled: true,
        mirrors: vec![
            MirrorEntry {
                url: "ftp://mirror.example.com".into(),
                enabled: true,
                order: 0,
            },
            MirrorEntry {
                url: "not-a-url".into(),
                enabled: true,
                order: 1,
            },
            MirrorEntry {
                url: "https://valid.example.com".into(),
                enabled: true,
                order: 2,
            },
        ],
    };
    let result = normalize_github_mirror_settings(input);
    assert_eq!(result.mirrors.len(), 1);
    assert_eq!(result.mirrors[0].url, "https://valid.example.com");
}

#[test]
fn test_normalize_github_mirror_empty_url_filtered() {
    let input = GitHubMirrorSettings {
        enabled: true,
        mirrors: vec![
            MirrorEntry {
                url: "".into(),
                enabled: true,
                order: 0,
            },
            MirrorEntry {
                url: "  ".into(),
                enabled: true,
                order: 1,
            },
            MirrorEntry {
                url: "https://real.example.com".into(),
                enabled: true,
                order: 2,
            },
        ],
    };
    let result = normalize_github_mirror_settings(input);
    assert_eq!(result.mirrors.len(), 1);
    assert_eq!(result.mirrors[0].url, "https://real.example.com");
}
