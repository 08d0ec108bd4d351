//! Plain data types shared by the download engine: task states, thread modes,
//! snapshots and the application settings tree.
use vstd::prelude::*;

verus! {

/// Lifecycle state of a download task.
#[derive(Clone, Copy, Debug, PartialEq, Eq, Structural, Hash)]
pub enum DownloadState {
    Queued,
    Downloading,
    Paused,
    Retrying,
    Verifying,
    Completed,
    Failed,
    Canceled,
}

/// How many connections a task uses: a fixed count or an adaptive (AIMD) one.
#[derive(Clone, Copy, Debug, PartialEq, Eq, Structural, Hash)]
pub enum ThreadMode {
    Fixed,
    Adaptive,
}

/// Checksum algorithm applied to a finished download.
#[derive(Clone, Copy, Debug, PartialEq, Eq, Structural, Hash)]
pub enum ChecksumMode {
    Disabled,
    Blake3,
    Sha256,
    Xxh3128,
}

/// Aggressiveness of the adaptive thread controller.
#[derive(Clone, Copy, Debug, PartialEq, Eq, Structural, Hash)]
pub enum AdaptiveProfile {
    Conservative,
    Balanced,
    Aggressive,
}

/// User-assigned task priority.
#[derive(Clone, Copy, Debug, PartialEq, Eq, Structural, Hash)]
pub enum Priority {
    Low,
    Normal,
    High,
}

/// Protocol family of a task.
#[derive(Clone, Copy, Debug, PartialEq, Eq, Structural, Hash)]
pub enum TaskKind {
    Http,
    Bt,
}

/// Global scheduling policy.
#[derive(Clone, Copy, Debug, PartialEq, Eq, Structural, Hash)]
pub enum SchedulerMode {
    Traditional,
    Automatic,
}

/// How the chunk size of a new download is chosen.
#[derive(Clone, Copy, Debug, PartialEq, Eq, Structural, Hash)]
pub enum ChunkSizeStrategy {
    Fixed,
    Adaptive,
}

/// Proxy selection.
#[derive(Clone, Copy, Debug, PartialEq, Eq, Structural, Hash)]
pub enum ProxyMode {
    Disabled,
    System,
    Manual,
}

/// Storage media class of a destination device.
#[derive(Clone, Copy, Debug, PartialEq, Eq, Structural, Hash)]
pub enum DiskType {
    Hdd,
    Ssd,
}

/// Verbosity of the file log.
#[derive(Clone, Copy, Debug, PartialEq, Eq, Structural, Hash)]
pub enum LogLevel {
    Trace,
    Debug,
    Info,
    Warn,
    Error,
}

/// Numeric code of a priority as it is stored in the database.
pub open spec fn spec_priority_code(p: Priority) -> u8 {
    match p {
        Priority::Low => 0,
        Priority::Normal => 1,
        Priority::High => 2,
    }
}

/// The priority stored under a numeric code; unknown codes read as `Normal`.
pub open spec fn spec_priority_from_code(code: u8) -> Priority {
    if code == 0 {
        Priority::Low
    } else if code == 2 {
        Priority::High
    } else {
        Priority::Normal
    }
}

impl Priority {
    pub fn code(self) -> (c: u8)
        ensures
            c == spec_priority_code(self),
    {
        match self {
            Priority::Low => 0,
            Priority::Normal => 1,
            Priority::High => 2,
        }
    }

    pub fn from_code(code: u8) -> (p: Priority)
        ensures
            p == spec_priority_from_code(code),
    {
        if code == 0 {
            Priority::Low
        } else if code == 2 {
            Priority::High
        } else {
            Priority::Normal
        }
    }
}

/// Reading back the code of a priority gives the same priority.
pub proof fn lemma_priority_code_roundtrip(p: Priority)
    ensures
        spec_priority_from_code(spec_priority_code(p)) == p,
{
}

/// Per-chunk progress as reported to the frontend.
#[derive(Clone, Debug, PartialEq, Eq)]
pub struct ChunkInfo {
    pub index: usize,
    pub start: u64,
    pub end: u64,
    pub downloaded: u64,
    pub completed: bool,
    pub claimed_by: Option<usize>,
}

/// Frontend-facing view of a download task.
#[derive(Clone, Debug)]
pub struct DownloadSnapshot {
    pub id: String,
    pub kind: TaskKind,
    pub state: DownloadState,
    pub url: String,
    pub final_url: String,
    pub file_name: String,
    pub destination_path: String,
    pub temp_path: String,
    pub total_bytes: Option<u64>,
    pub downloaded_bytes: u64,
    pub supports_ranges: bool,
    pub connection_count: usize,
    pub thread_mode: ThreadMode,
    pub requested_thread_count: Option<usize>,
    pub desired_thread_count: Option<usize>,
    pub allocated_thread_count: Option<usize>,
    pub adaptive_profile: Option<AdaptiveProfile>,
    pub thread_note: Option<String>,
    pub checksum: Option<String>,
    pub checksum_mode: ChecksumMode,
    pub etag: Option<String>,
    pub last_modified: Option<String>,
    pub error: Option<String>,
    pub speed_bytes_per_second: Option<u64>,
    pub eta_seconds: Option<u64>,
    pub uploaded_bytes: Option<u64>,
    pub upload_speed_bytes_per_second: Option<u64>,
    pub peer_count: Option<usize>,
    pub upload_status: Option<String>,
    pub info_hash: Option<String>,
    pub created_at_ms: u64,
    pub updated_at_ms: u64,
    pub priority: Priority,
    pub cdn_accelerated: bool,
    pub mirror_url: Option<String>,
    pub chunks: Vec<ChunkInfo>,
    pub seed_count: Option<usize>,
    pub leech_count: Option<usize>,
    pub download_limit_bps: Option<u64>,
    pub upload_limit_bps: Option<u64>,
    pub degraded: bool,
    pub disk_type: Option<DiskType>,
    pub flushing: bool,
}

/// What the frontend asks for when it starts a download.
#[derive(Clone, Debug)]
pub struct StartDownloadRequest {
    pub kind: Option<TaskKind>,
    pub url: String,
    pub destination_dir: String,
    pub file_name: Option<String>,
    pub user_agent: Option<String>,
    pub thread_mode: Option<ThreadMode>,
    pub thread_count: Option<usize>,
    pub max_retries: Option<u32>,
    pub checksum: Option<ChecksumMode>,
    pub expected_checksum: Option<String>,
    pub selected_file_indices: Option<Vec<usize>>,
    pub start_paused: bool,
    pub mirror_urls: Option<Vec<String>>,
    pub priority: Option<Priority>,
}

// ── Settings tree ────────────────────────────────────────────────────

/// Browser-like user agent sent when no custom one is configured.
pub fn default_http_user_agent() -> (s: String)
    ensures
        s@ == spec_default_http_user_agent(),
{
    "Mozilla/5.0 (Windows NT 10.0; Win64; x64) AppleWebKit/537.36 (KHTML, like Gecko) Chrome/131.0.0.0 Safari/537.36".to_owned()
}

pub closed spec fn spec_default_http_user_agent() -> Seq<char> {
    "Mozilla/5.0 (Windows NT 10.0; Win64; x64) AppleWebKit/537.36 (KHTML, like Gecko) Chrome/131.0.0.0 Safari/537.36"@
}

/// Tracker list source used when none is configured.
pub fn default_tracker_list_url() -> (s: String)
    ensures
        s@ == spec_default_tracker_list_url(),
{
    "https://cdn.jsdelivr.net/gh/ngosang/trackerslist@master/trackers_best.txt".to_owned()
}

pub closed spec fn spec_default_tracker_list_url() -> Seq<char> {
    "https://cdn.jsdelivr.net/gh/ngosang/trackerslist@master/trackers_best.txt"@
}

#[derive(Clone, Debug, PartialEq, Eq)]
pub struct AppearanceSettings {
    pub theme_color: String,
    pub background_opacity: String,
    pub color_mode: String,
    pub show_detail_info: bool,
    pub show_heatmap: bool,
    pub sort_key: String,
    pub sort_direction: String,
    pub compact_view: bool,
    pub visible_columns: Vec<String>,
}

/// The default `AppearanceSettings`.
pub open spec fn spec_default_appearance_settings(s: AppearanceSettings) -> bool {
    &&& s.theme_color@ == "lime"@
    &&& s.background_opacity@ == "default"@
    &&& s.color_mode@ == "system"@
    &&& s.show_detail_info
    &&& s.show_heatmap
    &&& s.sort_key@ == "added_at"@
    &&& s.sort_direction@ == "desc"@
    &&& !s.compact_view
    &&& s.visible_columns@.len() == 0
}

impl Default for AppearanceSettings {
    fn default() -> (s: Self)
        ensures
            spec_default_appearance_settings(s),
    {
        AppearanceSettings {
            theme_color: "lime".to_owned(),
            background_opacity: "default".to_owned(),
            color_mode: "system".to_owned(),
            show_detail_info: true,
            show_heatmap: true,
            sort_key: "added_at".to_owned(),
            sort_direction: "desc".to_owned(),
            compact_view: false,
            visible_columns: Vec::new(),
        }
    }
}

#[derive(Clone, Debug, PartialEq, Eq)]
pub struct ProxySettings {
    pub mode: ProxyMode,
    pub manual_url: String,
}

/// The default `ProxySettings`.
pub open spec fn spec_default_proxy_settings(s: ProxySettings) -> bool {
    &&& s.mode == ProxyMode::System
    &&& s.manual_url@.len() == 0
}

impl Default for ProxySettings {
    fn default() -> (s: Self)
        ensures
            spec_default_proxy_settings(s),
    {
        ProxySettings { mode: ProxyMode::System, manual_url: String::new() }
    }
}

#[derive(Clone, Copy, Debug, PartialEq, Eq)]
pub struct TraditionalSchedulerSettings {
    pub max_parallel_tasks: usize,
}

/// The default `TraditionalSchedulerSettings`.
pub open spec fn spec_default_traditional_scheduler_settings(s: TraditionalSchedulerSettings) -> bool {
    &&& s.max_parallel_tasks == 3
}

impl Default for TraditionalSchedulerSettings {
    fn default() -> (s: Self)
        ensures
            spec_default_traditional_scheduler_settings(s),
    {
        TraditionalSchedulerSettings { max_parallel_tasks: 3 }
    }
}

#[derive(Clone, Copy, Debug, PartialEq, Eq)]
pub struct AutomaticSchedulerSettings {
    pub max_parallel_threads: usize,
    pub max_threads_per_task: usize,
    pub min_threads_per_task: usize,
    pub adaptive_profile: AdaptiveProfile,
}

/// The default `AutomaticSchedulerSettings`.
pub open spec fn spec_default_automatic_scheduler_settings(s: AutomaticSchedulerSettings) -> bool {
    &&& s.max_parallel_threads == 32
    &&& s.max_threads_per_task == 8
    &&& s.min_threads_per_task == 2
    &&& s.adaptive_profile == AdaptiveProfile::Balanced
}

impl Default for AutomaticSchedulerSettings {
    fn default() -> (s: Self)
        ensures
            spec_default_automatic_scheduler_settings(s),
    {
        AutomaticSchedulerSettings {
            max_parallel_threads: 32,
            max_threads_per_task: 8,
            min_threads_per_task: 2,
            adaptive_profile: AdaptiveProfile::Balanced,
        }
    }
}

#[derive(Clone, Copy, Debug, PartialEq, Eq)]
pub struct SchedulerSettings {
    pub mode: SchedulerMode,
    pub traditional: TraditionalSchedulerSettings,
    pub automatic: AutomaticSchedulerSettings,
    pub chunk_size_strategy: ChunkSizeStrategy,
    pub tail_sprint_enabled: bool,
    pub connection_warmup_enabled: bool,
}

/// The default `SchedulerSettings`.
pub open spec fn spec_default_scheduler_settings(s: SchedulerSettings) -> bool {
    &&& s.mode == SchedulerMode::Automatic
    &&& spec_default_traditional_scheduler_settings(s.traditional)
    &&& spec_default_automatic_scheduler_settings(s.automatic)
    &&& s.chunk_size_strategy == ChunkSizeStrategy::Adaptive
    &&& s.tail_sprint_enabled
    &&& s.connection_warmup_enabled
}

impl Default for SchedulerSettings {
    fn default() -> (s: Self)
        ensures
            spec_default_scheduler_settings(s),
    {
        SchedulerSettings {
            mode: SchedulerMode::Automatic,
            traditional: TraditionalSchedulerSettings::default(),
            automatic: AutomaticSchedulerSettings::default(),
            chunk_size_strategy: ChunkSizeStrategy::Adaptive,
            tail_sprint_enabled: true,
            connection_warmup_enabled: true,
        }
    }
}

#[derive(Clone, Debug, PartialEq, Eq)]
pub struct DownloadDefaultsSettings {
    pub default_download_dir: String,
    pub default_max_retries: u32,
    pub default_checksum: ChecksumMode,
    pub default_user_agent: String,
}

/// The default `DownloadDefaultsSettings`.
pub open spec fn spec_default_download_defaults_settings(s: DownloadDefaultsSettings) -> bool {
    &&& s.default_download_dir@.len() == 0
    &&& s.default_max_retries == 4
    &&& s.default_checksum == ChecksumMode::Blake3
    &&& s.default_user_agent@ == spec_default_http_user_agent()
}

impl Default for DownloadDefaultsSettings {
    fn default() -> (s: Self)
        ensures
            spec_default_download_defaults_settings(s),
    {
        DownloadDefaultsSettings {
            default_download_dir: String::new(),
            default_max_retries: 4,
            default_checksum: ChecksumMode::Blake3,
            default_user_agent: default_http_user_agent(),
        }
    }
}

/// Inclusive range of local ports the torrent engine may listen on.
#[derive(Clone, Copy, Debug, PartialEq, Eq)]
pub struct BtPortRange {
    pub start: u16,
    pub end: u16,
}

/// Torrent engine settings. The upload-ratio limit, a floating-point value,
/// is kept by the application layer and is not part of this record.
#[derive(Clone, Debug, PartialEq, Eq)]
pub struct BtSettings {
    pub dht_enabled: bool,
    pub tracker_list: String,
    pub tracker_list_url: String,
    pub pause_upload_when_limit_reached: bool,
    pub upload_limit_bytes: u64,
    pub upnp_enabled: bool,
    pub listen_port_range: Option<BtPortRange>,
    pub listen_port: Option<u16>,
    pub enable_natpmp: bool,
    pub enable_ipv6: bool,
    pub enable_pex: bool,
    pub enable_lsd: bool,
    pub enable_utp: bool,
    pub enable_fast_extension: bool,
    pub enable_holepunch: bool,
    pub enable_web_seed: bool,
    pub enable_super_seeding: bool,
    pub global_download_rate_limit: u64,
    pub global_upload_rate_limit: u64,
    pub preallocate_mode: String,
    pub encryption_mode: String,
    pub max_downloads: Option<u32>,
    pub max_seeds: Option<u32>,
    pub max_torrents: Option<u32>,
    pub active_limit: Option<u32>,
}

/// The default `BtSettings`.
pub open spec fn spec_default_bt_settings(s: BtSettings) -> bool {
    &&& s.dht_enabled
    &&& s.tracker_list@.len() == 0
    &&& s.tracker_list_url@ == spec_default_tracker_list_url()
    &&& !s.pause_upload_when_limit_reached
    &&& s.upload_limit_bytes == 0
    &&& s.upnp_enabled
    &&& s.listen_port_range is None
    &&& s.listen_port is None
    &&& s.enable_natpmp && s.enable_ipv6 && s.enable_pex && s.enable_lsd && s.enable_utp
    &&& s.enable_fast_extension && s.enable_holepunch && s.enable_web_seed
    &&& !s.enable_super_seeding
    &&& s.global_download_rate_limit == 0
    &&& s.global_upload_rate_limit == 0
    &&& s.preallocate_mode@ == "sparse"@
    &&& s.encryption_mode@ == "prefer"@
    &&& s.max_downloads is None && s.max_seeds is None && s.max_torrents is None && s.active_limit is None
}

impl Default for BtSettings {
    fn default() -> (s: Self)
        ensures
            spec_default_bt_settings(s),
    {
        BtSettings {
            dht_enabled: true,
            tracker_list: String::new(),
            tracker_list_url: default_tracker_list_url(),
            pause_upload_when_limit_reached: false,
            upload_limit_bytes: 0,
            upnp_enabled: true,
            listen_port_range: None,
            listen_port: None,
            enable_natpmp: true,
            enable_ipv6: true,
            enable_pex: true,
            enable_lsd: true,
            enable_utp: true,
            enable_fast_extension: true,
            enable_holepunch: true,
            enable_web_seed: true,
            enable_super_seeding: false,
            global_download_rate_limit: 0,
            global_upload_rate_limit: 0,
            preallocate_mode: "sparse".to_owned(),
            encryption_mode: "prefer".to_owned(),
            max_downloads: None,
            max_seeds: None,
            max_torrents: None,
            active_limit: None,
        }
    }
}

#[derive(Clone, Debug, PartialEq, Eq)]
pub struct LogSettings {
    pub enabled: bool,
    pub level: LogLevel,
    pub file_path: String,
    pub retention_count: Option<u32>,
    pub retention_days: Option<u32>,
}

/// The default `LogSettings`.
pub open spec fn spec_default_log_settings(s: LogSettings) -> bool {
    &&& s.enabled
    &&& s.level == LogLevel::Info
    &&& s.file_path@.len() == 0
    &&& s.retention_count == Some(10u32)
    &&& s.retention_days == Some(30u32)
}

impl Default for LogSettings {
    fn default() -> (s: Self)
        ensures
            spec_default_log_settings(s),
    {
        LogSettings {
            enabled: true,
            level: LogLevel::Info,
            file_path: String::new(),
            retention_count: Some(10),
            retention_days: Some(30),
        }
    }
}

#[derive(Clone, Debug, PartialEq, Eq)]
pub struct Aria2RpcSettings {
    pub enabled: bool,
    pub port: u16,
    pub secret: Option<String>,
}

/// The default `Aria2RpcSettings`.
pub open spec fn spec_default_aria2_rpc_settings(s: Aria2RpcSettings) -> bool {
    &&& !s.enabled
    &&& s.port == 6800
    &&& s.secret is None
}

impl Default for Aria2RpcSettings {
    fn default() -> (s: Self)
        ensures
            spec_default_aria2_rpc_settings(s),
    {
        Aria2RpcSettings { enabled: false, port: 6800, secret: None }
    }
}

/// CDN acceleration state. The measured speed of the active node, a
/// floating-point value, is kept by the application layer.
#[derive(Clone, Debug, PartialEq, Eq)]
pub struct CdnAccelerationSettings {
    pub enabled: bool,
    pub active_ip: Option<String>,
    pub last_test_at_ms: Option<u64>,
    pub last_error: Option<String>,
}

/// The default `CdnAccelerationSettings`.
pub open spec fn spec_default_cdn_acceleration_settings(s: CdnAccelerationSettings) -> bool {
    &&& !s.enabled
    &&& s.active_ip is None
    &&& s.last_test_at_ms is None
    &&& s.last_error is None
}

impl Default for CdnAccelerationSettings {
    fn default() -> (s: Self)
        ensures
            spec_default_cdn_acceleration_settings(s),
    {
        CdnAccelerationSettings { enabled: false, active_ip: None, last_test_at_ms: None, last_error: None }
    }
}

#[derive(Clone, Debug, PartialEq, Eq)]
pub struct MirrorEntry {
    pub url: String,
    pub enabled: bool,
    pub order: u32,
}

#[derive(Clone, Debug, PartialEq, Eq)]
pub struct GitHubMirrorSettings {
    pub enabled: bool,
    pub mirrors: Vec<MirrorEntry>,
}

/// The default `GitHubMirrorSettings`.
pub open spec fn spec_default_github_mirror_settings(s: GitHubMirrorSettings) -> bool {
    &&& !s.enabled
    &&& s.mirrors@.len() == 0
}

impl Default for GitHubMirrorSettings {
    fn default() -> (s: Self)
        ensures
            spec_default_github_mirror_settings(s),
    {
        GitHubMirrorSettings { enabled: false, mirrors: Vec::new() }
    }
}

#[derive(Clone, Copy, Debug, PartialEq, Eq)]
pub struct NotificationSettings {
    pub enabled: bool,
}

/// The default `NotificationSettings`.
pub open spec fn spec_default_notification_settings(s: NotificationSettings) -> bool {
    &&& s.enabled
}

impl Default for NotificationSettings {
    fn default() -> (s: Self)
        ensures
            spec_default_notification_settings(s),
    {
        NotificationSettings { enabled: true }
    }
}

/// A time window in which a different global speed limit applies.
#[derive(Clone, Copy, Debug, PartialEq, Eq)]
pub struct SpeedLimitRule {
    pub start_minute: u32,
    pub end_minute: u32,
    pub limit_bps: u64,
}

/// A per-directory override of the detected disk type.
#[derive(Clone, Debug, PartialEq, Eq)]
pub struct DiskTypeOverride {
    pub path: String,
    pub disk_type: DiskType,
}

#[derive(Clone, Debug, PartialEq, Eq)]
pub struct IoBaselineSettings {
    pub buffer_limit_mb: u64,
    pub game_mode_buffer_mb: u64,
    pub game_mode: bool,
    pub max_parallel_hdd: usize,
    pub game_mode_max_parallel: usize,
    pub disk_type_overrides: Vec<DiskTypeOverride>,
    pub hdd_buffer_enabled: bool,
    pub ssd_write_combine_mb: u64,
}

/// The default `IoBaselineSettings`.
pub open spec fn spec_default_io_baseline_settings(s: IoBaselineSettings) -> bool {
    &&& s.buffer_limit_mb == 1024
    &&& s.game_mode_buffer_mb == 128
    &&& !s.game_mode
    &&& s.max_parallel_hdd == 4
    &&& s.game_mode_max_parallel == 1
    &&& s.disk_type_overrides@.len() == 0
    &&& s.hdd_buffer_enabled
    &&& s.ssd_write_combine_mb == 0
}

impl Default for IoBaselineSettings {
    fn default() -> (s: Self)
        ensures
            spec_default_io_baseline_settings(s),
    {
        IoBaselineSettings {
            buffer_limit_mb: 1024,
            game_mode_buffer_mb: 128,
            game_mode: false,
            max_parallel_hdd: 4,
            game_mode_max_parallel: 1,
            disk_type_overrides: Vec::new(),
            hdd_buffer_enabled: true,
            ssd_write_combine_mb: 0,
        }
    }
}

/// Limits on simultaneously running downloads per protocol.
#[derive(Clone, Copy, Debug, PartialEq, Eq)]
pub struct DownloadLimits {
    pub max_concurrent_http: usize,
    pub max_concurrent_bt: usize,
}

/// The whole persisted settings document.
#[derive(Clone, Debug)]
pub struct AppSettings {
    pub appearance: AppearanceSettings,
    pub proxy: ProxySettings,
    pub scheduler: SchedulerSettings,
    pub download: DownloadDefaultsSettings,
    pub bt: BtSettings,
    pub logging: LogSettings,
    pub aria2_rpc: Aria2RpcSettings,
    pub cdn_acceleration: CdnAccelerationSettings,
    pub github_mirror: GitHubMirrorSettings,
    pub global_speed_limit_bps: u64,
    pub speed_limit_schedule: Vec<SpeedLimitRule>,
    pub notifications: NotificationSettings,
    pub io_baseline: IoBaselineSettings,
    pub autostart: bool,
    pub setup_completed: bool,
    pub last_setup_step: Option<u32>,
    pub download_limits: Option<DownloadLimits>,
    pub max_in_memory_downloads: usize,
}

/// The default `AppSettings`.
pub open spec fn spec_default_app_settings(s: AppSettings) -> bool {
    &&& spec_default_appearance_settings(s.appearance)
    &&& spec_default_proxy_settings(s.proxy)
    &&& spec_default_scheduler_settings(s.scheduler)
    &&& spec_default_download_defaults_settings(s.download)
    &&& spec_default_bt_settings(s.bt)
    &&& spec_default_log_settings(s.logging)
    &&& spec_default_aria2_rpc_settings(s.aria2_rpc)
    &&& spec_default_cdn_acceleration_settings(s.cdn_acceleration)
    &&& spec_default_github_mirror_settings(s.github_mirror)
    &&& s.global_speed_limit_bps == 0
    &&& s.speed_limit_schedule@.len() == 0
    &&& spec_default_notification_settings(s.notifications)
    &&& spec_default_io_baseline_settings(s.io_baseline)
    &&& !s.autostart
    &&& !s.setup_completed
    &&& s.last_setup_step is None
    &&& s.download_limits is None
    &&& s.max_in_memory_downloads == 200
}

impl Default for AppSettings {
    fn default() -> (s: Self)
        ensures
            spec_default_app_settings(s),
    {
        AppSettings {
            appearance: AppearanceSettings::default(),
            proxy: ProxySettings::default(),
            scheduler: SchedulerSettings::default(),
            download: DownloadDefaultsSettings::default(),
            bt: BtSettings::default(),
            logging: LogSettings::default(),
            aria2_rpc: Aria2RpcSettings::default(),
            cdn_acceleration: CdnAccelerationSettings::default(),
            github_mirror: GitHubMirrorSettings::default(),
            global_speed_limit_bps: 0,
            speed_limit_schedule: Vec::new(),
            notifications: NotificationSettings::default(),
            io_baseline: IoBaselineSettings::default(),
            autostart: false,
            setup_completed: false,
            last_setup_step: None,
            download_limits: None,
            max_in_memory_downloads: 200,
        }
    }
}

} // verus!
