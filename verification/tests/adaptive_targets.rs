use limedl_core::manifest::Manifest;
use limedl_core::scheduler::{
    adaptive_tuning_enabled, is_adaptive_candidate, samples_needed, AdaptiveCounters, AdaptiveOutcome,
    AdaptiveSignal, Scheduler,
};
use limedl_core::types::{
    AdaptiveProfile, AppSettings, AutomaticSchedulerSettings, ChecksumMode, DownloadState, Priority,
    ProxyMode, ProxySettings, SchedulerMode, SchedulerSettings, ThreadMode,
};

fn task(desired: Option<usize>, allocated: Option<usize>) -> Manifest {
    Manifest {
        id: String::new(),
        url: "https://example.com/a".to_string(),
        final_url: "https://example.com/a".to_string(),
        user_agent: String::new(),
        destination_dir: String::new(),
        file_name: String::new(),
        file_name_locked: false,
        destination_path: String::new(),
        temp_path: String::new(),
        total_bytes: Some(1 << 30),
        downloaded_bytes: 0,
        supports_ranges: true,
        chunk_size: 4194304,
        connection_count: 0,
        thread_mode: ThreadMode::Adaptive,
        requested_thread_count: None,
        desired_thread_count: desired,
        allocated_thread_count: allocated,
        adaptive_profile_snapshot: None,
        thread_note: None,
        etag: None,
        last_modified: None,
        state: DownloadState::Downloading,
        cdn_accelerated: false,
        checksum_mode: ChecksumMode::Disabled,
        checksum: None,
        expected_checksum: None,
        error: None,
        priority: Priority::Normal,
        created_at_ms: 0,
        updated_at_ms: 0,
        chunks: vec![],
        mirror_url: None,
        mirror_urls: Vec::new(),
        current_mirror_index: 0,
    }
}

fn automatic(profile: AdaptiveProfile, max_per_task: usize) -> AppSettings {
    AppSettings {
        scheduler: SchedulerSettings {
            mode: SchedulerMode::Automatic,
            automatic: AutomaticSchedulerSettings {
                max_threads_per_task: max_per_task,
                adaptive_profile: profile,
                ..AutomaticSchedulerSettings::default()
            },
            ..SchedulerSettings::default()
        },
        proxy: ProxySettings { mode: ProxyMode::Disabled, manual_url: String::new() },
        ..AppSettings::default()
    }
}

fn counters() -> AdaptiveCounters {
    AdaptiveCounters { recent_penalty: false, consecutive_good_samples: 0, consecutive_bad_samples: 0 }
}

fn signal(in_cooldown: bool, drop: bool, improved: bool, reduced: usize) -> AdaptiveSignal {
    AdaptiveSignal { in_cooldown, throughput_drop: drop, improved, reduced_threads: reduced }
}

#[test]
fn tuning_needs_automatic_mode_without_proxy() {
    let s = automatic(AdaptiveProfile::Balanced, 16);
    assert!(adaptive_tuning_enabled(&s));
    let mut with_proxy = s.clone();
    with_proxy.proxy.mode = ProxyMode::System;
    assert!(!adaptive_tuning_enabled(&with_proxy));
    let mut traditional = s.clone();
    traditional.scheduler.mode = SchedulerMode::Traditional;
    assert!(!adaptive_tuning_enabled(&traditional));
}

#[test]
fn only_adaptive_ranged_downloading_tasks_are_tuned() {
    assert!(is_adaptive_candidate(&task(Some(4), Some(4))));
    let mut fixed = task(Some(4), Some(4));
    fixed.thread_mode = ThreadMode::Fixed;
    assert!(!is_adaptive_candidate(&fixed));
    let mut paused = task(Some(4), Some(4));
    paused.state = DownloadState::Paused;
    assert!(!is_adaptive_candidate(&paused));
    let mut no_ranges = task(Some(4), Some(4));
    no_ranges.supports_ranges = false;
    assert!(!is_adaptive_candidate(&no_ranges));
}

#[test]
fn samples_needed_per_profile() {
    assert_eq!(samples_needed(AdaptiveProfile::Conservative), 2);
    assert_eq!(samples_needed(AdaptiveProfile::Balanced), 1);
    assert_eq!(samples_needed(AdaptiveProfile::Aggressive), 1);
}

#[test]
fn disabled_tuning_changes_nothing() {
    let mut s = automatic(AdaptiveProfile::Balanced, 16);
    s.proxy.mode = ProxyMode::Manual;
    let mut ms = vec![task(Some(4), Some(4))];
    let mut cs = vec![counters()];
    let out = Scheduler.update_adaptive_targets(&mut ms, &mut cs, &vec![signal(false, true, false, 2)], &s, false, 99);
    assert_eq!(out, vec![AdaptiveOutcome::Skipped]);
    assert_eq!(ms[0].desired_thread_count, Some(4));
    assert_eq!(ms[0].updated_at_ms, 0);
}

#[test]
fn overclock_pins_candidates_at_cap() {
    let s = automatic(AdaptiveProfile::Balanced, 16);
    let mut paused = task(Some(2), Some(2));
    paused.state = DownloadState::Paused;
    let mut ms = vec![task(Some(4), Some(4)), paused, task(Some(16), Some(16))];
    let mut cs = vec![counters(); 3];
    let sig = vec![signal(false, false, false, 0); 3];
    let out = Scheduler.update_adaptive_targets(&mut ms, &mut cs, &sig, &s, true, 77);
    assert_eq!(out, vec![AdaptiveOutcome::Skipped; 3]);
    assert_eq!(ms[0].desired_thread_count, Some(16));
    assert_eq!(ms[0].updated_at_ms, 77);
    assert_eq!(ms[1].desired_thread_count, Some(2));
    assert_eq!(ms[2].updated_at_ms, 0);
}

#[test]
fn throughput_drop_decreases_target() {
    let s = automatic(AdaptiveProfile::Balanced, 16);
    let mut ms = vec![task(Some(8), Some(8))];
    let mut cs = vec![AdaptiveCounters { recent_penalty: true, consecutive_good_samples: 3, consecutive_bad_samples: 1 }];
    let out = Scheduler.update_adaptive_targets(&mut ms, &mut cs, &vec![signal(false, true, false, 6)], &s, false, 5);
    assert_eq!(out, vec![AdaptiveOutcome::Decreased]);
    assert_eq!(ms[0].desired_thread_count, Some(6));
    assert_eq!(ms[0].updated_at_ms, 5);
    assert_eq!(
        cs[0],
        AdaptiveCounters { recent_penalty: false, consecutive_good_samples: 0, consecutive_bad_samples: 2 }
    );
}

#[test]
fn conservative_profile_decreases_after_penalty() {
    let s = automatic(AdaptiveProfile::Conservative, 16);
    let mut ms = vec![task(Some(4), Some(4))];
    let mut cs = vec![AdaptiveCounters { recent_penalty: true, consecutive_good_samples: 0, consecutive_bad_samples: 0 }];
    let out = Scheduler.update_adaptive_targets(&mut ms, &mut cs, &vec![signal(false, false, true, 3)], &s, false, 5);
    assert_eq!(out, vec![AdaptiveOutcome::Decreased]);
    assert_eq!(ms[0].desired_thread_count, Some(3));
}

#[test]
fn single_thread_is_never_decreased() {
    let s = automatic(AdaptiveProfile::Balanced, 16);
    let mut ms = vec![task(Some(1), Some(1))];
    let mut cs = vec![counters()];
    let out = Scheduler.update_adaptive_targets(&mut ms, &mut cs, &vec![signal(false, true, false, 1)], &s, false, 5);
    assert_eq!(out, vec![AdaptiveOutcome::Sampled]);
    assert_eq!(ms[0].desired_thread_count, Some(1));
}

#[test]
fn improvement_adds_one_thread_up_to_cap() {
    let s = automatic(AdaptiveProfile::Balanced, 5);
    let mut ms = vec![task(Some(4), Some(4)), task(Some(5), Some(5))];
    let mut cs = vec![counters(); 2];
    let sig = vec![signal(false, false, true, 0); 2];
    let out = Scheduler.update_adaptive_targets(&mut ms, &mut cs, &sig, &s, false, 9);
    assert_eq!(out, vec![AdaptiveOutcome::Sampled; 2]);
    assert_eq!(ms[0].desired_thread_count, Some(5));
    assert_eq!(ms[1].desired_thread_count, Some(5));
    assert_eq!(cs[0].consecutive_good_samples, 0);
}

#[test]
fn conservative_profile_needs_two_good_samples() {
    let s = automatic(AdaptiveProfile::Conservative, 16);
    let mut ms = vec![task(Some(4), Some(4))];
    let mut cs = vec![counters()];
    let sig = vec![signal(false, false, true, 0)];
    Scheduler.update_adaptive_targets(&mut ms, &mut cs, &sig, &s, false, 1);
    assert_eq!(ms[0].desired_thread_count, Some(4));
    assert_eq!(cs[0].consecutive_good_samples, 1);
    Scheduler.update_adaptive_targets(&mut ms, &mut cs, &sig, &s, false, 2);
    assert_eq!(ms[0].desired_thread_count, Some(5));
    assert_eq!(cs[0].consecutive_good_samples, 0);
}

#[test]
fn no_increase_until_allocation_caught_up() {
    let s = automatic(AdaptiveProfile::Aggressive, 16);
    let mut ms = vec![task(Some(6), Some(4))];
    let mut cs = vec![counters()];
    Scheduler.update_adaptive_targets(&mut ms, &mut cs, &vec![signal(false, false, true, 0)], &s, false, 1);
    assert_eq!(ms[0].desired_thread_count, Some(6));
}

#[test]
fn cooldown_only_clears_penalty() {
    let s = automatic(AdaptiveProfile::Conservative, 16);
    let mut ms = vec![task(Some(4), Some(4))];
    let mut cs = vec![AdaptiveCounters { recent_penalty: true, consecutive_good_samples: 1, consecutive_bad_samples: 2 }];
    let out = Scheduler.update_adaptive_targets(&mut ms, &mut cs, &vec![signal(true, true, true, 1)], &s, false, 1);
    assert_eq!(out, vec![AdaptiveOutcome::CoolingDown]);
    assert_eq!(ms[0].desired_thread_count, Some(4));
    assert_eq!(
        cs[0],
        AdaptiveCounters { recent_penalty: false, consecutive_good_samples: 1, consecutive_bad_samples: 2 }
    );
}
