//! Thread allocation across downloads: per-task caps, the traditional
//! (task-slot) policy and the automatic (thread-budget) policy, both with a
//! cap on connections per host.
use vstd::prelude::*;

use crate::allocation::{
    lemma_auto_allocation_laws, lemma_traditional_allocation_laws, lemma_zero_sums, plan_automatic, plan_traditional,
    processing_order, spec_auto_allocation, spec_count_running, spec_host_sum, spec_hosts_in_range,
    spec_host_share, spec_order_of, spec_sum, spec_traditional_allocation, AllocationTask,
};
use crate::manifest::Manifest;
use crate::text::str_equals;
use crate::types::{AdaptiveProfile, AppSettings, DownloadState, ProxyMode, SchedulerMode, ThreadMode};
use crate::urls::{opt_view, parse_url, spec_url_parse};

verus! {

/// Default thread count of a fixed-thread download.
pub const DEFAULT_FIXED_THREADS: usize = 8;

/// Upper bound on threads of one task in traditional mode.
pub const MAX_TRADITIONAL_THREADS: usize = 32;

/// Maximum concurrent connections (threads) to a single hostname.
pub const MAX_CONNECTIONS_PER_HOST: usize = 6;

/// The scheduler actor; its decisions are the functions of this module.
pub struct Scheduler;

// ── Per-task caps ────────────────────────────────────────────────────

pub open spec fn spec_remaining_bytes(m: Manifest) -> u64 {
    let total = match m.total_bytes {
        Some(t) => t,
        None => m.downloaded_bytes,
    };
    if total > m.downloaded_bytes { (total - m.downloaded_bytes) as u64 } else { 0 }
}

/// Bytes still to download; 0 when the size is unknown or already reached.
pub fn remaining_bytes(manifest: &Manifest) -> (r: u64)
    ensures
        r == spec_remaining_bytes(*manifest),
{
    let total = match manifest.total_bytes {
        Some(t) => t,
        None => manifest.downloaded_bytes,
    };
    total.saturating_sub(manifest.downloaded_bytes)
}

pub open spec fn spec_automatic_task_cap(settings: AppSettings) -> usize {
    if settings.scheduler.automatic.max_threads_per_task > 1 {
        settings.scheduler.automatic.max_threads_per_task
    } else {
        1
    }
}

/// Per-task thread cap of automatic mode: the configured maximum, at least 1.
pub fn effective_automatic_task_cap(settings: &AppSettings) -> (r: usize)
    ensures
        r == spec_automatic_task_cap(*settings),
        r >= 1,
{
    let m = settings.scheduler.automatic.max_threads_per_task;
    if m > 1 { m } else { 1 }
}

pub open spec fn spec_clamp_usize(v: usize, lo: usize, hi: usize) -> usize {
    if v < lo { lo } else if v > hi { hi } else { v }
}

pub open spec fn spec_allocation_cap(m: Manifest, settings: AppSettings) -> usize {
    if !m.supports_ranges {
        1
    } else {
        match settings.scheduler.mode {
            SchedulerMode::Traditional => {
                let wanted = match m.requested_thread_count {
                    Some(n) => n,
                    None => match m.desired_thread_count {
                        Some(n) => n,
                        None => DEFAULT_FIXED_THREADS,
                    },
                };
                spec_clamp_usize(wanted, 1, MAX_TRADITIONAL_THREADS)
            },
            SchedulerMode::Automatic => {
                let wanted = match m.thread_mode {
                    ThreadMode::Fixed => match m.requested_thread_count {
                        Some(n) => n,
                        None => 1,
                    },
                    ThreadMode::Adaptive => match m.desired_thread_count {
                        Some(n) => n,
                        None => 1,
                    },
                };
                spec_clamp_usize(wanted, 1, spec_automatic_task_cap(settings))
            },
        }
    }
}

/// Most threads a task may be given: 1 without range support; otherwise
/// its requested (traditional) or desired/requested (automatic) count,
/// clamped to the mode's limit.
pub fn effective_allocation_cap(manifest: &Manifest, settings: &AppSettings) -> (r: usize)
    ensures
        r == spec_allocation_cap(*manifest, *settings),
        r >= 1,
{
    if !manifest.supports_ranges {
        return 1;
    }
    match settings.scheduler.mode {
        SchedulerMode::Traditional => {
            let wanted = match manifest.requested_thread_count {
                Some(n) => n,
                None => match manifest.desired_thread_count {
                    Some(n) => n,
                    None => DEFAULT_FIXED_THREADS,
                },
            };
            if wanted < 1 { 1 } else if wanted > MAX_TRADITIONAL_THREADS { MAX_TRADITIONAL_THREADS } else { wanted }
        },
        SchedulerMode::Automatic => {
            let wanted = match manifest.thread_mode {
                ThreadMode::Fixed => match manifest.requested_thread_count {
                    Some(n) => n,
                    None => 1,
                },
                ThreadMode::Adaptive => match manifest.desired_thread_count {
                    Some(n) => n,
                    None => 1,
                },
            };
            let cap = effective_automatic_task_cap(settings);
            if wanted < 1 { 1 } else if wanted > cap { cap } else { wanted }
        },
    }
}

/// The host of a download's final URL, if it parses and has one.
pub open spec fn spec_hostname(m: Manifest) -> Option<Seq<char>> {
    match spec_url_parse(m.final_url@) {
        Ok(u) => u.2,
        Err(_) => None,
    }
}

/// Host name of the download's final URL, used for the per-host connection cap.
pub fn hostname_from_manifest(manifest: &Manifest) -> (r: Option<String>)
    ensures
        opt_view(r) == spec_hostname(*manifest),
{
    match parse_url(manifest.final_url.as_str()) {
        Ok(parts) => parts.host,
        Err(_) => None,
    }
}


// ── Rebalancing ──────────────────────────────────────────────────────

/// Paused, completed, failed, canceled and verifying downloads take no threads.
pub open spec fn spec_inactive(state: DownloadState) -> bool {
    match state {
        DownloadState::Paused | DownloadState::Completed | DownloadState::Failed | DownloadState::Canceled
        | DownloadState::Verifying => true,
        _ => false,
    }
}

fn is_inactive(state: DownloadState) -> (r: bool)
    ensures
        r == spec_inactive(state),
{
    match state {
        DownloadState::Paused | DownloadState::Completed | DownloadState::Failed | DownloadState::Canceled
        | DownloadState::Verifying => true,
        _ => false,
    }
}

/// Host name of each download.
pub open spec fn spec_hosts(ms: Seq<Manifest>) -> Seq<Option<Seq<char>>> {
    Seq::new(ms.len(), |i: int| spec_hostname(ms[i]))
}

/// First index in `[k, i]` whose host equals the host of download `i`.
pub open spec fn spec_first_equal(hosts: Seq<Option<Seq<char>>>, i: int, k: int) -> int
    decreases i - k,
{
    if k >= i {
        i
    } else if hosts[k] == hosts[i] {
        k
    } else {
        spec_first_equal(hosts, i, k + 1)
    }
}

proof fn lemma_first_equal_bounds(hosts: Seq<Option<Seq<char>>>, i: int, k: int)
    requires
        0 <= k <= i,
    ensures
        k <= spec_first_equal(hosts, i, k) <= i,
    decreases i - k,
{
    if k < i && hosts[k] != hosts[i] {
        lemma_first_equal_bounds(hosts, i, k + 1);
    }
}

/// Host group of download `i`: the first download with the same host name.
pub open spec fn spec_host_group(hosts: Seq<Option<Seq<char>>>, i: int) -> Option<usize> {
    if hosts[i] is Some {
        Some(spec_first_equal(hosts, i, 0) as usize)
    } else {
        None
    }
}

/// The allocator's view of the downloads under `settings`.
pub open spec fn spec_allocation_tasks(ms: Seq<Manifest>, settings: AppSettings) -> Seq<AllocationTask> {
    Seq::new(
        ms.len(),
        |i: int|
            AllocationTask {
                inactive: spec_inactive(ms[i].state),
                cap: spec_allocation_cap(ms[i], settings),
                host: spec_host_group(spec_hosts(ms), i),
                key: match settings.scheduler.mode {
                    SchedulerMode::Traditional => ms[i].created_at_ms,
                    SchedulerMode::Automatic => spec_remaining_bytes(ms[i]),
                },
            },
    )
}

/// Minimum share of the automatic policy: the configured value, at least 1.
pub open spec fn spec_min_per_task(settings: AppSettings) -> usize {
    if settings.scheduler.automatic.min_threads_per_task > 1 {
        settings.scheduler.automatic.min_threads_per_task
    } else {
        1
    }
}

/// Threads each download gets: traditional mode walks the downloads by
/// creation time; automatic mode walks the active ones largest-remaining first.
pub open spec fn spec_allocations(ms: Seq<Manifest>, settings: AppSettings) -> Seq<usize> {
    let tasks = spec_allocation_tasks(ms, settings);
    match settings.scheduler.mode {
        SchedulerMode::Traditional => spec_traditional_allocation(
            tasks,
            spec_order_of(tasks, false, false),
            ms.len(),
            settings.scheduler.traditional.max_parallel_tasks,
        ).allocs,
        SchedulerMode::Automatic => spec_auto_allocation(
            tasks,
            spec_order_of(tasks, true, true),
            ms.len(),
            settings.scheduler.automatic.max_parallel_threads,
            spec_min_per_task(settings),
        ).allocs,
    }
}

/// A download after rebalancing with `alloc` threads at time `now`.
pub open spec fn spec_rebalanced(m: Manifest, alloc: usize, mode: SchedulerMode, now: u64) -> Manifest {
    if spec_inactive(m.state) {
        match mode {
            SchedulerMode::Traditional => Manifest { allocated_thread_count: Some(0), connection_count: 0, ..m },
            SchedulerMode::Automatic => Manifest {
                allocated_thread_count: Some(0),
                connection_count: 0,
                updated_at_ms: now,
                ..m
            },
        }
    } else if alloc == 0 {
        Manifest {
            allocated_thread_count: Some(0),
            connection_count: 0,
            state: DownloadState::Queued,
            updated_at_ms: now,
            ..m
        }
    } else {
        Manifest {
            allocated_thread_count: Some(alloc),
            connection_count: alloc,
            state: if mode == SchedulerMode::Automatic && m.state == DownloadState::Retrying {
                DownloadState::Retrying
            } else {
                DownloadState::Downloading
            },
            updated_at_ms: now,
            ..m
        }
    }
}

fn apply_allocation(m: &mut Manifest, alloc: usize, mode: SchedulerMode, now: u64)
    ensures
        *final(m) == spec_rebalanced(*old(m), alloc, mode, now),
{
    if is_inactive(m.state) {
        m.allocated_thread_count = Some(0);
        m.connection_count = 0;
        match mode {
            SchedulerMode::Traditional => {},
            SchedulerMode::Automatic => {
                m.updated_at_ms = now;
            },
        }
    } else if alloc == 0 {
        m.allocated_thread_count = Some(0);
        m.connection_count = 0;
        m.state = DownloadState::Queued;
        m.updated_at_ms = now;
    } else {
        m.allocated_thread_count = Some(alloc);
        m.connection_count = alloc;
        let keep_retrying = match (mode, m.state) {
            (SchedulerMode::Automatic, DownloadState::Retrying) => true,
            _ => false,
        };
        if !keep_retrying {
            m.state = DownloadState::Downloading;
        }
        m.updated_at_ms = now;
    }
}

fn same_host(a: &Option<String>, b: &Option<String>) -> (r: bool)
    ensures
        r == (opt_view(*a) == opt_view(*b)),
{
    match (a, b) {
        (Some(x), Some(y)) => str_equals(x.as_str(), y.as_str()),
        (None, None) => true,
        _ => false,
    }
}

/// The allocator's view of the downloads (`spec_allocation_tasks`).
fn allocation_tasks(manifests: &Vec<Manifest>, settings: &AppSettings) -> (tasks: Vec<AllocationTask>)
    ensures
        tasks@ == spec_allocation_tasks(manifests@, *settings),
        spec_hosts_in_range(tasks@, manifests@.len()),
{
    let ghost ms = manifests@;
    let ghost hosts = spec_hosts(ms);
    let mut names: Vec<Option<String>> = Vec::new();
    let mut i: usize = 0;
    while i < manifests.len()
        invariant
            i <= ms.len(),
            ms == manifests@,
            hosts == spec_hosts(ms),
            names@.len() == i,
            forall|j: int| 0 <= j < i ==> opt_view(#[trigger] names@[j]) == hosts[j],
        decreases ms.len() - i,
    {
        let h = hostname_from_manifest(&manifests[i]);
        names.push(h);
        i = i + 1;
    }
    let mut tasks: Vec<AllocationTask> = Vec::new();
    let mut i: usize = 0;
    while i < manifests.len()
        invariant
            i <= ms.len(),
            ms == manifests@,
            hosts == spec_hosts(ms),
            names@.len() == ms.len(),
            forall|j: int| 0 <= j < ms.len() ==> opt_view(#[trigger] names@[j]) == hosts[j],
            tasks@.len() == i,
            forall|j: int| 0 <= j < i ==> tasks@[j] == #[trigger] spec_allocation_tasks(ms, *settings)[j],
        decreases ms.len() - i,
    {
        let host = match &names[i] {
            None => None,
            Some(_) => {
                let mut k: usize = 0;
                while k < i && !same_host(&names[k], &names[i])
                    invariant
                        k <= i,
                        i < ms.len(),
                        names@.len() == ms.len(),
                        forall|j: int| 0 <= j < ms.len() ==> opt_view(#[trigger] names@[j]) == hosts[j],
                        spec_first_equal(hosts, i as int, 0) == spec_first_equal(hosts, i as int, k as int),
                    decreases i - k,
                {
                    k = k + 1;
                }
                Some(k)
            },
        };
        let m = &manifests[i];
        let key = match settings.scheduler.mode {
            SchedulerMode::Traditional => m.created_at_ms,
            SchedulerMode::Automatic => remaining_bytes(m),
        };
        let t = AllocationTask {
            inactive: is_inactive(m.state),
            cap: effective_allocation_cap(m, settings),
            host,
            key,
        };
        tasks.push(t);
        i = i + 1;
    }
    proof {
        assert(tasks@ =~= spec_allocation_tasks(ms, *settings));
        assert forall|j: int| 0 <= j < tasks@.len() && (#[trigger] tasks@[j]).host is Some implies tasks@[j].host->0 < ms.len() by {
            lemma_first_equal_bounds(hosts, j, 0);
        }
    }
    tasks
}

/// `spec_first_equal` finds the first index from `k` whose host equals
/// that of download `i`.
proof fn lemma_first_equal_is_first(hosts: Seq<Option<Seq<char>>>, i: int, k: int)
    requires
        0 <= k <= i < hosts.len(),
    ensures
        hosts[spec_first_equal(hosts, i, k)] == hosts[i],
        forall|m: int| k <= m < spec_first_equal(hosts, i, k) ==> hosts[m] != hosts[i],
    decreases i - k,
{
    if k < i && hosts[k] != hosts[i] {
        lemma_first_equal_is_first(hosts, i, k + 1);
    }
}

/// Downloads with the same host name fall in the same host group.
proof fn lemma_same_host_same_group(hosts: Seq<Option<Seq<char>>>, i: int, j: int)
    requires
        0 <= i < hosts.len(),
        0 <= j < hosts.len(),
        hosts[i] == hosts[j],
    ensures
        spec_first_equal(hosts, i, 0) == spec_first_equal(hosts, j, 0),
{
    lemma_first_equal_is_first(hosts, i, 0);
    lemma_first_equal_is_first(hosts, j, 0);
    lemma_first_equal_bounds(hosts, i, 0);
    lemma_first_equal_bounds(hosts, j, 0);
    let a = spec_first_equal(hosts, i, 0);
    let b = spec_first_equal(hosts, j, 0);
    if a < b {
        assert(hosts[a] == hosts[j]);
    } else if b < a {
        assert(hosts[b] == hosts[i]);
    }
}

/// The threads that allocations give the downloads whose URL has host `name`.
pub open spec fn spec_name_share(ms: Seq<Manifest>, allocs: Seq<usize>, name: Seq<char>) -> Seq<usize> {
    Seq::new(allocs.len(), |i: int| if spec_hostname(ms[i]) == Some(name) { allocs[i] } else { 0usize })
}

/// The per-host cap holds by host name: however the allocation went, the
/// downloads whose URL has the same host are given at most
/// `MAX_CONNECTIONS_PER_HOST` threads together, whenever their host group
/// is.
pub proof fn lemma_host_cap_by_name(ms: Seq<Manifest>, settings: AppSettings, allocs: Seq<usize>, name: Seq<char>)
    requires
        allocs.len() == ms.len(),
        ms.len() <= usize::MAX,
        forall|h: int| 0 <= h < ms.len() ==> spec_host_sum(allocs, spec_allocation_tasks(ms, settings), h)
            <= MAX_CONNECTIONS_PER_HOST,
    ensures
        spec_sum(spec_name_share(ms, allocs, name)) <= MAX_CONNECTIONS_PER_HOST,
{
    let hosts = spec_hosts(ms);
    let tasks = spec_allocation_tasks(ms, settings);
    let share = spec_name_share(ms, allocs, name);
    if exists|i: int| 0 <= i < ms.len() && spec_hostname(ms[i]) == Some(name) {
        let i0 = choose|i: int| 0 <= i < ms.len() && spec_hostname(ms[i]) == Some(name);
        let h = spec_first_equal(hosts, i0, 0);
        lemma_first_equal_bounds(hosts, i0, 0);
        assert(hosts[i0] == spec_hostname(ms[i0]));
        assert forall|i: int| 0 <= i < ms.len() implies #[trigger] share[i] == spec_host_share(allocs, tasks, h)[i] by {
            assert(hosts[i] == spec_hostname(ms[i]));
            assert(tasks[i].host == spec_host_group(hosts, i));
            lemma_first_equal_bounds(hosts, i, 0);
            if spec_hostname(ms[i]) == Some(name) {
                lemma_same_host_same_group(hosts, i, i0);
            } else if hosts[i] is Some {
                lemma_first_equal_is_first(hosts, i, 0);
                lemma_first_equal_is_first(hosts, i0, 0);
                lemma_first_equal_bounds(hosts, i, 0);
                if spec_first_equal(hosts, i, 0) == h {
                    assert(hosts[h] == hosts[i]);
                    assert(hosts[h] == hosts[i0]);
                }
            }
        }
        assert(share =~= spec_host_share(allocs, tasks, h));
        assert(spec_host_sum(allocs, tasks, h) <= MAX_CONNECTIONS_PER_HOST);
    } else {
        lemma_zero_sums(ms.len());
        assert(share =~= Seq::new(ms.len(), |i: int| 0usize));
    }
}

impl Scheduler {
    /// Recomputes every download's thread allocation and state
    /// (`spec_allocations`, `spec_rebalanced`) at time `now_ms`. The
    /// allocation keeps the limits: the thread budget (automatic mode) or
    /// the task slots (traditional mode), at most `MAX_CONNECTIONS_PER_HOST`
    /// threads per host (by group and by host name), none for inactive
    /// downloads, and no download
    /// above its cap (`effective_allocation_cap`; at least 1 in traditional
    /// mode, at least the minimum threads per task in automatic mode).
    pub fn rebalance_allocations(&self, manifests: &mut Vec<Manifest>, settings: &AppSettings, now_ms: u64)
        ensures
            final(manifests)@.len() == old(manifests)@.len(),
            ({
                let allocs = spec_allocations(old(manifests)@, *settings);
                let tasks = spec_allocation_tasks(old(manifests)@, *settings);
                &&& allocs.len() == old(manifests)@.len()
                &&& settings.scheduler.mode == SchedulerMode::Automatic ==> spec_sum(allocs)
                    <= settings.scheduler.automatic.max_parallel_threads
                &&& settings.scheduler.mode == SchedulerMode::Traditional ==> spec_count_running(allocs)
                    <= settings.scheduler.traditional.max_parallel_tasks
                &&& forall|h: int| 0 <= h < old(manifests)@.len() ==> spec_host_sum(allocs, tasks, h)
                    <= MAX_CONNECTIONS_PER_HOST
                &&& forall|name: Seq<char>| #[trigger] spec_sum(spec_name_share(old(manifests)@, allocs, name))
                    <= MAX_CONNECTIONS_PER_HOST
                &&& forall|i: int| 0 <= i < old(manifests)@.len() && spec_inactive(old(manifests)@[i].state)
                    ==> #[trigger] allocs[i] == 0
                &&& settings.scheduler.mode == SchedulerMode::Traditional ==> forall|i: int|
                    0 <= i < old(manifests)@.len() ==> #[trigger] allocs[i] <= (if tasks[i].cap > 1 { tasks[i].cap } else { 1 })
                &&& settings.scheduler.mode == SchedulerMode::Automatic ==> forall|i: int|
                    0 <= i < old(manifests)@.len() ==> #[trigger] allocs[i] <= ({
                        let m = settings.scheduler.automatic.min_threads_per_task;
                        let min_per_task: usize = if m > 1 { m } else { 1 };
                        if tasks[i].cap > min_per_task { tasks[i].cap } else { min_per_task }
                    })
            }),
            forall|i: int|
                0 <= i < old(manifests)@.len() ==> final(manifests)@[i] == spec_rebalanced(
                    old(manifests)@[i],
                    #[trigger] spec_allocations(old(manifests)@, *settings)[i],
                    settings.scheduler.mode,
                    now_ms,
                ),
    {
        let tasks = allocation_tasks(manifests, settings);
        let n = manifests.len();
        let allocs = match settings.scheduler.mode {
            SchedulerMode::Traditional => {
                let order = processing_order(&tasks, false, false);
                proof {
                    lemma_traditional_allocation_laws(tasks@, order@, n as nat, settings.scheduler.traditional.max_parallel_tasks);
                }
                plan_traditional(&tasks, &order, n, settings.scheduler.traditional.max_parallel_tasks)
            },
            SchedulerMode::Automatic => {
                let order = processing_order(&tasks, true, true);
                let m = settings.scheduler.automatic.min_threads_per_task;
                let min_per_task = if m > 1 { m } else { 1 };
                proof {
                    lemma_auto_allocation_laws(tasks@, order@, n as nat, settings.scheduler.automatic.max_parallel_threads, min_per_task);
                }
                plan_automatic(&tasks, &order, n, settings.scheduler.automatic.max_parallel_threads, min_per_task)
            },
        };
        let ghost old_ms = manifests@;
        let ghost expected = spec_allocations(old_ms, *settings);
        assert(allocs@ == expected);
        proof {
            let tasks_spec = spec_allocation_tasks(old_ms, *settings);
            assert(forall|h: int| 0 <= h < old_ms.len() ==> spec_host_sum(expected, tasks_spec, h)
                <= MAX_CONNECTIONS_PER_HOST);
            assert forall|name: Seq<char>| #[trigger] spec_sum(spec_name_share(old_ms, expected, name))
                <= MAX_CONNECTIONS_PER_HOST by {
                lemma_host_cap_by_name(old_ms, *settings, expected, name);
            }
        }
        let mut i: usize = 0;
        while i < manifests.len()
            invariant
                i <= old_ms.len(),
                manifests@.len() == old_ms.len(),
                allocs@ == expected,
                allocs@.len() == old_ms.len(),
                forall|j: int| 0 <= j < i ==> manifests@[j] == spec_rebalanced(old_ms[j], #[trigger] expected[j], settings.scheduler.mode, now_ms),
                forall|j: int| i <= j < old_ms.len() ==> #[trigger] manifests@[j] == old_ms[j],
            decreases old_ms.len() - i,
        {
            apply_allocation(&mut manifests[i], allocs[i], settings.scheduler.mode, now_ms);
            i = i + 1;
        }
    }
}


// ── Adaptive thread targets ──────────────────────────────────────────

/// Adaptive targets are tuned only in automatic mode without a proxy.
pub open spec fn spec_adaptive_enabled(s: AppSettings) -> bool {
    s.scheduler.mode == SchedulerMode::Automatic && s.proxy.mode == ProxyMode::Disabled
}

/// Whether the adaptive controller runs under these settings.
pub fn adaptive_tuning_enabled(settings: &AppSettings) -> (r: bool)
    ensures
        r == spec_adaptive_enabled(*settings),
{
    let automatic = match settings.scheduler.mode {
        SchedulerMode::Automatic => true,
        SchedulerMode::Traditional => false,
    };
    let no_proxy = match settings.proxy.mode {
        ProxyMode::Disabled => true,
        _ => false,
    };
    automatic && no_proxy
}

/// A task whose thread target the adaptive controller tunes: adaptive,
/// downloading and served with ranges.
pub open spec fn spec_adaptive_candidate(m: Manifest) -> bool {
    m.thread_mode == ThreadMode::Adaptive && m.state == DownloadState::Downloading && m.supports_ranges
}

/// Whether the adaptive controller tunes a download.
pub fn is_adaptive_candidate(m: &Manifest) -> (r: bool)
    ensures
        r == spec_adaptive_candidate(*m),
{
    let adaptive = match m.thread_mode {
        ThreadMode::Adaptive => true,
        _ => false,
    };
    let downloading = match m.state {
        DownloadState::Downloading => true,
        _ => false,
    };
    adaptive && downloading && m.supports_ranges
}

/// Overclock mode pins every adaptive candidate at the per-task cap.
pub open spec fn spec_pinned(m: Manifest, cap: usize, now: u64) -> Manifest {
    if spec_adaptive_candidate(m) && m.desired_thread_count != Some(cap) {
        Manifest { desired_thread_count: Some(cap), updated_at_ms: now, ..m }
    } else {
        m
    }
}

/// The profile a task is tuned with: its snapshot, else the configured one.
pub open spec fn spec_task_profile(m: Manifest, s: AppSettings) -> AdaptiveProfile {
    match m.adaptive_profile_snapshot {
        Some(p) => p,
        None => s.scheduler.automatic.adaptive_profile,
    }
}

/// The current target of a task: its desired thread count, at least 1.
pub open spec fn spec_current_target(m: Manifest) -> usize {
    match m.desired_thread_count {
        Some(d) if d > 1 => d,
        _ => 1,
    }
}

/// Consecutive good samples a profile needs before it adds a thread.
pub open spec fn spec_samples_needed(p: AdaptiveProfile) -> u32 {
    match p {
        AdaptiveProfile::Conservative => 2,
        AdaptiveProfile::Balanced => 1,
        AdaptiveProfile::Aggressive => 1,
    }
}

/// Consecutive good samples a profile needs before it adds a thread.
pub fn samples_needed(profile: AdaptiveProfile) -> (n: u32)
    ensures
        n == spec_samples_needed(profile),
{
    match profile {
        AdaptiveProfile::Conservative => 2,
        AdaptiveProfile::Balanced => 1,
        AdaptiveProfile::Aggressive => 1,
    }
}

/// A task with more than one thread gives one up after a throughput drop
/// (the conservative profile also after a recent penalty).
pub open spec fn spec_should_decrease(current: usize, p: AdaptiveProfile, recent_penalty: bool, drop: bool) -> bool {
    current > 1 && match p {
        AdaptiveProfile::Conservative => recent_penalty || drop,
        _ => drop,
    }
}

/// What the controller measured for one task in this round. The
/// throughput comparisons are made by the caller on its measurements.
#[derive(Clone, Copy, Debug, PartialEq, Eq, Structural)]
pub struct AdaptiveSignal {
    /// The task's cooldown after its last decrease has not ended.
    pub in_cooldown: bool,
    /// Throughput fell below the last sample by more than the profile's
    /// degrade threshold.
    pub throughput_drop: bool,
    /// Throughput rose above the last sample by the profile's increase
    /// threshold, or there is no earlier sample.
    pub improved: bool,
    /// The decreased target the controller proposes for the current one.
    pub reduced_threads: usize,
}

/// The controller's counters of one task.
#[derive(Clone, Copy, Debug, PartialEq, Eq, Structural)]
pub struct AdaptiveCounters {
    pub recent_penalty: bool,
    pub consecutive_good_samples: u32,
    pub consecutive_bad_samples: u32,
}

/// What happened to one task in an adaptive round; the caller starts a
/// cooldown after `Decreased` and keeps the throughput sample after
/// `Decreased` and `Sampled`.
#[derive(Clone, Copy, Debug, PartialEq, Eq, Structural)]
pub enum AdaptiveOutcome {
    Skipped,
    CoolingDown,
    Decreased,
    Sampled,
}

pub open spec fn spec_sat_inc(x: u32) -> u32 {
    if x == u32::MAX { x } else { (x + 1) as u32 }
}

/// One adaptive step of one task: its manifest, its counters and the outcome.
pub open spec fn spec_adaptive_step(
    m: Manifest,
    c: AdaptiveCounters,
    sig: AdaptiveSignal,
    s: AppSettings,
    now: u64,
) -> (Manifest, AdaptiveCounters, AdaptiveOutcome) {
    let p = spec_task_profile(m, s);
    let current = spec_current_target(m);
    let allocated: int = match m.allocated_thread_count {
        Some(a) => a as int,
        None => 0,
    };
    let cap = spec_automatic_task_cap(s);
    let calm = AdaptiveCounters { recent_penalty: false, ..c };
    if !spec_adaptive_candidate(m) {
        (m, c, AdaptiveOutcome::Skipped)
    } else if sig.in_cooldown {
        (m, calm, AdaptiveOutcome::CoolingDown)
    } else if spec_should_decrease(current, p, c.recent_penalty, sig.throughput_drop) {
        (
            Manifest { desired_thread_count: Some(sig.reduced_threads), updated_at_ms: now, ..m },
            AdaptiveCounters {
                recent_penalty: false,
                consecutive_good_samples: 0,
                consecutive_bad_samples: spec_sat_inc(c.consecutive_bad_samples),
            },
            AdaptiveOutcome::Decreased,
        )
    } else if allocated == current && sig.improved {
        let good = spec_sat_inc(c.consecutive_good_samples);
        if good >= spec_samples_needed(p) {
            let next: usize = if current < cap { (current + 1) as usize } else { cap };
            (
                Manifest { desired_thread_count: Some(next), updated_at_ms: now, ..m },
                AdaptiveCounters { recent_penalty: false, consecutive_good_samples: 0, consecutive_bad_samples: 0 },
                AdaptiveOutcome::Sampled,
            )
        } else {
            (
                m,
                AdaptiveCounters { recent_penalty: false, consecutive_good_samples: good, consecutive_bad_samples: 0 },
                AdaptiveOutcome::Sampled,
            )
        }
    } else {
        (m, calm, AdaptiveOutcome::Sampled)
    }
}

fn adaptive_step(
    m: &mut Manifest,
    c: &mut AdaptiveCounters,
    sig: &AdaptiveSignal,
    settings: &AppSettings,
    now: u64,
) -> (r: AdaptiveOutcome)
    ensures
        (*final(m), *final(c), r) == spec_adaptive_step(*old(m), *old(c), *sig, *settings, now),
{
    if !is_adaptive_candidate(m) {
        return AdaptiveOutcome::Skipped;
    }
    if sig.in_cooldown {
        c.recent_penalty = false;
        return AdaptiveOutcome::CoolingDown;
    }
    let profile = match m.adaptive_profile_snapshot {
        Some(p) => p,
        None => settings.scheduler.automatic.adaptive_profile,
    };
    let current: usize = match m.desired_thread_count {
        Some(d) => if d > 1 { d } else { 1 },
        None => 1,
    };
    let allocated: usize = match m.allocated_thread_count {
        Some(a) => a,
        None => 0,
    };
    let cap = effective_automatic_task_cap(settings);
    let decrease = current > 1 && match profile {
        AdaptiveProfile::Conservative => c.recent_penalty || sig.throughput_drop,
        _ => sig.throughput_drop,
    };
    if decrease {
        m.desired_thread_count = Some(sig.reduced_threads);
        m.updated_at_ms = now;
        c.recent_penalty = false;
        c.consecutive_good_samples = 0;
        c.consecutive_bad_samples = c.consecutive_bad_samples.saturating_add(1);
        return AdaptiveOutcome::Decreased;
    }
    if allocated == current && sig.improved {
        let good = c.consecutive_good_samples.saturating_add(1);
        c.consecutive_bad_samples = 0;
        c.recent_penalty = false;
        if good >= samples_needed(profile) {
            let next = if current < cap { current + 1 } else { cap };
            m.desired_thread_count = Some(next);
            m.updated_at_ms = now;
            c.consecutive_good_samples = 0;
        } else {
            c.consecutive_good_samples = good;
        }
        return AdaptiveOutcome::Sampled;
    }
    c.recent_penalty = false;
    AdaptiveOutcome::Sampled
}

fn pin_target(m: &mut Manifest, cap: usize, now: u64)
    ensures
        *final(m) == spec_pinned(*old(m), cap, now),
{
    if is_adaptive_candidate(m) {
        let differs = match m.desired_thread_count {
            Some(d) => d != cap,
            None => true,
        };
        if differs {
            m.desired_thread_count = Some(cap);
            m.updated_at_ms = now;
        }
    }
}

impl Scheduler {
    /// One round of the adaptive (AIMD) controller over all downloads,
    /// given for each task its counters and this round's measurements.
    /// Nothing changes unless adaptive tuning is enabled; in overclock mode
    /// every candidate is pinned at the per-task cap; otherwise each task
    /// takes one `spec_adaptive_step`.
    pub fn update_adaptive_targets(
        &self,
        manifests: &mut Vec<Manifest>,
        counters: &mut Vec<AdaptiveCounters>,
        signals: &Vec<AdaptiveSignal>,
        settings: &AppSettings,
        overclock: bool,
        now_ms: u64,
    ) -> (outcomes: Vec<AdaptiveOutcome>)
        requires
            old(counters)@.len() == old(manifests)@.len(),
            signals@.len() == old(manifests)@.len(),
        ensures
            final(manifests)@.len() == old(manifests)@.len(),
            final(counters)@.len() == old(manifests)@.len(),
            outcomes@.len() == old(manifests)@.len(),
            !spec_adaptive_enabled(*settings) ==> {
                &&& final(manifests)@ == old(manifests)@
                &&& final(counters)@ == old(counters)@
                &&& forall|i: int| 0 <= i < outcomes@.len() ==> #[trigger] outcomes@[i] == AdaptiveOutcome::Skipped
            },
            spec_adaptive_enabled(*settings) && overclock ==> {
                &&& final(counters)@ == old(counters)@
                &&& forall|i: int|
                    0 <= i < old(manifests)@.len() ==> #[trigger] final(manifests)@[i] == spec_pinned(
                        old(manifests)@[i],
                        spec_automatic_task_cap(*settings),
                        now_ms,
                    )
                &&& forall|i: int| 0 <= i < outcomes@.len() ==> #[trigger] outcomes@[i] == AdaptiveOutcome::Skipped
            },
            spec_adaptive_enabled(*settings) && !overclock ==> forall|i: int|
                0 <= i < old(manifests)@.len() ==> (
                    #[trigger] final(manifests)@[i],
                    final(counters)@[i],
                    outcomes@[i],
                ) == spec_adaptive_step(old(manifests)@[i], old(counters)@[i], signals@[i], *settings, now_ms),
    {
        let n = manifests.len();
        let ghost old_ms = manifests@;
        let ghost old_cs = counters@;
        let mut outcomes: Vec<AdaptiveOutcome> = Vec::new();
        if !adaptive_tuning_enabled(settings) {
            let mut k: usize = 0;
            while k < n
                invariant
                    k <= n,
                    outcomes@.len() == k,
                    forall|i: int| 0 <= i < k ==> #[trigger] outcomes@[i] == AdaptiveOutcome::Skipped,
                decreases n - k,
            {
                outcomes.push(AdaptiveOutcome::Skipped);
                k = k + 1;
            }
            return outcomes;
        }
        let cap = effective_automatic_task_cap(settings);
        if overclock {
            let mut i: usize = 0;
            while i < n
                invariant
                    i <= n,
                    n == old_ms.len(),
                    manifests@.len() == n,
                    counters@ == old_cs,
                    outcomes@.len() == i,
                    cap == spec_automatic_task_cap(*settings),
                    forall|j: int| 0 <= j < i ==> #[trigger] manifests@[j] == spec_pinned(old_ms[j], cap, now_ms),
                    forall|j: int| i <= j < n ==> #[trigger] manifests@[j] == old_ms[j],
                    forall|j: int| 0 <= j < i ==> #[trigger] outcomes@[j] == AdaptiveOutcome::Skipped,
                decreases n - i,
            {
                pin_target(&mut manifests[i], cap, now_ms);
                outcomes.push(AdaptiveOutcome::Skipped);
                i = i + 1;
            }
            return outcomes;
        }
        let mut i: usize = 0;
        while i < n
            invariant
                i <= n,
                n == old_ms.len(),
                manifests@.len() == n,
                counters@.len() == n,
                old_cs.len() == n,
                signals@.len() == n,
                outcomes@.len() == i,
                forall|j: int|
                    0 <= j < i ==> (#[trigger] manifests@[j], counters@[j], outcomes@[j]) == spec_adaptive_step(
                        old_ms[j],
                        old_cs[j],
                        signals@[j],
                        *settings,
                        now_ms,
                    ),
                forall|j: int| i <= j < n ==> #[trigger] manifests@[j] == old_ms[j],
                forall|j: int| i <= j < n ==> #[trigger] counters@[j] == old_cs[j],
            decreases n - i,
        {
            let out = adaptive_step(&mut manifests[i], &mut counters[i], &signals[i], settings, now_ms);
            outcomes.push(out);
            i = i + 1;
        }
        outcomes
    }
}

} // verus!
