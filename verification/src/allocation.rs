//! The thread allocation policies over plain task descriptions.
//!
//! Each task has a cap (most threads it can use), an optional host group
//! (tasks with equal host names share a group id), a sort key and whether
//! it is in a terminal or paused state. Hosts are limited to
//! `MAX_CONNECTIONS_PER_HOST` connections in total.
use vstd::prelude::*;

use crate::scheduler::MAX_CONNECTIONS_PER_HOST;

verus! {

/// What the allocator needs to know about one download.
#[derive(Clone, Copy, Debug, PartialEq, Eq, Structural)]
pub struct AllocationTask {
    /// Paused, completed, failed, canceled or verifying: gets no threads.
    pub inactive: bool,
    /// Most threads the download can take.
    pub cap: usize,
    /// Host group, when the URL has a host.
    pub host: Option<usize>,
    /// Ordering key: creation time (traditional) or remaining bytes (automatic).
    pub key: u64,
}

pub open spec fn spec_hosts_in_range(tasks: Seq<AllocationTask>, num_hosts: nat) -> bool {
    forall|i: int| 0 <= i < tasks.len() && (#[trigger] tasks[i]).host is Some ==> tasks[i].host->0 < num_hosts
}

// ── Processing order ─────────────────────────────────────────────────

/// Task `i` is handled before task `j`: ascending key with ties in input
/// order, or (descending) larger key first with ties in reverse input order.
pub open spec fn spec_before(tasks: Seq<AllocationTask>, descending: bool, i: int, j: int) -> bool {
    if descending {
        tasks[i].key > tasks[j].key || (tasks[i].key == tasks[j].key && i > j)
    } else {
        tasks[i].key < tasks[j].key || (tasks[i].key == tasks[j].key && i < j)
    }
}

/// `order` lists each selected task exactly once, in processing order.
pub open spec fn spec_is_order(tasks: Seq<AllocationTask>, descending: bool, select_active: bool, order: Seq<usize>) -> bool {
    &&& forall|p: int| 0 <= p < order.len() ==> (#[trigger] order[p]) < tasks.len()
    &&& forall|p: int| 0 <= p < order.len() ==> (select_active ==> !tasks[#[trigger] order[p] as int].inactive)
    &&& forall|i: int| 0 <= i < tasks.len() && (select_active ==> !(#[trigger] tasks[i]).inactive) ==> order.contains(i as usize)
    &&& forall|p: int, q: int| 0 <= p < q < order.len() ==> spec_before(tasks, descending, #[trigger] order[p] as int, #[trigger] order[q] as int)
}

fn before(tasks: &Vec<AllocationTask>, descending: bool, i: usize, j: usize) -> (r: bool)
    requires
        i < tasks@.len(),
        j < tasks@.len(),
    ensures
        r == spec_before(tasks@, descending, i as int, j as int),
{
    if descending {
        tasks[i].key > tasks[j].key || (tasks[i].key == tasks[j].key && i > j)
    } else {
        tasks[i].key < tasks[j].key || (tasks[i].key == tasks[j].key && i < j)
    }
}

/// The processing order of the tasks (only active ones when `select_active`).
pub fn processing_order(tasks: &Vec<AllocationTask>, descending: bool, select_active: bool) -> (order: Vec<usize>)
    ensures
        spec_is_order(tasks@, descending, select_active, order@),
        order@ == spec_order_of(tasks@, descending, select_active),
{
    let mut order: Vec<usize> = Vec::new();
    let mut i: usize = 0;
    while i < tasks.len()
        invariant
            i <= tasks@.len(),
            forall|p: int| 0 <= p < order@.len() ==> (#[trigger] order@[p]) < i,
            forall|p: int| 0 <= p < order@.len() ==> (select_active ==> !tasks@[#[trigger] order@[p] as int].inactive),
            forall|k: int| 0 <= k < i && (select_active ==> !(#[trigger] tasks@[k]).inactive) ==> order@.contains(k as usize),
            forall|p: int, q: int| 0 <= p < q < order@.len() ==> spec_before(tasks@, descending, #[trigger] order@[p] as int, #[trigger] order@[q] as int),
        decreases tasks@.len() - i,
    {
        if !select_active || !tasks[i].inactive {
            let mut p: usize = 0;
            while p < order.len() && before(tasks, descending, order[p], i)
                invariant
                    p <= order@.len(),
                    i < tasks@.len(),
                    forall|q: int| 0 <= q < order@.len() ==> (#[trigger] order@[q]) < i,
                    forall|q: int| 0 <= q < p ==> spec_before(tasks@, descending, #[trigger] order@[q] as int, i as int),
                decreases order@.len() - p,
            {
                p = p + 1;
            }
            let ghost old_order = order@;
            order.insert(p, i);
            proof {
                assert(order@ == old_order.insert(p as int, i));
                assert forall|a: int, b: int| 0 <= a < b < order@.len() implies spec_before(
                    tasks@,
                    descending,
                    #[trigger] order@[a] as int,
                    #[trigger] order@[b] as int,
                ) by {
                    if b < p {
                        assert(order@[a] == old_order[a] && order@[b] == old_order[b]);
                    } else if b == p {
                        assert(order@[a] == old_order[a]);
                    } else if a == p {
                        assert(order@[b] == old_order[b - 1]);
                        let x = old_order[b - 1] as int;
                        let y = old_order[p as int] as int;
                        if b - 1 > p {
                            assert(spec_before(tasks@, descending, y, x));
                        }
                        assert(!spec_before(tasks@, descending, y, i as int));
                    } else if a < p {
                        assert(order@[a] == old_order[a] && order@[b] == old_order[b - 1]);
                    } else {
                        assert(order@[a] == old_order[a - 1] && order@[b] == old_order[b - 1]);
                    }
                }
                assert forall|k: int| 0 <= k < i + 1 && (select_active ==> !(#[trigger] tasks@[k]).inactive) implies order@.contains(k as usize) by {
                    if k == i {
                        assert(order@[p as int] == i);
                    } else {
                        let w = choose|w: int| 0 <= w < old_order.len() && old_order[w] == k as usize;
                        if w < p {
                            assert(order@[w] == k as usize);
                        } else {
                            assert(order@[w + 1] == k as usize);
                        }
                    }
                }
            }
        } else {
            proof {
                assert forall|k: int| 0 <= k < i + 1 && (select_active ==> !(#[trigger] tasks@[k]).inactive) implies order@.contains(k as usize) by {
                    if k == i {
                        assert(false);
                    }
                }
            }
        }
        i = i + 1;
    }
    proof {
        assert(spec_is_order(tasks@, descending, select_active, order@));
        lemma_order_unique(tasks@, descending, select_active, order@, spec_order_of(tasks@, descending, select_active));
    }
    order
}

/// `o` is strictly sorted by the processing order.
pub open spec fn spec_sorted_by(tasks: Seq<AllocationTask>, descending: bool, o: Seq<usize>) -> bool {
    forall|p: int, q: int| 0 <= p < q < o.len() ==> spec_before(tasks, descending, #[trigger] o[p] as int, #[trigger] o[q] as int)
}

/// Two strictly sorted sequences with the same members are equal.
proof fn lemma_sorted_unique(tasks: Seq<AllocationTask>, descending: bool, o1: Seq<usize>, o2: Seq<usize>)
    requires
        spec_sorted_by(tasks, descending, o1),
        spec_sorted_by(tasks, descending, o2),
        forall|x: usize| o1.contains(x) <==> o2.contains(x),
    ensures
        o1 == o2,
    decreases o1.len(),
{
    if o1.len() == 0 {
        if o2.len() > 0 {
            assert(o2.contains(o2[0]));
        }
        assert(o1 =~= o2);
    } else {
        let a = o1[0];
        assert(o1.contains(a));
        assert(o2.contains(a));
        let b = o2[0];
        if a != b {
            let q = choose|q: int| 0 <= q < o2.len() && o2[q] == a;
            assert(q > 0);
            assert(spec_before(tasks, descending, o2[0] as int, o2[q] as int));
            assert(o1.contains(b));
            let r = choose|r: int| 0 <= r < o1.len() && o1[r] == b;
            assert(r > 0);
            assert(spec_before(tasks, descending, o1[0] as int, o1[r] as int));
            assert(false);
        }
        let t1 = o1.drop_first();
        let t2 = o2.drop_first();
        assert forall|x: usize| t1.contains(x) <==> t2.contains(x) by {
            if t1.contains(x) {
                let k = choose|k: int| 0 <= k < t1.len() && t1[k] == x;
                assert(o1[k + 1] == x);
                assert(spec_before(tasks, descending, o1[0] as int, o1[k + 1] as int));
                assert(o1.contains(x));
                let m = choose|m: int| 0 <= m < o2.len() && o2[m] == x;
                assert(m != 0);
                assert(t2[m - 1] == x);
            }
            if t2.contains(x) {
                let k = choose|k: int| 0 <= k < t2.len() && t2[k] == x;
                assert(o2[k + 1] == x);
                assert(spec_before(tasks, descending, o2[0] as int, o2[k + 1] as int));
                assert(o2.contains(x));
                let m = choose|m: int| 0 <= m < o1.len() && o1[m] == x;
                assert(m != 0);
                assert(t1[m - 1] == x);
            }
        }
        assert forall|p: int, q: int| 0 <= p < q < t1.len() implies spec_before(tasks, descending, #[trigger] t1[p] as int, #[trigger] t1[q] as int) by {
            assert(t1[p] == o1[p + 1] && t1[q] == o1[q + 1]);
        }
        assert forall|p: int, q: int| 0 <= p < q < t2.len() implies spec_before(tasks, descending, #[trigger] t2[p] as int, #[trigger] t2[q] as int) by {
            assert(t2[p] == o2[p + 1] && t2[q] == o2[q + 1]);
        }
        lemma_sorted_unique(tasks, descending, t1, t2);
        assert(o1 =~= o2) by {
            assert forall|i: int| 0 <= i < o1.len() implies o1[i] == o2[i] by {
                if i > 0 {
                    assert(o1[i] == t1[i - 1] && o2[i] == t2[i - 1]);
                }
            }
        }
    }
}

/// The processing order of the tasks (there is exactly one, see `lemma_order_unique`).
pub open spec fn spec_order_of(tasks: Seq<AllocationTask>, descending: bool, select_active: bool) -> Seq<usize> {
    choose|o: Seq<usize>| spec_is_order(tasks, descending, select_active, o)
}

/// There is at most one processing order of a task list.
pub proof fn lemma_order_unique(tasks: Seq<AllocationTask>, descending: bool, select_active: bool, o1: Seq<usize>, o2: Seq<usize>)
    requires
        spec_is_order(tasks, descending, select_active, o1),
        spec_is_order(tasks, descending, select_active, o2),
    ensures
        o1 == o2,
{
    assert forall|x: usize| o1.contains(x) <==> o2.contains(x) by {
        if o1.contains(x) {
            let k = choose|k: int| 0 <= k < o1.len() && o1[k] == x;
            assert(o1[k] < tasks.len());
            assert(select_active ==> !tasks[x as int].inactive);
        }
        if o2.contains(x) {
            let k = choose|k: int| 0 <= k < o2.len() && o2[k] == x;
            assert(o2[k] < tasks.len());
            assert(select_active ==> !tasks[x as int].inactive);
        }
    }
    lemma_sorted_unique(tasks, descending, o1, o2);
}

// ── Automatic policy ─────────────────────────────────────────────────

/// Allocation state: threads per task, connections per host, budget left.
pub struct AllocState {
    pub allocs: Seq<usize>,
    pub used: Seq<usize>,
    pub budget: usize,
}

/// Connections still available to a host.
pub open spec fn spec_host_room(used: usize) -> usize {
    if used < MAX_CONNECTIONS_PER_HOST { (MAX_CONNECTIONS_PER_HOST - used) as usize } else { 0 }
}

/// Minimum-share step of the automatic policy for task `i`: up to
/// `min_per_task` threads from the budget, limited by the host's room.
pub open spec fn spec_auto_start_step(st: AllocState, t: AllocationTask, i: int, min_per_task: usize) -> AllocState {
    if st.budget == 0 {
        AllocState { allocs: st.allocs.update(i, 0), ..st }
    } else {
        let start: usize = if st.budget >= min_per_task { min_per_task } else { st.budget };
        match t.host {
            Some(h) => {
                let capped: usize = if start < spec_host_room(st.used[h as int]) { start } else { spec_host_room(st.used[h as int]) };
                AllocState {
                    allocs: st.allocs.update(i, capped),
                    used: if capped > 0 { st.used.update(h as int, (st.used[h as int] + capped) as usize) } else { st.used },
                    budget: (st.budget - capped) as usize,
                }
            },
            None => AllocState {
                allocs: st.allocs.update(i, start),
                used: st.used,
                budget: (st.budget - start) as usize,
            },
        }
    }
}

/// State after the minimum-share pass over the first `k` tasks in order.
pub open spec fn spec_auto_start(tasks: Seq<AllocationTask>, order: Seq<usize>, k: int, init: AllocState, min_per_task: usize) -> AllocState
    decreases k,
{
    if k <= 0 {
        init
    } else {
        let prev = spec_auto_start(tasks, order, k - 1, init, min_per_task);
        spec_auto_start_step(prev, tasks[order[k - 1] as int], order[k - 1] as int, min_per_task)
    }
}

/// Task `i` can take one more thread: below its cap and its host has room.
pub open spec fn spec_can_grow(st: AllocState, t: AllocationTask, i: int) -> bool {
    st.allocs[i] < t.cap && match t.host {
        Some(h) => st.used[h as int] < MAX_CONNECTIONS_PER_HOST,
        None => true,
    }
}

/// One round-robin grant step for task `i` (nothing once the budget is spent).
pub open spec fn spec_grant_step(st: AllocState, t: AllocationTask, i: int) -> AllocState {
    if st.budget == 0 || !spec_can_grow(st, t, i) {
        st
    } else {
        AllocState {
            allocs: st.allocs.update(i, (st.allocs[i] + 1) as usize),
            used: match t.host {
                Some(h) => st.used.update(h as int, (st.used[h as int] + 1) as usize),
                None => st.used,
            },
            budget: (st.budget - 1) as usize,
        }
    }
}

/// State after one round-robin pass over the first `k` tasks in order.
pub open spec fn spec_grant_pass(tasks: Seq<AllocationTask>, order: Seq<usize>, k: int, st: AllocState) -> AllocState
    decreases k,
{
    if k <= 0 {
        st
    } else {
        let prev = spec_grant_pass(tasks, order, k - 1, st);
        spec_grant_step(prev, tasks[order[k - 1] as int], order[k - 1] as int)
    }
}

/// Round-robin passes repeat while the budget lasts and a pass grants something.
pub open spec fn spec_grant_all(tasks: Seq<AllocationTask>, order: Seq<usize>, st: AllocState) -> AllocState
    decreases st.budget,
{
    let next = spec_grant_pass(tasks, order, order.len() as int, st);
    if st.budget == 0 || next.budget >= st.budget {
        st
    } else {
        spec_grant_all(tasks, order, next)
    }
}

/// Threads each task gets under the automatic policy: a minimum share in
/// order (largest remaining size first), then single threads round-robin.
pub open spec fn spec_auto_allocation(tasks: Seq<AllocationTask>, order: Seq<usize>, num_hosts: nat, budget: usize, min_per_task: usize) -> AllocState {
    let init = AllocState { allocs: Seq::new(tasks.len(), |i: int| 0usize), used: Seq::new(num_hosts, |h: int| 0usize), budget };
    spec_grant_all(tasks, order, spec_auto_start(tasks, order, order.len() as int, init, min_per_task))
}


/// A grant pass never raises the budget, and leaves the state unchanged
/// when it spends nothing.
pub proof fn lemma_grant_pass_mono(tasks: Seq<AllocationTask>, order: Seq<usize>, k: int, st: AllocState)
    ensures
        spec_grant_pass(tasks, order, k, st).budget <= st.budget,
        spec_grant_pass(tasks, order, k, st).budget == st.budget ==> spec_grant_pass(tasks, order, k, st) == st,
    decreases k,
{
    if k > 0 {
        lemma_grant_pass_mono(tasks, order, k - 1, st);
    }
}

fn host_room(used: usize) -> (r: usize)
    ensures
        r == spec_host_room(used),
{
    if used < MAX_CONNECTIONS_PER_HOST { MAX_CONNECTIONS_PER_HOST - used } else { 0 }
}

pub open spec fn spec_state(allocs: Seq<usize>, used: Seq<usize>, budget: usize) -> AllocState {
    AllocState { allocs, used, budget }
}

/// Threads per task under the automatic policy (`spec_auto_allocation`).
pub fn plan_automatic(
    tasks: &Vec<AllocationTask>,
    order: &Vec<usize>,
    num_hosts: usize,
    budget: usize,
    min_per_task: usize,
) -> (allocs: Vec<usize>)
    requires
        spec_is_order(tasks@, true, true, order@),
        spec_hosts_in_range(tasks@, num_hosts as nat),
    ensures
        allocs@ == spec_auto_allocation(tasks@, order@, num_hosts as nat, budget, min_per_task).allocs,
{
    let ghost n = tasks@.len();
    let mut allocs: Vec<usize> = Vec::new();
    let mut i: usize = 0;
    while i < tasks.len()
        invariant
            i <= n,
            n == tasks@.len(),
            allocs@ == Seq::new(i as nat, |j: int| 0usize),
        decreases n - i,
    {
        allocs.push(0);
        i = i + 1;
    }
    let mut used: Vec<usize> = Vec::new();
    let mut h: usize = 0;
    while h < num_hosts
        invariant
            h <= num_hosts,
            used@ == Seq::new(h as nat, |j: int| 0usize),
        decreases num_hosts - h,
    {
        used.push(0);
        h = h + 1;
    }
    let ghost init = spec_state(allocs@, used@, budget);
    assert(init == AllocState { allocs: Seq::new(tasks@.len(), |i: int| 0usize), used: Seq::new(num_hosts as nat, |h: int| 0usize), budget });
    let mut remaining = budget;
    let mut k: usize = 0;
    while k < order.len()
        invariant
            k <= order@.len(),
            allocs@.len() == n,
            n == tasks@.len(),
            used@.len() == num_hosts,
            spec_is_order(tasks@, true, true, order@),
            spec_hosts_in_range(tasks@, num_hosts as nat),
            spec_state(allocs@, used@, remaining) == spec_auto_start(tasks@, order@, k as int, init, min_per_task),
            forall|x: int| 0 <= x < used@.len() ==> used@[x] <= MAX_CONNECTIONS_PER_HOST,
        decreases order@.len() - k,
    {
        let idx = order[k];
        assert(idx < n);
        if remaining == 0 {
            allocs.set(idx, 0);
        } else {
            let start = if remaining >= min_per_task { min_per_task } else { remaining };
            match tasks[idx].host {
                Some(hid) => {
                    assert(tasks@[idx as int].host is Some);
                    let room = host_room(used[hid]);
                    let capped = if start < room { start } else { room };
                    allocs.set(idx, capped);
                    if capped > 0 {
                        let nv = used[hid] + capped;
                        used.set(hid, nv);
                    }
                    remaining = remaining - capped;
                },
                None => {
                    allocs.set(idx, start);
                    remaining = remaining - start;
                },
            }
        }
        k = k + 1;
    }
    loop
        invariant
            allocs@.len() == n,
            n == tasks@.len(),
            used@.len() == num_hosts,
            spec_is_order(tasks@, true, true, order@),
            spec_hosts_in_range(tasks@, num_hosts as nat),
            spec_grant_all(tasks@, order@, spec_state(allocs@, used@, remaining))
                == spec_grant_all(tasks@, order@, spec_auto_start(tasks@, order@, order@.len() as int, init, min_per_task)),
            forall|x: int| 0 <= x < used@.len() ==> used@[x] <= MAX_CONNECTIONS_PER_HOST,
        ensures
            spec_grant_all(tasks@, order@, spec_state(allocs@, used@, remaining)) == spec_state(allocs@, used@, remaining),
            spec_grant_all(tasks@, order@, spec_state(allocs@, used@, remaining))
                == spec_grant_all(tasks@, order@, spec_auto_start(tasks@, order@, order@.len() as int, init, min_per_task)),
        decreases remaining,
    {
        if remaining == 0 {
            assert(spec_grant_all(tasks@, order@, spec_state(allocs@, used@, remaining)) == spec_state(allocs@, used@, remaining));
            break;
        }
        let ghost round_start = spec_state(allocs@, used@, remaining);
        let start_budget = remaining;
        let mut p: usize = 0;
        while p < order.len()
            invariant
                p <= order@.len(),
                allocs@.len() == n,
                n == tasks@.len(),
                used@.len() == num_hosts,
                spec_is_order(tasks@, true, true, order@),
                spec_hosts_in_range(tasks@, num_hosts as nat),
                spec_state(allocs@, used@, remaining) == spec_grant_pass(tasks@, order@, p as int, round_start),
                forall|x: int| 0 <= x < used@.len() ==> used@[x] <= MAX_CONNECTIONS_PER_HOST,
            decreases order@.len() - p,
        {
            let idx = order[p];
            assert(idx < n);
            let t = tasks[idx];
            if remaining > 0 && allocs[idx] < t.cap {
                let host_ok = match t.host {
                    Some(hid) => used[hid] < MAX_CONNECTIONS_PER_HOST,
                    None => true,
                };
                if host_ok {
                    let na = allocs[idx] + 1;
                    allocs.set(idx, na);
                    match t.host {
                        Some(hid) => {
                            let nv = used[hid] + 1;
                            used.set(hid, nv);
                        },
                        None => {},
                    }
                    remaining = remaining - 1;
                }
            }
            p = p + 1;
        }
        proof {
            lemma_grant_pass_mono(tasks@, order@, order@.len() as int, round_start);
        }
        if remaining >= start_budget {
            assert(spec_state(allocs@, used@, remaining) == round_start);
            assert(spec_grant_all(tasks@, order@, round_start) == round_start);
            break;
        }
    }
    allocs
}


// ── Traditional policy ───────────────────────────────────────────────

/// Allocation state of the traditional policy: threads per task,
/// connections per host and number of running tasks.
pub struct SlotState {
    pub allocs: Seq<usize>,
    pub used: Seq<usize>,
    pub running: usize,
}

/// Traditional step for task `i`: an active task gets its cap (at least 1,
/// limited by the host's room) while fewer than `max_tasks` run.
pub open spec fn spec_slot_step(st: SlotState, t: AllocationTask, i: int, max_tasks: usize) -> SlotState {
    if t.inactive || st.running >= max_tasks {
        SlotState { allocs: st.allocs.update(i, 0), ..st }
    } else {
        let wanted: usize = if t.cap > 1 { t.cap } else { 1 };
        let (granted, used): (usize, Seq<usize>) = match t.host {
            Some(h) => {
                let room = spec_host_room(st.used[h as int]);
                let capped: usize = if wanted < room { wanted } else { room };
                (capped, if capped > 0 { st.used.update(h as int, (st.used[h as int] + capped) as usize) } else { st.used })
            },
            None => (wanted, st.used),
        };
        SlotState {
            allocs: st.allocs.update(i, granted),
            used,
            running: if granted > 0 { (st.running + 1) as usize } else { st.running },
        }
    }
}

pub open spec fn spec_slots(tasks: Seq<AllocationTask>, order: Seq<usize>, k: int, init: SlotState, max_tasks: usize) -> SlotState
    decreases k,
{
    if k <= 0 {
        init
    } else {
        spec_slot_step(spec_slots(tasks, order, k - 1, init, max_tasks), tasks[order[k - 1] as int], order[k - 1] as int, max_tasks)
    }
}

/// Threads each task gets under the traditional policy: tasks in creation
/// order each take their cap until `max_tasks` of them run.
pub open spec fn spec_traditional_allocation(tasks: Seq<AllocationTask>, order: Seq<usize>, num_hosts: nat, max_tasks: usize) -> SlotState {
    let init = SlotState { allocs: Seq::new(tasks.len(), |i: int| 0usize), used: Seq::new(num_hosts, |h: int| 0usize), running: 0 };
    spec_slots(tasks, order, order.len() as int, init, max_tasks)
}

pub open spec fn spec_slot_state(allocs: Seq<usize>, used: Seq<usize>, running: usize) -> SlotState {
    SlotState { allocs, used, running }
}

/// Threads per task under the traditional policy (`spec_traditional_allocation`).
pub fn plan_traditional(tasks: &Vec<AllocationTask>, order: &Vec<usize>, num_hosts: usize, max_tasks: usize) -> (allocs: Vec<usize>)
    requires
        spec_is_order(tasks@, false, false, order@),
        spec_hosts_in_range(tasks@, num_hosts as nat),
    ensures
        allocs@ == spec_traditional_allocation(tasks@, order@, num_hosts as nat, max_tasks).allocs,
{
    let ghost n = tasks@.len();
    let mut allocs: Vec<usize> = Vec::new();
    let mut i: usize = 0;
    while i < tasks.len()
        invariant
            i <= n,
            n == tasks@.len(),
            allocs@ == Seq::new(i as nat, |j: int| 0usize),
        decreases n - i,
    {
        allocs.push(0);
        i = i + 1;
    }
    let mut used: Vec<usize> = Vec::new();
    let mut h: usize = 0;
    while h < num_hosts
        invariant
            h <= num_hosts,
            used@ == Seq::new(h as nat, |j: int| 0usize),
        decreases num_hosts - h,
    {
        used.push(0);
        h = h + 1;
    }
    let ghost init = spec_slot_state(allocs@, used@, 0);
    assert(init == SlotState { allocs: Seq::new(tasks@.len(), |i: int| 0usize), used: Seq::new(num_hosts as nat, |h: int| 0usize), running: 0 });
    let mut running: usize = 0;
    let mut k: usize = 0;
    while k < order.len()
        invariant
            k <= order@.len(),
            allocs@.len() == n,
            n == tasks@.len(),
            used@.len() == num_hosts,
            spec_is_order(tasks@, false, false, order@),
            spec_hosts_in_range(tasks@, num_hosts as nat),
            running <= k,
            spec_slot_state(allocs@, used@, running) == spec_slots(tasks@, order@, k as int, init, max_tasks),
            forall|x: int| 0 <= x < used@.len() ==> used@[x] <= MAX_CONNECTIONS_PER_HOST,
        decreases order@.len() - k,
    {
        let idx = order[k];
        assert(idx < n);
        let t = tasks[idx];
        if t.inactive || running >= max_tasks {
            allocs.set(idx, 0);
        } else {
            let wanted = if t.cap > 1 { t.cap } else { 1 };
            let granted = match t.host {
                Some(hid) => {
                    let room = host_room(used[hid]);
                    let capped = if wanted < room { wanted } else { room };
                    if capped > 0 {
                        let nv = used[hid] + capped;
                        used.set(hid, nv);
                    }
                    capped
                },
                None => wanted,
            };
            allocs.set(idx, granted);
            if granted > 0 {
                running = running + 1;
            }
        }
        k = k + 1;
    }
    allocs
}


// ── Properties of the policies ───────────────────────────────────────

pub open spec fn spec_sum(s: Seq<usize>) -> int
    decreases s.len(),
{
    if s.len() == 0 { 0 } else { spec_sum(s.drop_last()) + s.last() }
}

/// Task `t` belongs to host group `h`.
pub open spec fn spec_on_host(t: AllocationTask, h: int) -> bool {
    match t.host {
        Some(x) => x as int == h,
        None => false,
    }
}

/// Threads given to the tasks of host group `h`.
pub open spec fn spec_host_share(allocs: Seq<usize>, tasks: Seq<AllocationTask>, h: int) -> Seq<usize> {
    Seq::new(allocs.len(), |i: int| if spec_on_host(tasks[i], h) { allocs[i] } else { 0usize })
}

pub open spec fn spec_host_sum(allocs: Seq<usize>, tasks: Seq<AllocationTask>, h: int) -> int {
    spec_sum(spec_host_share(allocs, tasks, h))
}

/// Number of tasks given at least one thread.
pub open spec fn spec_count_running(allocs: Seq<usize>) -> int
    decreases allocs.len(),
{
    if allocs.len() == 0 { 0 } else { spec_count_running(allocs.drop_last()) + (if allocs.last() > 0 { 1int } else { 0int }) }
}

pub proof fn lemma_sum_update(s: Seq<usize>, i: int, v: usize)
    requires
        0 <= i < s.len(),
    ensures
        spec_sum(s.update(i, v)) == spec_sum(s) - s[i] + v,
    decreases s.len(),
{
    if i < s.len() - 1 {
        lemma_sum_update(s.drop_last(), i, v);
        assert(s.update(i, v).drop_last() == s.drop_last().update(i, v));
    } else {
        assert(s.update(i, v).drop_last() == s.drop_last());
    }
}

pub proof fn lemma_count_update(s: Seq<usize>, i: int, v: usize)
    requires
        0 <= i < s.len(),
    ensures
        spec_count_running(s.update(i, v)) == spec_count_running(s) - (if s[i] > 0 { 1int } else { 0int }) + (if v > 0 { 1int } else { 0int }),
    decreases s.len(),
{
    if i < s.len() - 1 {
        lemma_count_update(s.drop_last(), i, v);
        assert(s.update(i, v).drop_last() == s.drop_last().update(i, v));
    } else {
        assert(s.update(i, v).drop_last() == s.drop_last());
    }
}

pub proof fn lemma_zero_sums(n: nat)
    ensures
        spec_sum(Seq::new(n, |i: int| 0usize)) == 0,
        spec_count_running(Seq::new(n, |i: int| 0usize)) == 0,
    decreases n,
{
    if n > 0 {
        lemma_zero_sums((n - 1) as nat);
        assert(Seq::new(n, |i: int| 0usize).drop_last() == Seq::new((n - 1) as nat, |i: int| 0usize));
    }
}

proof fn lemma_host_share_update(allocs: Seq<usize>, tasks: Seq<AllocationTask>, h: int, i: int, v: usize)
    requires
        0 <= i < allocs.len(),
        allocs.len() == tasks.len(),
    ensures
        spec_host_sum(allocs.update(i, v), tasks, h) == spec_host_sum(allocs, tasks, h)
            + (if spec_on_host(tasks[i], h) { v - allocs[i] } else { 0int }),
{
    let a = spec_host_share(allocs, tasks, h);
    let b = spec_host_share(allocs.update(i, v), tasks, h);
    let nv: usize = if spec_on_host(tasks[i], h) { v } else { 0usize };
    assert(b == a.update(i, nv));
    lemma_sum_update(a, i, nv);
}

/// Well-formedness of an automatic-policy state reached from `budget`
/// threads: budget accounting, per-host connection counts and per-task bounds.
pub open spec fn spec_auto_inv(st: AllocState, tasks: Seq<AllocationTask>, num_hosts: nat, budget: usize, min_per_task: usize) -> bool {
    &&& st.allocs.len() == tasks.len()
    &&& st.used.len() == num_hosts
    &&& spec_sum(st.allocs) + st.budget == budget
    &&& forall|h: int| 0 <= h < num_hosts ==> (#[trigger] st.used[h]) == spec_host_sum(st.allocs, tasks, h)
    &&& forall|h: int| 0 <= h < num_hosts ==> #[trigger] st.used[h] <= MAX_CONNECTIONS_PER_HOST
    &&& forall|i: int| 0 <= i < tasks.len() ==> (#[trigger] st.allocs[i]) <= (if tasks[i].cap > min_per_task { tasks[i].cap } else { min_per_task })
    &&& forall|i: int| 0 <= i < tasks.len() && (#[trigger] tasks[i]).inactive ==> st.allocs[i] == 0
}

proof fn lemma_grant_step_inv(st: AllocState, tasks: Seq<AllocationTask>, i: int, num_hosts: nat, budget: usize, min_per_task: usize)
    requires
        spec_auto_inv(st, tasks, num_hosts, budget, min_per_task),
        spec_hosts_in_range(tasks, num_hosts),
        0 <= i < tasks.len(),
        !tasks[i].inactive,
    ensures
        spec_auto_inv(spec_grant_step(st, tasks[i], i), tasks, num_hosts, budget, min_per_task),
{
    let t = tasks[i];
    if !(st.budget == 0 || !spec_can_grow(st, t, i)) {
        let na = (st.allocs[i] + 1) as usize;
        let next = spec_grant_step(st, t, i);
        lemma_sum_update(st.allocs, i, na);
        assert forall|h: int| 0 <= h < num_hosts implies (#[trigger] next.used[h]) == spec_host_sum(next.allocs, tasks, h) by {
            lemma_host_share_update(st.allocs, tasks, h, i, na);
            assert(st.used[h] == spec_host_sum(st.allocs, tasks, h));
            match t.host {
                Some(hh) => {
                    if hh as int == h {
                        assert(spec_on_host(tasks[i], h));
                        assert(next.used[h] == st.used[h] + 1);
                    } else {
                        assert(!spec_on_host(tasks[i], h));
                        assert(next.used[h] == st.used[h]);
                    }
                },
                None => {},
            }
        }
    }
}

proof fn lemma_grant_pass_inv(tasks: Seq<AllocationTask>, order: Seq<usize>, k: int, st: AllocState, num_hosts: nat, budget: usize, min_per_task: usize)
    requires
        spec_auto_inv(st, tasks, num_hosts, budget, min_per_task),
        spec_hosts_in_range(tasks, num_hosts),
        spec_is_order(tasks, true, true, order),
        0 <= k <= order.len(),
    ensures
        spec_auto_inv(spec_grant_pass(tasks, order, k, st), tasks, num_hosts, budget, min_per_task),
    decreases k,
{
    if k > 0 {
        lemma_grant_pass_inv(tasks, order, k - 1, st, num_hosts, budget, min_per_task);
        let i = order[k - 1] as int;
        lemma_grant_step_inv(spec_grant_pass(tasks, order, k - 1, st), tasks, i, num_hosts, budget, min_per_task);
    }
}

proof fn lemma_grant_all_inv(tasks: Seq<AllocationTask>, order: Seq<usize>, st: AllocState, num_hosts: nat, budget: usize, min_per_task: usize)
    requires
        spec_auto_inv(st, tasks, num_hosts, budget, min_per_task),
        spec_hosts_in_range(tasks, num_hosts),
        spec_is_order(tasks, true, true, order),
    ensures
        spec_auto_inv(spec_grant_all(tasks, order, st), tasks, num_hosts, budget, min_per_task),
    decreases st.budget,
{
    let next = spec_grant_pass(tasks, order, order.len() as int, st);
    if !(st.budget == 0 || next.budget >= st.budget) {
        lemma_grant_pass_inv(tasks, order, order.len() as int, st, num_hosts, budget, min_per_task);
        lemma_grant_all_inv(tasks, order, next, num_hosts, budget, min_per_task);
    }
}

/// Prefix states of a pass that spends nothing all equal the start state.
proof fn lemma_grant_pass_idle(tasks: Seq<AllocationTask>, order: Seq<usize>, k: int, st: AllocState)
    requires
        0 <= k <= order.len(),
        spec_grant_pass(tasks, order, order.len() as int, st).budget == st.budget,
    ensures
        spec_grant_pass(tasks, order, k, st) == st,
    decreases order.len() - k,
{
    lemma_grant_pass_mono(tasks, order, k, st);
    if k < order.len() {
        lemma_grant_pass_idle(tasks, order, k + 1, st);
        lemma_grant_pass_mono(tasks, order, k + 1, st);
    }
}

proof fn lemma_grant_all_final(tasks: Seq<AllocationTask>, order: Seq<usize>, st: AllocState)
    ensures
        ({
            let f = spec_grant_all(tasks, order, st);
            f.budget == 0 || forall|p: int| 0 <= p < order.len() ==> !spec_can_grow(f, tasks[order[p] as int], #[trigger] order[p] as int)
        }),
    decreases st.budget,
{
    let next = spec_grant_pass(tasks, order, order.len() as int, st);
    lemma_grant_pass_mono(tasks, order, order.len() as int, st);
    if st.budget == 0 {
    } else if next.budget >= st.budget {
        assert forall|p: int| 0 <= p < order.len() implies !spec_can_grow(st, tasks[order[p] as int], #[trigger] order[p] as int) by {
            lemma_grant_pass_idle(tasks, order, p, st);
            lemma_grant_pass_idle(tasks, order, p + 1, st);
        }
    } else {
        lemma_grant_all_final(tasks, order, next);
    }
}

proof fn lemma_start_step_inv(st: AllocState, tasks: Seq<AllocationTask>, i: int, num_hosts: nat, budget: usize, min_per_task: usize)
    requires
        spec_auto_inv(st, tasks, num_hosts, budget, min_per_task),
        spec_hosts_in_range(tasks, num_hosts),
        0 <= i < tasks.len(),
        !tasks[i].inactive,
        st.allocs[i] == 0,
    ensures
        spec_auto_inv(spec_auto_start_step(st, tasks[i], i, min_per_task), tasks, num_hosts, budget, min_per_task),
{
    let t = tasks[i];
    let next = spec_auto_start_step(st, t, i, min_per_task);
    lemma_sum_update(st.allocs, i, next.allocs[i]);
    assert forall|h: int| 0 <= h < num_hosts implies (#[trigger] next.used[h]) == spec_host_sum(next.allocs, tasks, h) by {
        lemma_host_share_update(st.allocs, tasks, h, i, next.allocs[i]);
        assert(st.used[h] == spec_host_sum(st.allocs, tasks, h));
        match t.host {
            Some(hh) => {
                if hh as int == h {
                    assert(spec_on_host(tasks[i], h));
                    assert(next.used[h] == st.used[h] + next.allocs[i]);
                } else {
                    assert(!spec_on_host(tasks[i], h));
                    assert(next.used[h] == st.used[h]);
                }
            },
            None => {},
        }
    }
}

proof fn lemma_auto_start_inv(tasks: Seq<AllocationTask>, order: Seq<usize>, k: int, init: AllocState, num_hosts: nat, budget: usize, min_per_task: usize)
    requires
        spec_auto_inv(init, tasks, num_hosts, budget, min_per_task),
        forall|i: int| 0 <= i < tasks.len() ==> init.allocs[i] == 0,
        spec_hosts_in_range(tasks, num_hosts),
        spec_is_order(tasks, true, true, order),
        0 <= k <= order.len(),
    ensures
        spec_auto_inv(spec_auto_start(tasks, order, k, init, min_per_task), tasks, num_hosts, budget, min_per_task),
        forall|q: int| k <= q < order.len() ==> spec_auto_start(tasks, order, k, init, min_per_task).allocs[#[trigger] order[q] as int] == 0,
    decreases k,
{
    if k > 0 {
        lemma_auto_start_inv(tasks, order, k - 1, init, num_hosts, budget, min_per_task);
        let prev = spec_auto_start(tasks, order, k - 1, init, min_per_task);
        let i = order[k - 1] as int;
        lemma_start_step_inv(prev, tasks, i, num_hosts, budget, min_per_task);
        assert forall|q: int| k <= q < order.len() implies spec_auto_start(tasks, order, k, init, min_per_task).allocs[#[trigger] order[q] as int] == 0 by {
            assert(spec_before(tasks, true, order[k - 1] as int, order[q] as int));
            assert(order[q] != order[k - 1]);
        }
    } else {
        assert forall|q: int| k <= q < order.len() implies init.allocs[#[trigger] order[q] as int] == 0 by {}
    }
}

/// Automatic policy: the threads handed out never exceed the budget, no
/// host gets more than `MAX_CONNECTIONS_PER_HOST` connections, a task gets
/// at most its cap or the minimum share, paused and finished tasks get
/// none, and threads are left over only when no task could take more.
pub proof fn lemma_auto_allocation_laws(tasks: Seq<AllocationTask>, order: Seq<usize>, num_hosts: nat, budget: usize, min_per_task: usize)
    requires
        spec_is_order(tasks, true, true, order),
        spec_hosts_in_range(tasks, num_hosts),
    ensures
        ({
            let f = spec_auto_allocation(tasks, order, num_hosts, budget, min_per_task);
            &&& f.allocs.len() == tasks.len()
            &&& spec_sum(f.allocs) + f.budget == budget
            &&& forall|h: int| 0 <= h < num_hosts ==> spec_host_sum(f.allocs, tasks, h) <= MAX_CONNECTIONS_PER_HOST
            &&& forall|i: int| 0 <= i < tasks.len() ==> (#[trigger] f.allocs[i]) <= (if tasks[i].cap > min_per_task { tasks[i].cap } else { min_per_task })
            &&& forall|i: int| 0 <= i < tasks.len() && (#[trigger] tasks[i]).inactive ==> f.allocs[i] == 0
            &&& (f.budget == 0 || forall|p: int| 0 <= p < order.len() ==> !spec_can_grow(f, tasks[order[p] as int], #[trigger] order[p] as int))
        }),
{
    let init = AllocState { allocs: Seq::new(tasks.len(), |i: int| 0usize), used: Seq::new(num_hosts, |h: int| 0usize), budget };
    lemma_zero_sums(tasks.len());
    assert forall|h: int| 0 <= h < num_hosts implies (#[trigger] init.used[h]) == spec_host_sum(init.allocs, tasks, h) by {
        assert(spec_host_share(init.allocs, tasks, h) == Seq::new(tasks.len(), |i: int| 0usize));
    }
    lemma_auto_start_inv(tasks, order, order.len() as int, init, num_hosts, budget, min_per_task);
    let s1 = spec_auto_start(tasks, order, order.len() as int, init, min_per_task);
    lemma_grant_all_inv(tasks, order, s1, num_hosts, budget, min_per_task);
    lemma_grant_all_final(tasks, order, s1);
    let f = spec_grant_all(tasks, order, s1);
    assert forall|h: int| 0 <= h < num_hosts implies spec_host_sum(f.allocs, tasks, h) <= MAX_CONNECTIONS_PER_HOST by {
        assert(f.used[h] == spec_host_sum(f.allocs, tasks, h));
    }
}

/// Well-formedness of a traditional-policy state.
pub open spec fn spec_slot_inv(st: SlotState, tasks: Seq<AllocationTask>, num_hosts: nat, max_tasks: usize) -> bool {
    &&& st.allocs.len() == tasks.len()
    &&& st.used.len() == num_hosts
    &&& spec_count_running(st.allocs) == st.running
    &&& st.running <= max_tasks
    &&& forall|h: int| 0 <= h < num_hosts ==> (#[trigger] st.used[h]) == spec_host_sum(st.allocs, tasks, h)
    &&& forall|h: int| 0 <= h < num_hosts ==> #[trigger] st.used[h] <= MAX_CONNECTIONS_PER_HOST
    &&& forall|i: int| 0 <= i < tasks.len() ==> (#[trigger] st.allocs[i]) <= (if tasks[i].cap > 1 { tasks[i].cap } else { 1 })
    &&& forall|i: int| 0 <= i < tasks.len() && (#[trigger] tasks[i]).inactive ==> st.allocs[i] == 0
}

proof fn lemma_slots_inv(tasks: Seq<AllocationTask>, order: Seq<usize>, k: int, init: SlotState, num_hosts: nat, max_tasks: usize)
    requires
        spec_slot_inv(init, tasks, num_hosts, max_tasks),
        forall|i: int| 0 <= i < tasks.len() ==> init.allocs[i] == 0,
        spec_hosts_in_range(tasks, num_hosts),
        spec_is_order(tasks, false, false, order),
        0 <= k <= order.len(),
    ensures
        spec_slot_inv(spec_slots(tasks, order, k, init, max_tasks), tasks, num_hosts, max_tasks),
        forall|q: int| k <= q < order.len() ==> spec_slots(tasks, order, k, init, max_tasks).allocs[#[trigger] order[q] as int] == 0,
    decreases k,
{
    if k > 0 {
        lemma_slots_inv(tasks, order, k - 1, init, num_hosts, max_tasks);
        let st = spec_slots(tasks, order, k - 1, init, max_tasks);
        let i = order[k - 1] as int;
        let next = spec_slots(tasks, order, k, init, max_tasks);
        assert(st.allocs[i] == 0);
        lemma_sum_update(st.allocs, i, next.allocs[i]);
        lemma_count_update(st.allocs, i, next.allocs[i]);
        assert forall|h: int| 0 <= h < num_hosts implies (#[trigger] next.used[h]) == spec_host_sum(next.allocs, tasks, h) by {
            lemma_host_share_update(st.allocs, tasks, h, i, next.allocs[i]);
            assert(st.used[h] == spec_host_sum(st.allocs, tasks, h));
            let t = tasks[i];
            if !(t.inactive || st.running >= max_tasks) {
                match t.host {
                    Some(hh) => {
                        if hh as int == h {
                            assert(spec_on_host(tasks[i], h));
                            assert(next.used[h] == st.used[h] + next.allocs[i]);
                        } else {
                            assert(!spec_on_host(tasks[i], h));
                            assert(next.used[h] == st.used[h]);
                        }
                    },
                    None => {},
                }
            }
        }
        assert forall|q: int| k <= q < order.len() implies next.allocs[#[trigger] order[q] as int] == 0 by {
            assert(spec_before(tasks, false, order[k - 1] as int, order[q] as int));
            assert(order[q] != order[k - 1]);
        }
    }
}

/// Traditional policy: at most `max_tasks` tasks run, no host gets more
/// than `MAX_CONNECTIONS_PER_HOST` connections, a task gets at most its cap
/// (at least 1), and paused and finished tasks get none.
pub proof fn lemma_traditional_allocation_laws(tasks: Seq<AllocationTask>, order: Seq<usize>, num_hosts: nat, max_tasks: usize)
    requires
        spec_is_order(tasks, false, false, order),
        spec_hosts_in_range(tasks, num_hosts),
    ensures
        ({
            let f = spec_traditional_allocation(tasks, order, num_hosts, max_tasks);
            &&& f.allocs.len() == tasks.len()
            &&& spec_count_running(f.allocs) <= max_tasks
            &&& forall|h: int| 0 <= h < num_hosts ==> spec_host_sum(f.allocs, tasks, h) <= MAX_CONNECTIONS_PER_HOST
            &&& forall|i: int| 0 <= i < tasks.len() ==> (#[trigger] f.allocs[i]) <= (if tasks[i].cap > 1 { tasks[i].cap } else { 1 })
            &&& forall|i: int| 0 <= i < tasks.len() && (#[trigger] tasks[i]).inactive ==> f.allocs[i] == 0
        }),
{
    let init = SlotState { allocs: Seq::new(tasks.len(), |i: int| 0usize), used: Seq::new(num_hosts, |h: int| 0usize), running: 0 };
    lemma_zero_sums(tasks.len());
    assert forall|h: int| 0 <= h < num_hosts implies (#[trigger] init.used[h]) == spec_host_sum(init.allocs, tasks, h) by {
        assert(spec_host_share(init.allocs, tasks, h) == Seq::new(tasks.len(), |i: int| 0usize));
    }
    lemma_slots_inv(tasks, order, order.len() as int, init, num_hosts, max_tasks);
    let f = spec_traditional_allocation(tasks, order, num_hosts, max_tasks);
    assert forall|h: int| 0 <= h < num_hosts implies spec_host_sum(f.allocs, tasks, h) <= MAX_CONNECTIONS_PER_HOST by {
        assert(f.used[h] == spec_host_sum(f.allocs, tasks, h));
    }
}

} // verus!
