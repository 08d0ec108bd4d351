//! Sliding-window transfer speed: bytes are counted in ten 200 ms buckets
//! (a 2 s window). Times are nanoseconds on a monotonic clock.
use vstd::prelude::*;

verus! {

/// Number of buckets in the window.
pub const BUCKET_COUNT: usize = 10;

/// Length of one bucket: 200 ms.
pub const BUCKET_DURATION_NS: u64 = 200000000;

/// Length of the whole window: 2 s.
pub const TOTAL_WINDOW_NS: u64 = 2000000000;

/// Sliding-window speed tracker of one transfer.
#[derive(Clone, Debug)]
pub struct SpeedTracker {
    buckets: Vec<(u64, u64)>,
    current_index: usize,
    first_sample_at: Option<u64>,
    last_sample_at: Option<u64>,
    initialized: bool,
}

/// The tracker's state: (start time, bytes) per bucket, the current
/// bucket, the first and last sample times and whether it has samples.
pub struct SpeedView {
    pub buckets: Seq<(u64, u64)>,
    pub current_index: int,
    pub first_sample_at: Option<u64>,
    pub last_sample_at: Option<u64>,
    pub initialized: bool,
}

impl View for SpeedTracker {
    type V = SpeedView;

    closed spec fn view(&self) -> SpeedView {
        SpeedView {
            buckets: self.buckets@,
            current_index: self.current_index as int,
            first_sample_at: self.first_sample_at,
            last_sample_at: self.last_sample_at,
            initialized: self.initialized,
        }
    }
}

/// Ten buckets and a current bucket among them.
pub open spec fn spec_well_formed(v: SpeedView) -> bool {
    v.buckets.len() == BUCKET_COUNT && 0 <= v.current_index < BUCKET_COUNT
}

pub open spec fn spec_sat_add(a: u64, b: u64) -> u64 {
    if a + b > u64::MAX { u64::MAX } else { (a + b) as u64 }
}

pub open spec fn spec_sat_sub(a: u64, b: u64) -> u64 {
    if a > b { (a - b) as u64 } else { 0 }
}

/// A fresh, empty window at time `now`.
pub open spec fn spec_fresh(now: u64) -> SpeedView {
    SpeedView {
        buckets: Seq::new(BUCKET_COUNT as nat, |i: int| (now, 0u64)),
        current_index: 0,
        first_sample_at: None,
        last_sample_at: None,
        initialized: false,
    }
}

/// Buckets after `steps` (< 10) bucket boundaries passed: the buckets
/// skipped over are emptied and the new current one holds `bytes`.
pub open spec fn spec_advanced(v: SpeedView, steps: int, now: u64, bytes: u64) -> Seq<(u64, u64)> {
    Seq::new(BUCKET_COUNT as nat, |k: int| {
        let d = (k - v.current_index + BUCKET_COUNT) % (BUCKET_COUNT as int);
        if d == steps {
            (now, bytes)
        } else if 1 <= d < steps {
            (now, 0u64)
        } else {
            v.buckets[k]
        }
    })
}

/// The tracker after `bytes` arrived at `now`.
pub open spec fn spec_record(v: SpeedView, bytes: u64, now: u64) -> SpeedView {
    if bytes == 0 {
        v
    } else if !v.initialized || (v.last_sample_at matches Some(last) && spec_sat_sub(now, last) >= TOTAL_WINDOW_NS) {
        SpeedView {
            buckets: Seq::new(BUCKET_COUNT as nat, |i: int| if i == 0 { (now, bytes) } else { (now, 0u64) }),
            current_index: 0,
            first_sample_at: Some(now),
            last_sample_at: Some(now),
            initialized: true,
        }
    } else {
        let v1 = SpeedView { last_sample_at: Some(now), ..v };
        let (t, b) = v.buckets[v.current_index];
        if now < t || now - t < BUCKET_DURATION_NS {
            SpeedView { buckets: v.buckets.update(v.current_index, (t, spec_sat_add(b, bytes))), ..v1 }
        } else {
            let steps = (((now - t) / 1000000) / 200) as usize;
            if steps >= BUCKET_COUNT {
                SpeedView {
                    buckets: Seq::new(BUCKET_COUNT as nat, |i: int| if i == 0 { (now, bytes) } else { (now, 0u64) }),
                    current_index: 0,
                    first_sample_at: Some(now),
                    ..v1
                }
            } else {
                SpeedView {
                    buckets: spec_advanced(v, steps as int, now, bytes),
                    current_index: (v.current_index + steps) % (BUCKET_COUNT as int),
                    ..v1
                }
            }
        }
    }
}

/// Bytes of the buckets `[0, k)` that started within `[cutoff, now]` (saturating).
pub open spec fn spec_window_bytes(buckets: Seq<(u64, u64)>, k: int, cutoff: u64, now: u64) -> u64
    decreases k,
{
    if k <= 0 {
        0
    } else {
        let prev = spec_window_bytes(buckets, k - 1, cutoff, now);
        let (t, b) = buckets[k - 1];
        if cutoff <= t && t <= now && b > 0 { spec_sat_add(prev, b) } else { prev }
    }
}

/// What a speed reading divides: the bytes in the window ending at `now`
/// and the time they took (since the first sample, between 200 ms and
/// 2 s). `None` before any sample or when the window holds no bytes.
pub open spec fn spec_speed_sample(v: SpeedView, now: u64) -> Option<(u64, u64)> {
    let cutoff = spec_sat_sub(now, TOTAL_WINDOW_NS);
    let total = spec_window_bytes(v.buckets, BUCKET_COUNT as int, cutoff, now);
    let elapsed = match v.first_sample_at {
        Some(first) => spec_sat_sub(now, first),
        None => TOTAL_WINDOW_NS,
    };
    let effective: u64 = if elapsed < BUCKET_DURATION_NS {
        BUCKET_DURATION_NS
    } else if elapsed > TOTAL_WINDOW_NS {
        TOTAL_WINDOW_NS
    } else {
        elapsed
    };
    if !v.initialized || total == 0 {
        None
    } else {
        Some((total, effective))
    }
}

fn fill(buckets: &mut Vec<(u64, u64)>, now: u64)
    requires
        old(buckets)@.len() == BUCKET_COUNT,
    ensures
        final(buckets)@ == Seq::new(BUCKET_COUNT as nat, |i: int| (now, 0u64)),
{
    let mut i: usize = 0;
    while i < BUCKET_COUNT
        invariant
            buckets@.len() == BUCKET_COUNT,
            i <= BUCKET_COUNT,
            forall|k: int| 0 <= k < i ==> buckets@[k] == (now, 0u64),
        decreases BUCKET_COUNT - i,
    {
        buckets.set(i, (now, 0));
        i = i + 1;
    }
    assert(buckets@ =~= Seq::new(BUCKET_COUNT as nat, |i: int| (now, 0u64)));
}

impl SpeedTracker {
    pub closed spec fn well_formed(&self) -> bool {
        spec_well_formed(self@)
    }

    /// An empty tracker; its buckets start at `now`.
    pub fn new(now: u64) -> (t: SpeedTracker)
        ensures
            t@ == spec_fresh(now),
            t.well_formed(),
    {
        let mut buckets: Vec<(u64, u64)> = Vec::new();
        let mut i: usize = 0;
        while i < BUCKET_COUNT
            invariant
                i <= BUCKET_COUNT,
                buckets@ == Seq::new(i as nat, |k: int| (now, 0u64)),
            decreases BUCKET_COUNT - i,
        {
            buckets.push((now, 0));
            i = i + 1;
        }
        SpeedTracker { buckets, current_index: 0, first_sample_at: None, last_sample_at: None, initialized: false }
    }

    /// Forgets all samples (pause, cancel or restart).
    pub fn reset(&mut self, now: u64)
        requires
            old(self).well_formed(),
        ensures
            final(self)@ == spec_fresh(now),
            final(self).well_formed(),
    {
        self.initialized = false;
        self.current_index = 0;
        self.first_sample_at = None;
        self.last_sample_at = None;
        fill(&mut self.buckets, now);
    }

    /// At least one sample was recorded since the last reset.
    pub fn is_initialized(&self) -> (r: bool)
        ensures
            r == self@.initialized,
    {
        self.initialized
    }

    /// Records `bytes` transferred at `now` (`spec_record`): after a gap of
    /// a whole window the tracker starts over; otherwise the bytes join the
    /// current bucket or a later one, emptying the buckets skipped over.
    pub fn record_bytes(&mut self, bytes: u64, now: u64)
        requires
            old(self).well_formed(),
        ensures
            final(self)@ == spec_record(old(self)@, bytes, now),
            final(self).well_formed(),
    {
        if bytes == 0 {
            return;
        }
        let stalled = match self.last_sample_at {
            Some(last) => now.saturating_sub(last) >= TOTAL_WINDOW_NS,
            None => false,
        };
        if !self.initialized || stalled {
            fill(&mut self.buckets, now);
            self.buckets.set(0, (now, bytes));
            self.current_index = 0;
            self.first_sample_at = Some(now);
            self.last_sample_at = Some(now);
            self.initialized = true;
            assert(self.buckets@ =~= Seq::new(BUCKET_COUNT as nat, |i: int| if i == 0 { (now, bytes) } else { (now, 0u64) }));
            return;
        }
        self.last_sample_at = Some(now);
        let (t, b) = self.buckets[self.current_index];
        if now < t || now - t < BUCKET_DURATION_NS {
            self.buckets.set(self.current_index, (t, b.saturating_add(bytes)));
            return;
        }
        let steps = ((now - t) / 1000000 / 200) as usize;
        if steps >= BUCKET_COUNT {
            fill(&mut self.buckets, now);
            self.current_index = 0;
            self.buckets.set(0, (now, bytes));
            self.first_sample_at = Some(now);
            assert(self.buckets@ =~= Seq::new(BUCKET_COUNT as nat, |i: int| if i == 0 { (now, bytes) } else { (now, 0u64) }));
            return;
        }
        let ghost v0 = self@;
        let cur = self.current_index;
        let mut i: usize = 1;
        while i <= steps
            invariant
                1 <= i <= steps + 1,
                steps < BUCKET_COUNT,
                cur < BUCKET_COUNT,
                v0.current_index == cur,
                self.current_index == cur,
                self.first_sample_at == v0.first_sample_at,
                self.last_sample_at == v0.last_sample_at,
                self.initialized == v0.initialized,
                self.buckets@.len() == BUCKET_COUNT,
                forall|k: int| 0 <= k < BUCKET_COUNT ==> {
                    let d = (k - cur + BUCKET_COUNT) % (BUCKET_COUNT as int);
                    #[trigger] self.buckets@[k] == if 1 <= d < i { (now, 0u64) } else { v0.buckets[k] }
                },
            decreases steps + 1 - i,
        {
            let idx = (cur + i) % BUCKET_COUNT;
            self.buckets.set(idx, (now, 0));
            proof {
                assert forall|k: int| 0 <= k < BUCKET_COUNT implies {
                    let d = (k - cur + BUCKET_COUNT) % (BUCKET_COUNT as int);
                    #[trigger] self.buckets@[k] == if 1 <= d < i + 1 { (now, 0u64) } else { v0.buckets[k] }
                } by {
                    let d = (k - cur + BUCKET_COUNT) % (BUCKET_COUNT as int);
                    if k == idx as int {
                        assert(d == i);
                    } else {
                        assert(d != i);
                    }
                }
            }
            i = i + 1;
        }
        self.current_index = (cur + steps) % BUCKET_COUNT;
        self.buckets.set(self.current_index, (now, bytes));
        proof {
            assert forall|k: int| 0 <= k < BUCKET_COUNT implies #[trigger] self.buckets@[k] == spec_advanced(v0, steps as int, now, bytes)[k] by {
                let d = (k - cur + BUCKET_COUNT) % (BUCKET_COUNT as int);
                if k == self.current_index as int {
                    assert(d == steps);
                } else {
                    assert(d != steps);
                }
            }
            assert(self.buckets@ =~= spec_advanced(v0, steps as int, now, bytes));
        }
    }

    /// The bytes in the window ending at `now` and the time they took
    /// (`spec_speed_sample`); their ratio is the current speed.
    pub fn speed_sample(&self, now: u64) -> (r: Option<(u64, u64)>)
        requires
            self.well_formed(),
        ensures
            r == spec_speed_sample(self@, now),
    {
        let cutoff = now.saturating_sub(TOTAL_WINDOW_NS);
        let mut total: u64 = 0;
        let mut i: usize = 0;
        while i < BUCKET_COUNT
            invariant
                i <= BUCKET_COUNT,
                self.buckets@.len() == BUCKET_COUNT,
                total == spec_window_bytes(self.buckets@, i as int, cutoff, now),
            decreases BUCKET_COUNT - i,
        {
            let (t, b) = self.buckets[i];
            if cutoff <= t && t <= now && b > 0 {
                total = total.saturating_add(b);
            }
            i = i + 1;
        }
        if !self.initialized || total == 0 {
            return None;
        }
        let elapsed = match self.first_sample_at {
            Some(first) => now.saturating_sub(first),
            None => TOTAL_WINDOW_NS,
        };
        let effective = if elapsed < BUCKET_DURATION_NS {
            BUCKET_DURATION_NS
        } else if elapsed > TOTAL_WINDOW_NS {
            TOTAL_WINDOW_NS
        } else {
            elapsed
        };
        Some((total, effective))
    }
}

/// Recording keeps the tracker well formed, and a reading is only taken
/// after some bytes were recorded.
pub proof fn lemma_speed_tracker_laws(v: SpeedView, bytes: u64, now: u64, later: u64)
    requires
        spec_well_formed(v),
    ensures
        spec_well_formed(spec_record(v, bytes, now)),
        spec_speed_sample(spec_fresh(now), later) is None,
        bytes > 0 ==> spec_record(v, bytes, now).initialized,
{
}

} // verus!
