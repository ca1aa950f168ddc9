//! Latency statistics for search operations, kept apart for periods in which
//! segment optimization runs and for normal periods.
//!
//! Latencies are sorted into ten buckets by the bounds 1ms, 5ms, 10ms, 25ms,
//! 50ms, 100ms, 250ms, 500ms and 1s; the tenth bucket holds everything from
//! 1s up. The 99th percentile is reported as the upper bound of the first
//! bucket at which the running count reaches 99% of all samples.
use std::time::Duration;
use vstd::prelude::*;

verus! {

/// Number of histogram buckets: one per bound plus the overflow bucket.
pub const BUCKET_COUNT: usize = 10;

/// Latency target, in microseconds, that the 99th percentile must stay under.
pub const P99_TARGET_US: u64 = 50_000;

/// Exclusive upper bound, in microseconds, of bucket `i` (for `i < 9`).
pub open spec fn bucket_bound(i: int) -> u64 {
    if i == 0 {
        1_000
    } else if i == 1 {
        5_000
    } else if i == 2 {
        10_000
    } else if i == 3 {
        25_000
    } else if i == 4 {
        50_000
    } else if i == 5 {
        100_000
    } else if i == 6 {
        250_000
    } else if i == 7 {
        500_000
    } else {
        1_000_000
    }
}

/// First bucket, at `i` or later, whose bound is above `latency_us`;
/// the overflow bucket 9 if there is none.
pub open spec fn bucket_index_from(latency_us: u64, i: int) -> int
    decreases 9 - i,
{
    if i >= 9 {
        9
    } else if latency_us < bucket_bound(i) {
        i
    } else {
        bucket_index_from(latency_us, i + 1)
    }
}

/// The bucket that a latency is counted in.
pub open spec fn bucket_index(latency_us: u64) -> int {
    bucket_index_from(latency_us, 0)
}

/// Sum of the first `n` entries of `s`.
pub open spec fn prefix_sum(s: Seq<usize>, n: int) -> int
    decreases n,
{
    if n <= 0 {
        0
    } else {
        prefix_sum(s, n - 1) + s[n - 1]
    }
}

/// Number of samples that 99% of `count` amounts to, rounded up, so that
/// at least 99% of all samples lie at or below the reported bound.
pub open spec fn p99_threshold(count: usize) -> int {
    (count * 99 + 99) / 100
}

/// The reported 99th percentile: scanning buckets from `i` on, with `acc`
/// samples already counted, the bound of the first bucket at which the
/// running count reaches `threshold`; for the overflow bucket, the largest
/// latency seen; 0 if no bucket reaches it.
pub open spec fn p99_scan(buckets: Seq<usize>, i: int, acc: int, threshold: int, max_us: u64) -> u64
    decreases buckets.len() - i,
{
    if i >= buckets.len() || i < 0 {
        0
    } else if acc + buckets[i] >= threshold {
        if i < 9 {
            bucket_bound(i)
        } else {
            max_us
        }
    } else {
        p99_scan(buckets, i + 1, acc + buckets[i], threshold, max_us)
    }
}

/// What a latency histogram holds.
pub struct HistogramState {
    pub buckets: Seq<usize>,
    pub count: usize,
    pub total_us: u64,
    pub min_us: u64,
    pub max_us: u64,
}

impl HistogramState {
    /// A histogram with nothing recorded.
    pub open spec fn empty() -> HistogramState {
        HistogramState {
            buckets: Seq::new(10, |i: int| 0usize),
            count: 0,
            total_us: 0,
            min_us: u64::MAX,
            max_us: 0,
        }
    }

    /// The histogram after one more latency of `latency_us` microseconds.
    /// Counters wrap around as unsigned machine integers do.
    pub open spec fn recorded(self, latency_us: u64) -> HistogramState {
        let i = bucket_index(latency_us);
        HistogramState {
            buckets: self.buckets.update(i, self.buckets[i].wrapping_add(1)),
            count: self.count.wrapping_add(1),
            total_us: self.total_us.wrapping_add(latency_us),
            min_us: if latency_us < self.min_us {
                latency_us
            } else {
                self.min_us
            },
            max_us: if latency_us > self.max_us {
                latency_us
            } else {
                self.max_us
            },
        }
    }

    /// Mean latency, rounded down; 0 when nothing was recorded.
    pub open spec fn mean_us(self) -> u64 {
        if self.count > 0 {
            (self.total_us / (self.count as u64)) as u64
        } else {
            0
        }
    }

    /// Smallest latency seen; 0 when nothing was recorded.
    pub open spec fn reported_min_us(self) -> u64 {
        if self.min_us == u64::MAX {
            0
        } else {
            self.min_us
        }
    }

    /// The reported 99th percentile.
    pub open spec fn p99_us(self) -> u64 {
        p99_scan(self.buckets, 0, 0, p99_threshold(self.count), self.max_us)
    }
}

/// Microseconds that a duration spans, as `Duration::as_micros` gives them.
pub uninterp spec fn duration_micros(d: Duration) -> u128;

/// Calls `Duration::as_micros`, whose result depends on the duration alone.
#[verifier::external_body]
fn micros_of(d: &Duration) -> (us: u128)
    ensures
        us == duration_micros(*d),
{
    d.as_micros()
}

/// Exclusive upper bound of bucket `i`.
fn latency_bucket_bound(i: usize) -> (b: u64)
    requires
        i < 9,
    ensures
        b == bucket_bound(i as int),
{
    match i {
        0 => 1_000,
        1 => 5_000,
        2 => 10_000,
        3 => 25_000,
        4 => 50_000,
        5 => 100_000,
        6 => 250_000,
        7 => 500_000,
        _ => 1_000_000,
    }
}

/// Ten empty buckets.
fn zero_buckets() -> (b: [usize; 10])
    ensures
        b@ == Seq::new(10, |i: int| 0usize),
{
    let b: [usize; 10] = [0, 0, 0, 0, 0, 0, 0, 0, 0, 0];
    assert(b@ =~= Seq::new(10, |i: int| 0usize));
    b
}

/// The bucket counts as a vector.
fn buckets_to_vec(b: &[usize; 10]) -> (v: Vec<usize>)
    ensures
        v@ == b@,
{
    let mut v: Vec<usize> = Vec::new();
    let mut k: usize = 0;
    while k < 10
        invariant
            k <= 10,
            b@.len() == 10,
            v@ == b@.subrange(0, k as int),
        decreases 10 - k,
    {
        v.push(b[k]);
        k = k + 1;
    }
    assert(b@.subrange(0, 10) =~= b@);
    v
}

/// Histogram of search latencies.
#[derive(Debug)]
pub struct LatencyHistogram {
    buckets: [usize; 10],
    total_count: usize,
    total_latency_us: u64,
    min_latency_us: u64,
    max_latency_us: u64,
}

impl View for LatencyHistogram {
    type V = HistogramState;

    closed spec fn view(&self) -> HistogramState {
        HistogramState {
            buckets: self.buckets@,
            count: self.total_count,
            total_us: self.total_latency_us,
            min_us: self.min_latency_us,
            max_us: self.max_latency_us,
        }
    }
}

impl Default for LatencyHistogram {
    fn default() -> (h: Self)
        ensures
            h@ == HistogramState::empty(),
    {
        LatencyHistogram {
            buckets: zero_buckets(),
            total_count: 0,
            total_latency_us: 0,
            min_latency_us: u64::MAX,
            max_latency_us: 0,
        }
    }
}

/// Snapshot of latency statistics.
#[derive(Debug, Clone)]
pub struct LatencyStats {
    /// Number of operations measured.
    pub count: usize,
    /// Mean latency in microseconds.
    pub mean_latency_us: u64,
    /// Smallest latency in microseconds.
    pub min_latency_us: u64,
    /// Largest latency in microseconds.
    pub max_latency_us: u64,
    /// 99th percentile latency in microseconds.
    pub p99_latency_us: u64,
    /// Count of each bucket.
    pub histogram: Vec<usize>,
}

impl LatencyStats {
    /// Whether the 99th percentile latency is under the 50ms target.
    pub fn meets_rfc_goal(&self) -> (b: bool)
        ensures
            b == (self.p99_latency_us < P99_TARGET_US),
    {
        self.p99_latency_us < P99_TARGET_US
    }
}

/// The 99th percentile, scanning from bucket `i` with `acc` samples counted.
fn p99_from(buckets: &[usize; 10], i: usize, acc: u128, threshold: u128, max_us: u64) -> (r: u64)
    requires
        i <= 10,
        acc <= i * 0xFFFF_FFFF_FFFF_FFFFu128,
    ensures
        r == p99_scan(buckets@, i as int, acc as int, threshold as int, max_us),
    decreases 10 - i,
{
    if i >= 10 {
        0
    } else {
        let next = acc + buckets[i] as u128;
        if next >= threshold {
            if i < 9 {
                latency_bucket_bound(i)
            } else {
                max_us
            }
        } else {
            p99_from(buckets, i + 1, next, threshold, max_us)
        }
    }
}

impl LatencyHistogram {
    /// Records a latency measurement.
    pub fn record(&mut self, duration: Duration)
        ensures
            final(self)@ == old(self)@.recorded(duration_micros(duration) as u64),
    {
        let us = micros_of(&duration);
        self.record_micros(us as u64);
    }

    /// Records a latency measurement given in microseconds.
    pub fn record_micros(&mut self, latency_us: u64)
        ensures
            final(self)@ == old(self)@.recorded(latency_us),
    {
        let mut idx: usize = 0;
        while idx < 9 && latency_us >= latency_bucket_bound(idx)
            invariant
                idx <= 9,
                bucket_index(latency_us) == bucket_index_from(latency_us, idx as int),
            decreases 9 - idx,
        {
            idx = idx + 1;
        }
        assert(bucket_index(latency_us) == idx as int);
        let old_bucket = self.buckets[idx];
        self.buckets[idx] = old_bucket.wrapping_add(1);
        self.total_count = self.total_count.wrapping_add(1);
        self.total_latency_us = self.total_latency_us.wrapping_add(latency_us);
        if latency_us < self.min_latency_us {
            self.min_latency_us = latency_us;
        }
        if latency_us > self.max_latency_us {
            self.max_latency_us = latency_us;
        }
    }

    /// Statistics of everything recorded so far.
    pub fn snapshot(&self) -> (stats: LatencyStats)
        ensures
            stats.count == self@.count,
            stats.mean_latency_us == self@.mean_us(),
            stats.min_latency_us == self@.reported_min_us(),
            stats.max_latency_us == self@.max_us,
            stats.p99_latency_us == self@.p99_us(),
            stats.histogram@ == self@.buckets,
    {
        let total_count = self.total_count;
        let mean_latency_us = if total_count > 0 {
            self.total_latency_us / (total_count as u64)
        } else {
            0
        };
        let threshold: u128 = ((total_count as u128) * 99 + 99) / 100;
        let p99_latency_us = p99_from(&self.buckets, 0, 0, threshold, self.max_latency_us);
        let min_latency_us = if self.min_latency_us == u64::MAX {
            0
        } else {
            self.min_latency_us
        };
        LatencyStats {
            count: total_count,
            mean_latency_us,
            min_latency_us,
            max_latency_us: self.max_latency_us,
            p99_latency_us,
            histogram: buckets_to_vec(&self.buckets),
        }
    }

    /// Clears all statistics.
    pub fn reset(&mut self)
        ensures
            final(self)@ == HistogramState::empty(),
    {
        self.buckets = zero_buckets();
        self.total_count = 0;
        self.total_latency_us = 0;
        self.min_latency_us = u64::MAX;
        self.max_latency_us = 0;
    }
}

/// What an optimization latency tracker holds.
pub struct TrackerState {
    pub during_optimization: HistogramState,
    pub normal: HistogramState,
    pub active: usize,
}

impl TrackerState {
    /// A tracker with nothing recorded and no optimization running.
    pub open spec fn initial() -> TrackerState {
        TrackerState {
            during_optimization: HistogramState::empty(),
            normal: HistogramState::empty(),
            active: 0,
        }
    }

    /// Whether some optimization is running.
    pub open spec fn optimizing(self) -> bool {
        self.active > 0
    }

    /// The state after one more optimization starts.
    pub open spec fn started(self) -> TrackerState {
        TrackerState { active: self.active.wrapping_add(1), ..self }
    }

    /// The state after one optimization ends.
    pub open spec fn ended(self) -> TrackerState {
        TrackerState { active: self.active.wrapping_sub(1), ..self }
    }

    /// The state after a search of `latency_us` microseconds is recorded:
    /// it goes to the optimization histogram while an optimization runs and
    /// to the normal one otherwise.
    pub open spec fn searched(self, latency_us: u64) -> TrackerState {
        if self.optimizing() {
            TrackerState {
                during_optimization: self.during_optimization.recorded(latency_us),
                ..self
            }
        } else {
            TrackerState { normal: self.normal.recorded(latency_us), ..self }
        }
    }

    /// The state after both histograms are cleared.
    pub open spec fn cleared(self) -> TrackerState {
        TrackerState {
            during_optimization: HistogramState::empty(),
            normal: HistogramState::empty(),
            ..self
        }
    }
}

/// Latency tracker that keeps search latencies measured while segment
/// optimization runs apart from those measured in normal operation.
pub struct OptimizationLatencyTracker {
    search_during_optimization: LatencyHistogram,
    search_normal: LatencyHistogram,
    optimization_active: usize,
}

impl View for OptimizationLatencyTracker {
    type V = TrackerState;

    closed spec fn view(&self) -> TrackerState {
        TrackerState {
            during_optimization: self.search_during_optimization@,
            normal: self.search_normal@,
            active: self.optimization_active,
        }
    }
}

impl Default for OptimizationLatencyTracker {
    fn default() -> (t: Self)
        ensures
            t@ == TrackerState::initial(),
    {
        OptimizationLatencyTracker {
            search_during_optimization: LatencyHistogram::default(),
            search_normal: LatencyHistogram::default(),
            optimization_active: 0,
        }
    }
}

impl OptimizationLatencyTracker {
    /// Notes that an optimization operation started.
    pub fn start_optimization(&mut self)
        ensures
            final(self)@ == old(self)@.started(),
    {
        self.optimization_active = self.optimization_active.wrapping_add(1);
    }

    /// Notes that an optimization operation ended.
    pub fn end_optimization(&mut self)
        ensures
            final(self)@ == old(self)@.ended(),
    {
        self.optimization_active = self.optimization_active.wrapping_sub(1);
    }

    /// Whether some optimization is running.
    pub fn is_optimizing(&self) -> (b: bool)
        ensures
            b == self@.optimizing(),
    {
        self.optimization_active > 0
    }

    /// Records the latency of a search operation.
    pub fn record_search(&mut self, duration: Duration)
        ensures
            final(self)@ == old(self)@.searched(duration_micros(duration) as u64),
            old(self)@.optimizing() ==> final(self)@.during_optimization.total_us == old(
                self,
            )@.during_optimization.total_us.wrapping_add(duration_micros(duration) as u64)
                && final(self)@.during_optimization.max_us >= duration_micros(duration) as u64,
            !old(self)@.optimizing() ==> final(self)@.normal.total_us == old(
                self,
            )@.normal.total_us.wrapping_add(duration_micros(duration) as u64)
                && final(self)@.normal.max_us >= duration_micros(duration) as u64,
    {
        if self.optimization_active > 0 {
            self.search_during_optimization.record(duration);
        } else {
            self.search_normal.record(duration);
        }
    }

    /// Statistics of the searches recorded while an optimization ran.
    pub fn get_optimization_stats(&self) -> (stats: LatencyStats)
        ensures
            stats.count == self@.during_optimization.count,
            stats.mean_latency_us == self@.during_optimization.mean_us(),
            stats.min_latency_us == self@.during_optimization.reported_min_us(),
            stats.max_latency_us == self@.during_optimization.max_us,
            stats.p99_latency_us == self@.during_optimization.p99_us(),
            stats.histogram@ == self@.during_optimization.buckets,
    {
        self.search_during_optimization.snapshot()
    }

    /// Statistics of the searches recorded in normal operation.
    pub fn get_normal_stats(&self) -> (stats: LatencyStats)
        ensures
            stats.count == self@.normal.count,
            stats.mean_latency_us == self@.normal.mean_us(),
            stats.min_latency_us == self@.normal.reported_min_us(),
            stats.max_latency_us == self@.normal.max_us,
            stats.p99_latency_us == self@.normal.p99_us(),
            stats.histogram@ == self@.normal.buckets,
    {
        self.search_normal.snapshot()
    }

    /// Clears both histograms; whether an optimization runs is kept.
    pub fn reset(&mut self)
        ensures
            final(self)@ == old(self)@.cleared(),
    {
        self.search_during_optimization.reset();
        self.search_normal.reset();
    }
}

/// Ending an optimization undoes starting one: the tracker returns to the
/// state it had before.
pub proof fn lemma_end_undoes_start(s: TrackerState)
    ensures
        s.started().ended() == s,
{
}

/// Recording a search adds exactly one sample, to the histogram that matches
/// whether an optimization runs, and leaves the other histogram and the
/// optimization count unchanged (counts below the machine limit).
pub proof fn lemma_search_counted_once(s: TrackerState, latency_us: u64)
    requires
        s.during_optimization.count < usize::MAX,
        s.normal.count < usize::MAX,
    ensures
        s.searched(latency_us).active == s.active,
        s.optimizing() ==> s.searched(latency_us).during_optimization.count
            == s.during_optimization.count + 1 && s.searched(latency_us).normal == s.normal,
        !s.optimizing() ==> s.searched(latency_us).normal.count == s.normal.count + 1
            && s.searched(latency_us).during_optimization == s.during_optimization,
{
}

/// The bucket a latency is counted in is the one whose range holds it: every
/// bound below it is at most the latency, and its own bound (if it is not
/// the overflow bucket) is above it.
pub proof fn lemma_bucket_holds_latency(latency_us: u64)
    ensures
        0 <= bucket_index(latency_us) <= 9,
        bucket_index(latency_us) < 9 ==> latency_us < bucket_bound(bucket_index(latency_us)),
        bucket_index(latency_us) > 0 ==> bucket_bound(bucket_index(latency_us) - 1) <= latency_us,
{
    reveal_with_fuel(bucket_index_from, 10);
}

/// Sum of the first `n` buckets after one bucket grew by one.
proof fn lemma_prefix_sum_update(s: Seq<usize>, i: int, n: int)
    requires
        0 <= i < s.len(),
        0 <= n <= s.len(),
        s[i] < usize::MAX,
    ensures
        prefix_sum(s.update(i, (s[i] + 1) as usize), n) == prefix_sum(s, n) + if i < n {
            1int
        } else {
            0int
        },
    decreases n,
{
    if n > 0 {
        lemma_prefix_sum_update(s, i, n - 1);
    }
}

/// The buckets always add up to the number of recorded latencies (while no
/// counter has wrapped around): recording keeps the sum equal to the count.
pub proof fn lemma_record_keeps_bucket_sum(h: HistogramState, latency_us: u64)
    requires
        h.buckets.len() == BUCKET_COUNT,
        prefix_sum(h.buckets, 10) == h.count,
        h.count < usize::MAX,
    ensures
        h.recorded(latency_us).buckets.len() == BUCKET_COUNT,
        prefix_sum(h.recorded(latency_us).buckets, 10) == h.recorded(latency_us).count,
{
    lemma_bucket_holds_latency(latency_us);
    let i = bucket_index(latency_us);
    assert(h.buckets[i] <= prefix_sum(h.buckets, 10)) by {
        lemma_prefix_sum_ge_entry(h.buckets, i, 10);
    }
    lemma_prefix_sum_update(h.buckets, i, 10);
}

/// Every entry among the first `n` is at most their sum.
proof fn lemma_prefix_sum_ge_entry(s: Seq<usize>, i: int, n: int)
    requires
        0 <= i < n <= s.len(),
    ensures
        s[i] <= prefix_sum(s, n),
    decreases n,
{
    if i < n - 1 {
        lemma_prefix_sum_ge_entry(s, i, n - 1);
    }
    lemma_prefix_sum_nonneg(s, n - 1);
}

/// Sums of counts are never negative.
proof fn lemma_prefix_sum_nonneg(s: Seq<usize>, n: int)
    ensures
        prefix_sum(s, n) >= 0,
    decreases n,
{
    if n > 0 {
        lemma_prefix_sum_nonneg(s, n - 1);
    }
}

proof fn lemma_p99_scan_from(b: Seq<usize>, k: int, i: int, t: int, max_us: u64)
    requires
        b.len() == BUCKET_COUNT,
        0 <= k <= i < 10,
        prefix_sum(b, i + 1) >= t,
        forall|j: int| 0 <= j < i ==> #[trigger] prefix_sum(b, j + 1) < t,
    ensures
        p99_scan(b, k, prefix_sum(b, k), t, max_us) == if i < 9 {
            bucket_bound(i)
        } else {
            max_us
        },
    decreases i - k,
{
    assert(prefix_sum(b, k + 1) == prefix_sum(b, k) + b[k]);
    if k < i {
        assert(prefix_sum(b, k + 1) < t);
        lemma_p99_scan_from(b, k + 1, i, t, max_us);
    }
}

proof fn lemma_p99_scan_none(b: Seq<usize>, k: int, t: int, max_us: u64)
    requires
        b.len() == BUCKET_COUNT,
        0 <= k <= 10,
        forall|j: int| 0 <= j < 10 ==> #[trigger] prefix_sum(b, j + 1) < t,
    ensures
        p99_scan(b, k, prefix_sum(b, k), t, max_us) == 0,
    decreases 10 - k,
{
    if k < 10 {
        assert(prefix_sum(b, k + 1) == prefix_sum(b, k) + b[k]);
        assert(prefix_sum(b, k + 1) < t);
        lemma_p99_scan_none(b, k + 1, t, max_us);
    }
}

/// The reported 99th percentile is the upper bound of the first bucket by
/// which at least 99% of the samples have been counted (the threshold is
/// the least whole number of samples that is at least 99% of them); the
/// overflow bucket reports the largest latency seen, and 0 is reported only
/// if the buckets never reach that many samples.
pub proof fn lemma_p99_is_first_bucket_reaching_99_percent(h: HistogramState, i: int)
    requires
        h.buckets.len() == BUCKET_COUNT,
        0 <= i < 10,
    ensures
        100 * p99_threshold(h.count) >= 99 * h.count,
        100 * (p99_threshold(h.count) - 1) < 99 * h.count,
        (prefix_sum(h.buckets, i + 1) >= p99_threshold(h.count) && forall|j: int|
            0 <= j < i ==> #[trigger] prefix_sum(h.buckets, j + 1) < p99_threshold(h.count)) ==> h.p99_us()
            == if i < 9 {
            bucket_bound(i)
        } else {
            h.max_us
        },
        (forall|j: int| 0 <= j < 10 ==> #[trigger] prefix_sum(h.buckets, j + 1) < p99_threshold(h.count))
            ==> h.p99_us() == 0,
{
    let t = p99_threshold(h.count);
    if prefix_sum(h.buckets, i + 1) >= t && forall|j: int| 0 <= j < i ==> #[trigger] prefix_sum(h.buckets, j + 1) < t {
        lemma_p99_scan_from(h.buckets, 0, i, t, h.max_us);
    }
    if forall|j: int| 0 <= j < 10 ==> #[trigger] prefix_sum(h.buckets, j + 1) < t {
        lemma_p99_scan_none(h.buckets, 0, t, h.max_us);
    }
}

/// The smallest and largest latency seen bracket every recorded latency:
/// after recording a latency, it lies between the two.
pub proof fn lemma_min_max_bracket(h: HistogramState, latency_us: u64)
    ensures
        h.recorded(latency_us).min_us <= latency_us <= h.recorded(latency_us).max_us,
        h.recorded(latency_us).min_us <= h.min_us,
        h.recorded(latency_us).max_us >= h.max_us,
{
}

/// Clearing forgets everything recorded, whatever was recorded before.
pub proof fn lemma_reset_forgets(s: TrackerState, latency_us: u64)
    ensures
        s.searched(latency_us).cleared() == s.cleared(),
        s.cleared().during_optimization == HistogramState::empty(),
        s.cleared().normal == HistogramState::empty(),
{
}


/// The histogram after recording each latency of `l`, in order, into `h`.
pub open spec fn record_all(h: HistogramState, l: Seq<u64>) -> HistogramState
    decreases l.len(),
{
    if l.len() == 0 {
        h
    } else {
        record_all(h, l.drop_last()).recorded(l.last())
    }
}

/// Sum of the latencies in `l`.
pub open spec fn latency_sum(l: Seq<u64>) -> int
    decreases l.len(),
{
    if l.len() == 0 {
        0
    } else {
        latency_sum(l.drop_last()) + l.last()
    }
}

/// Number of latencies in `l` that fall into bucket `i`.
pub open spec fn count_in_bucket(l: Seq<u64>, i: int) -> int
    decreases l.len(),
{
    if l.len() == 0 {
        0
    } else {
        count_in_bucket(l.drop_last(), i) + if bucket_index(l.last()) == i {
            1int
        } else {
            0int
        }
    }
}

/// Smallest latency in `l`; `u64::MAX` for no latencies.
pub open spec fn latency_min(l: Seq<u64>) -> u64
    decreases l.len(),
{
    if l.len() == 0 {
        u64::MAX
    } else if l.last() < latency_min(l.drop_last()) {
        l.last()
    } else {
        latency_min(l.drop_last())
    }
}

/// Largest latency in `l`; 0 for no latencies.
pub open spec fn latency_max(l: Seq<u64>) -> u64
    decreases l.len(),
{
    if l.len() == 0 {
        0
    } else if l.last() > latency_max(l.drop_last()) {
        l.last()
    } else {
        latency_max(l.drop_last())
    }
}

proof fn lemma_count_in_bucket_bounded(l: Seq<u64>, i: int)
    ensures
        0 <= count_in_bucket(l, i) <= l.len(),
    decreases l.len(),
{
    if l.len() > 0 {
        lemma_count_in_bucket_bounded(l.drop_last(), i);
    }
}

proof fn lemma_latency_sum_monotone(l: Seq<u64>)
    ensures
        l.len() > 0 ==> latency_sum(l.drop_last()) <= latency_sum(l),
        latency_sum(l) >= 0,
    decreases l.len(),
{
    if l.len() > 0 {
        lemma_latency_sum_monotone(l.drop_last());
    }
}

/// Whatever latencies are recorded into an empty histogram, in whatever
/// order, it counts exactly them: the count is their number, each bucket
/// counts the latencies that fall into it and the buckets add up to the
/// count, and the smallest and largest latency seen are theirs (with
/// `u64::MAX` and 0 standing for none: a histogram that counts nothing
/// always holds the minimum sentinel and a maximum of 0). This holds while
/// the number of latencies fits the counters.
pub proof fn lemma_history_counts(l: Seq<u64>)
    requires
        l.len() <= usize::MAX,
    ensures
        record_all(HistogramState::empty(), l).buckets.len() == BUCKET_COUNT,
        record_all(HistogramState::empty(), l).count == l.len(),
        forall|i: int|
            0 <= i < 10 ==> #[trigger] record_all(HistogramState::empty(), l).buckets[i]
                == count_in_bucket(l, i),
        prefix_sum(record_all(HistogramState::empty(), l).buckets, 10) == l.len(),
        record_all(HistogramState::empty(), l).min_us == latency_min(l),
        record_all(HistogramState::empty(), l).max_us == latency_max(l),
        record_all(HistogramState::empty(), l).count == 0 ==> record_all(
            HistogramState::empty(),
            l,
        ).min_us == u64::MAX && record_all(HistogramState::empty(), l).max_us == 0,
    decreases l.len(),
{
    if l.len() == 0 {
        reveal_with_fuel(prefix_sum, 11);
    } else {
        let prev = l.drop_last();
        lemma_history_counts(prev);
        let h = record_all(HistogramState::empty(), prev);
        let x = l.last();
        lemma_bucket_holds_latency(x);
        let b = bucket_index(x);
        lemma_count_in_bucket_bounded(prev, b);
        assert(h.buckets[b] < usize::MAX);
        lemma_record_keeps_bucket_sum(h, x);
        assert forall|i: int| 0 <= i < 10 implies #[trigger] record_all(
            HistogramState::empty(),
            l,
        ).buckets[i] == count_in_bucket(l, i) by {
            if i != b {
                assert(h.buckets[i] == count_in_bucket(prev, i));
            }
        }
    }
}

/// Whatever latencies are recorded into an empty histogram, its total is
/// their sum and its mean is the sum divided by their number, rounded down,
/// while the sum fits the 64-bit total (the counts need no such bound: see
/// [`lemma_history_counts`]).
pub proof fn lemma_history_statistics(l: Seq<u64>)
    requires
        l.len() <= usize::MAX,
        latency_sum(l) <= u64::MAX,
    ensures
        record_all(HistogramState::empty(), l).count == l.len(),
        record_all(HistogramState::empty(), l).total_us == latency_sum(l),
        l.len() > 0 ==> record_all(HistogramState::empty(), l).mean_us() == latency_sum(l)
            / (l.len() as int),
    decreases l.len(),
{
    lemma_history_counts(l);
    if l.len() > 0 {
        lemma_latency_sum_monotone(l);
        lemma_history_statistics(l.drop_last());
    }
}

/// Recording one more latency into a histogram that holds any history
/// (shorter than the counter's range) adds one to the bucket the latency
/// falls into and to the count, leaves every other bucket as it was, keeps
/// the larger of the old maximum and the latency, and takes the latency as
/// the minimum if nothing was counted before, the smaller of the two
/// otherwise.
pub proof fn lemma_record_step(l: Seq<u64>, latency_us: u64)
    requires
        l.len() < usize::MAX,
    ensures
        ({
            let h = record_all(HistogramState::empty(), l);
            let h2 = record_all(HistogramState::empty(), l.push(latency_us));
            let b = bucket_index(latency_us);
            &&& 0 <= b < 10
            &&& h2.buckets.len() == BUCKET_COUNT
            &&& h2.buckets[b] == h.buckets[b] + 1
            &&& forall|i: int| 0 <= i < 10 && i != b ==> #[trigger] h2.buckets[i] == h.buckets[i]
            &&& h2.count == h.count + 1
            &&& h2.max_us == if latency_us > h.max_us {
                latency_us
            } else {
                h.max_us
            }
            &&& h2.min_us == if h.count == 0 {
                latency_us
            } else if latency_us < h.min_us {
                latency_us
            } else {
                h.min_us
            }
        }),
{
    let l2 = l.push(latency_us);
    assert(l2.drop_last() =~= l);
    lemma_history_counts(l);
    lemma_bucket_holds_latency(latency_us);
    let b = bucket_index(latency_us);
    lemma_count_in_bucket_bounded(l, b);
}

/// However many optimizations start and end, in whatever order (`true` for
/// a start, `false` for an end), from a tracker state `s`.
pub open spec fn run_optimizations(s: TrackerState, ops: Seq<bool>) -> TrackerState
    decreases ops.len(),
{
    if ops.len() == 0 {
        s
    } else if ops.last() {
        run_optimizations(s, ops.drop_last()).started()
    } else {
        run_optimizations(s, ops.drop_last()).ended()
    }
}

/// Number of starts (`true`) in `ops`.
pub open spec fn start_count(ops: Seq<bool>) -> int
    decreases ops.len(),
{
    if ops.len() == 0 {
        0
    } else {
        start_count(ops.drop_last()) + if ops.last() {
            1int
        } else {
            0int
        }
    }
}

/// The running number of optimizations after the first `n` operations.
pub open spec fn running_after(initial: int, ops: Seq<bool>, n: int) -> int {
    initial + 2 * start_count(ops.subrange(0, n)) - n
}

/// The optimization counter counts: after any sequence of starts and ends
/// in which the running number never drops below zero nor exceeds the
/// counter's range, it equals the number it began with plus the starts minus
/// the ends, and the two histograms are untouched.
pub proof fn lemma_optimization_counter(s: TrackerState, ops: Seq<bool>)
    requires
        forall|n: int|
            0 <= n <= ops.len() ==> 0 <= #[trigger] running_after(s.active as int, ops, n)
                <= usize::MAX,
    ensures
        run_optimizations(s, ops).active == s.active + start_count(ops) - (ops.len() - start_count(
            ops,
        )),
        run_optimizations(s, ops).during_optimization == s.during_optimization,
        run_optimizations(s, ops).normal == s.normal,
    decreases ops.len(),
{
    if ops.len() > 0 {
        let prev = ops.drop_last();
        let k = ops.len() - 1;
        assert forall|n: int| 0 <= n <= prev.len() implies 0 <= #[trigger] running_after(
            s.active as int,
            prev,
            n,
        ) <= usize::MAX by {
            assert(prev.subrange(0, n) =~= ops.subrange(0, n));
            assert(running_after(s.active as int, ops, n) == running_after(
                s.active as int,
                prev,
                n,
            ));
        }
        lemma_optimization_counter(s, prev);
        assert(ops.subrange(0, ops.len() as int) =~= ops);
        assert(ops.subrange(0, k) =~= prev);
        assert(0 <= running_after(s.active as int, ops, ops.len() as int) <= usize::MAX);
        assert(0 <= running_after(s.active as int, ops, k) <= usize::MAX);
    }
}

/// From a fresh tracker, after any starts and ends in which no prefix has
/// more ends than starts (an unmatched end would wrap the counter), an
/// optimization is running exactly when there were more starts than ends:
/// periods that overlap keep it running until all of them have ended.
pub proof fn lemma_optimizing_iff_more_starts(ops: Seq<bool>)
    requires
        forall|n: int|
            0 <= n <= ops.len() ==> 0 <= #[trigger] running_after(0, ops, n) <= usize::MAX,
    ensures
        run_optimizations(TrackerState::initial(), ops).optimizing() == (start_count(ops) > ops.len()
            - start_count(ops)),
{
    lemma_optimization_counter(TrackerState::initial(), ops);
}

/// Recording a latency of `l` microseconds counts exactly that latency: the
/// count grows by one, the total by `l`, the largest latency seen becomes
/// at least `l` and stays one of the old maximum and `l`, the smallest
/// likewise, and exactly the bucket whose range `[lower, upper)` holds `l`
/// grows by one (bucket 0 has no lower bound, bucket 9 no upper one). This
/// holds while no counter is at its limit.
pub proof fn lemma_record_counts_the_latency(h: HistogramState, l: u64)
    requires
        h.buckets.len() == BUCKET_COUNT,
        forall|i: int| 0 <= i < 10 ==> #[trigger] h.buckets[i] < usize::MAX,
        h.count < usize::MAX,
        h.total_us + l <= u64::MAX,
    ensures
        h.recorded(l).buckets.len() == BUCKET_COUNT,
        h.recorded(l).count == h.count + 1,
        h.recorded(l).total_us == h.total_us + l,
        h.recorded(l).max_us >= l,
        h.recorded(l).max_us >= h.max_us,
        h.recorded(l).max_us == l || h.recorded(l).max_us == h.max_us,
        h.recorded(l).min_us <= l,
        h.recorded(l).min_us <= h.min_us,
        h.recorded(l).min_us == l || h.recorded(l).min_us == h.min_us,
        forall|i: int|
            0 <= i < 10 ==> #[trigger] h.recorded(l).buckets[i] == h.buckets[i] + if (i == 0
                || bucket_bound(i - 1) <= l) && (i == 9 || l < bucket_bound(i)) {
                1int
            } else {
                0int
            },
{
    lemma_bucket_holds_latency(l);
    let b = bucket_index(l);
    assert forall|i: int| 0 <= i < 10 implies #[trigger] h.recorded(l).buckets[i] == h.buckets[i]
        + if (i == 0 || bucket_bound(i - 1) <= l) && (i == 9 || l < bucket_bound(i)) {
        1int
    } else {
        0int
    } by {
        if i < b {
            assert(l >= bucket_bound(i)) by {
                lemma_bucket_bound_monotone(i, b - 1);
            }
        } else if i > b {
            assert(bucket_bound(i - 1) > l) by {
                lemma_bucket_bound_monotone(b, i - 1);
            }
        }
    }
}

/// Bucket bounds grow with the bucket.
proof fn lemma_bucket_bound_monotone(i: int, j: int)
    requires
        0 <= i <= j < 9,
    ensures
        bucket_bound(i) <= bucket_bound(j),
{
}

/// A search of `l` microseconds is recorded, as `l` microseconds, into the
/// optimization histogram while an optimization runs and into the normal
/// one otherwise: that histogram's count grows by one and its total by
/// `l`, its maximum becomes at least `l` and its minimum at most `l`; the
/// other histogram and the optimization count do not change.
pub proof fn lemma_search_recorded_in_microseconds(s: TrackerState, l: u64)
    ensures
        s.searched(l).active == s.active,
        s.optimizing() ==> {
            let h = s.searched(l).during_optimization;
            &&& s.searched(l).normal == s.normal
            &&& h.count == s.during_optimization.count.wrapping_add(1)
            &&& h.total_us == s.during_optimization.total_us.wrapping_add(l)
            &&& h.max_us >= l
            &&& h.min_us <= l
        },
        !s.optimizing() ==> {
            let h = s.searched(l).normal;
            &&& s.searched(l).during_optimization == s.during_optimization
            &&& h.count == s.normal.count.wrapping_add(1)
            &&& h.total_us == s.normal.total_us.wrapping_add(l)
            &&& h.max_us >= l
            &&& h.min_us <= l
        },
{
}

} // verus!
