//! The metrics window of one job: a latency histogram and two counters, summarised and
//! cleared at every report boundary.

use crate::histogram::{
    hist_held, hist_max, hist_mean, hist_min, hist_new, hist_record, hist_reset, hist_shape,
    hist_value_at_percentile, highest_reading, lowest_reading, mean_reading, percentile_reading,
    LatencyHistogram, MAX_HELD,
};
use vstd::multiset::Multiset;
use vstd::prelude::*;

verus! {

/// Shortest latency the histogram tells apart, in microseconds.
pub const MIN_LATENCY_US: u64 = 1;

/// Longest latency the histogram tracks, in microseconds: one hour.
pub const MAX_LATENCY_US: u64 = 3_600_000_000;

/// Significant decimal digits the histogram keeps.
pub const SIGNIFICANT_DIGITS: u8 = 3;

/// The most requests one window counts. Recording stops there, so that the counters cannot
/// overflow and the histogram's quantiles stay exact.
pub const MAX_WINDOW_COUNT: u64 = MAX_HELD;

/// The bounds every window's histogram is made with.
pub open spec fn window_shape() -> (u64, u64, u8) {
    (MIN_LATENCY_US, MAX_LATENCY_US, SIGNIFICANT_DIGITS)
}

/// A latency brought into the range the histogram tracks.
pub open spec fn clamp_latency(latency_us: u64) -> u64 {
    if latency_us < MIN_LATENCY_US {
        MIN_LATENCY_US
    } else if latency_us > MAX_LATENCY_US {
        MAX_LATENCY_US
    } else {
        latency_us
    }
}

/// `value` held to `[lo, hi]`; `lo` wins where the two cross.
pub open spec fn clamp_between(value: u64, lo: u64, hi: u64) -> u64 {
    if value < lo {
        lo
    } else if value > hi {
        hi
    } else {
        value
    }
}

/// What one finished request adds to a window.
#[derive(Clone, Copy, Debug, PartialEq, Eq, Structural)]
pub enum Recording {
    /// A success and its latency in microseconds.
    Success(u64),
    /// An error, with its latency in microseconds where one was measured.
    Error(Option<u64>),
}

/// The summary of one window. Latencies are in microseconds.
#[derive(Clone, Copy, Debug, PartialEq, Eq, Structural)]
pub struct Summary {
    pub count: u64,
    pub success: u64,
    pub error: u64,
    pub min: u64,
    pub max: u64,
    pub mean: u64,
    pub p50: u64,
    pub p90: u64,
    pub p95: u64,
    pub p99: u64,
}

/// The readings taken from a histogram for one summary.
#[derive(Clone, Copy, Debug, PartialEq, Eq, Structural)]
pub struct Readings {
    pub min: u64,
    pub max: u64,
    pub mean: u64,
    pub p50: u64,
    pub p90: u64,
    pub p95: u64,
    pub p99: u64,
}

/// The summary of a window with the given counters and histogram readings: all latency fields
/// are zero while nothing was counted, and the mean is held to `[min, max]`, since the
/// histogram's floating-point mean may land a hair outside the recorded range. The count is
/// the sum of the counters, as far as `u64` goes.
pub open spec fn summary_from(success: u64, error: u64, r: Readings) -> Summary {
    if success + error == 0 {
        Summary {
            count: 0,
            success: 0,
            error: 0,
            min: 0,
            max: 0,
            mean: 0,
            p50: 0,
            p90: 0,
            p95: 0,
            p99: 0,
        }
    } else {
        Summary {
            count: if success + error > u64::MAX {
                u64::MAX
            } else {
                (success + error) as u64
            },
            success,
            error,
            min: r.min,
            max: r.max,
            mean: clamp_between(r.mean, r.min, r.max),
            p50: r.p50,
            p90: r.p90,
            p95: r.p95,
            p99: r.p99,
        }
    }
}

/// The percentiles rise with the percentage and stay below the maximum; the mean lies between
/// the extremes.
pub open spec fn summary_ordered(s: Summary) -> bool {
    &&& s.p50 <= s.p90
    &&& s.p90 <= s.p95
    &&& s.p95 <= s.p99
    &&& s.p99 <= s.max
    &&& s.min <= s.mean
    &&& s.mean <= s.max
}

impl Summary {
    /// Builds a summary from the counters and the histogram's readings.
    pub fn from_readings(success: u64, error: u64, r: Readings) -> (s: Summary)
        ensures
            s == summary_from(success, error, r),
    {
        if success == 0 && error == 0 {
            Summary {
                count: 0,
                success: 0,
                error: 0,
                min: 0,
                max: 0,
                mean: 0,
                p50: 0,
                p90: 0,
                p95: 0,
                p99: 0,
            }
        } else {
            let mean: u64 = if r.mean < r.min {
                r.min
            } else if r.mean > r.max {
                r.max
            } else {
                r.mean
            };
            Summary {
                count: match success.checked_add(error) {
                    Some(count) => count,
                    None => u64::MAX,
                },
                success,
                error,
                min: r.min,
                max: r.max,
                mean,
                p50: r.p50,
                p90: r.p90,
                p95: r.p95,
                p99: r.p99,
            }
        }
    }
}

/// What a window holds, as mathematics: the latencies sampled and the two counts.
pub struct WindowModel {
    pub samples: Multiset<u64>,
    pub success: nat,
    pub error: nat,
}

impl WindowModel {
    /// The window in which nothing was recorded.
    pub open spec fn empty() -> WindowModel {
        WindowModel { samples: Multiset::empty(), success: 0, error: 0 }
    }

    /// Requests counted so far.
    pub open spec fn count(self) -> nat {
        self.success + self.error
    }

    /// Whether the window still takes recordings.
    pub open spec fn has_room(self) -> bool {
        self.count() < MAX_WINDOW_COUNT
    }

    /// The window after one more recording. A full window stays as it is.
    pub open spec fn with(self, r: Recording) -> WindowModel {
        if !self.has_room() {
            self
        } else {
            match r {
                Recording::Success(latency_us) => WindowModel {
                    samples: self.samples.insert(clamp_latency(latency_us)),
                    success: self.success + 1,
                    error: self.error,
                },
                Recording::Error(Some(latency_us)) => WindowModel {
                    samples: self.samples.insert(clamp_latency(latency_us)),
                    success: self.success,
                    error: self.error + 1,
                },
                Recording::Error(None) => WindowModel {
                    samples: self.samples,
                    success: self.success,
                    error: self.error + 1,
                },
            }
        }
    }

    /// The window after a reset: empty, whatever it held.
    pub open spec fn cleared(self) -> WindowModel {
        WindowModel::empty()
    }

    /// The window after a run of recordings, oldest first.
    pub open spec fn replay(self, rs: Seq<Recording>) -> WindowModel
        decreases rs.len(),
    {
        if rs.len() == 0 {
            self
        } else {
            self.replay(rs.drop_last()).with(rs.last())
        }
    }

    /// What the histogram reports for the samples of this window.
    pub open spec fn readings(self) -> Readings {
        Readings {
            min: lowest_reading(self.samples, window_shape()),
            max: highest_reading(self.samples, window_shape()),
            mean: mean_reading(self.samples, window_shape()),
            p50: percentile_reading(self.samples, window_shape(), 50),
            p90: percentile_reading(self.samples, window_shape(), 90),
            p95: percentile_reading(self.samples, window_shape(), 95),
            p99: percentile_reading(self.samples, window_shape(), 99),
        }
    }

    /// The summary a snapshot of this window gives.
    pub open spec fn summary(self) -> Summary {
        summary_from(self.success as u64, self.error as u64, self.readings())
    }
}

/// Latency histogram and outcome counters of the current window.
pub struct MetricsCollector {
    histogram: LatencyHistogram,
    success_count: u64,
    error_count: u64,
    window_start: u64,
}

impl MetricsCollector {
    #[verifier::type_invariant]
    spec fn well_formed(self) -> bool {
        &&& hist_shape(self.histogram) == window_shape()
        &&& hist_held(self.histogram).len() <= self.success_count + self.error_count
        &&& self.success_count + self.error_count <= MAX_WINDOW_COUNT
    }

    /// What the window holds.
    pub closed spec fn window(&self) -> WindowModel {
        WindowModel {
            samples: hist_held(self.histogram),
            success: self.success_count as nat,
            error: self.error_count as nat,
        }
    }

    /// The monotonic time, in microseconds, at which the window began.
    pub closed spec fn started_at(&self) -> u64 {
        self.window_start
    }

    /// An empty window that began at time 0.
    pub fn new() -> (c: MetricsCollector)
        ensures
            c.window() == WindowModel::empty(),
            c.started_at() == 0,
    {
        Self::with_start(0)
    }

    /// An empty window that began at `now_us`.
    pub fn with_start(now_us: u64) -> (c: MetricsCollector)
        ensures
            c.window() == WindowModel::empty(),
            c.started_at() == now_us,
    {
        let made = hist_new(MIN_LATENCY_US, MAX_LATENCY_US, SIGNIFICANT_DIGITS);
        MetricsCollector {
            histogram: made.unwrap(),
            success_count: 0,
            error_count: 0,
            window_start: now_us,
        }
    }

    /// Requests counted in the window so far.
    pub fn total_count(&self) -> (n: u64)
        ensures
            n == self.window().count(),
            n <= MAX_WINDOW_COUNT,
            self.window().samples.len() <= n,
    {
        proof {
            use_type_invariant(self);
        }
        self.success_count + self.error_count
    }

    /// Counts one success and samples its latency, brought into the histogram's range.
    /// Returns whether the window had room for it; a full window is left as it was.
    pub fn record_success(&mut self, latency_us: u64) -> (recorded: bool)
        ensures
            recorded == old(self).window().has_room(),
            final(self).window() == old(self).window().with(Recording::Success(latency_us)),
            final(self).started_at() == old(self).started_at(),
    {
        proof {
            use_type_invariant(&*self);
        }
        if self.success_count + self.error_count >= MAX_WINDOW_COUNT {
            return false;
        }
        let clamped = clamp_to_range(latency_us);
        self.success_count = self.success_count + 1;
        let taken = hist_record(&mut self.histogram, clamped);
        assert(taken);
        true
    }

    /// Counts one error and, where a latency was measured, samples it, brought into the
    /// histogram's range. Returns whether the window had room for it; a full window is left
    /// as it was.
    pub fn record_error(&mut self, latency_us: Option<u64>) -> (recorded: bool)
        ensures
            recorded == old(self).window().has_room(),
            final(self).window() == old(self).window().with(Recording::Error(latency_us)),
            final(self).started_at() == old(self).started_at(),
    {
        proof {
            use_type_invariant(&*self);
        }
        if self.success_count + self.error_count >= MAX_WINDOW_COUNT {
            return false;
        }
        self.error_count = self.error_count + 1;
        match latency_us {
            Some(l) => {
                let clamped = clamp_to_range(l);
                let taken = hist_record(&mut self.histogram, clamped);
                assert(taken);
            },
            None => {},
        }
        true
    }

    /// Applies one recording: a success or an error.
    pub fn record(&mut self, r: Recording) -> (recorded: bool)
        ensures
            recorded == old(self).window().has_room(),
            final(self).window() == old(self).window().with(r),
            final(self).started_at() == old(self).started_at(),
    {
        match r {
            Recording::Success(latency_us) => self.record_success(latency_us),
            Recording::Error(latency_us) => self.record_error(latency_us),
        }
    }

    /// The summary of the current window. The window itself is left untouched.
    pub fn snapshot(&self) -> (s: Summary)
        ensures
            s == self.window().summary(),
            s.count == self.window().count(),
            s.success + s.error == s.count,
            summary_ordered(s),
    {
        proof {
            use_type_invariant(self);
        }
        let min = hist_min(&self.histogram);
        let max = hist_max(&self.histogram);
        let mean = hist_mean(&self.histogram);
        let p50 = hist_value_at_percentile(&self.histogram, 50);
        let p90 = hist_value_at_percentile(&self.histogram, 90);
        let p95 = hist_value_at_percentile(&self.histogram, 95);
        let p99 = hist_value_at_percentile(&self.histogram, 99);
        Summary::from_readings(
            self.success_count,
            self.error_count,
            Readings { min, max, mean, p50, p90, p95, p99 },
        )
    }

    /// Total, successes, errors, mean, 95th and 99th percentile of the current window. The
    /// successes and errors add up to the total, and the 95th percentile is never above the
    /// 99th.
    pub fn get_stats(&self) -> (stats: (u64, u64, u64, u64, u64, u64))
        ensures
            stats == ({
                let s = self.window().summary();
                (s.count, s.success, s.error, s.mean, s.p95, s.p99)
            }),
            stats.0 == self.window().count(),
            stats.1 + stats.2 == stats.0,
            stats.4 <= stats.5,
    {
        let s = self.snapshot();
        (s.count, s.success, s.error, s.mean, s.p95, s.p99)
    }

    /// Clears the histogram and the counters and starts a new window at `now_us`.
    pub fn reset(&mut self, now_us: u64)
        ensures
            final(self).window() == old(self).window().cleared(),
            final(self).started_at() == now_us,
    {
        proof {
            use_type_invariant(&*self);
        }
        hist_reset(&mut self.histogram);
        self.success_count = 0;
        self.error_count = 0;
        self.window_start = now_us;
    }

    /// The monotonic time, in microseconds, at which the window began.
    pub fn window_start(&self) -> (t: u64)
        ensures
            t == self.started_at(),
    {
        self.window_start
    }
}

/// Brings a latency into the range the histogram tracks.
pub fn clamp_to_range(latency_us: u64) -> (clamped: u64)
    ensures
        clamped == clamp_latency(latency_us),
        MIN_LATENCY_US <= clamped <= MAX_LATENCY_US,
{
    if latency_us < MIN_LATENCY_US {
        MIN_LATENCY_US
    } else if latency_us > MAX_LATENCY_US {
        MAX_LATENCY_US
    } else {
        latency_us
    }
}

/// A reset forgets: whatever was recorded before it, the window reports after it exactly
/// what a window that never held anything reports after the same recordings.
pub proof fn lemma_reset_forgets(
    start: WindowModel,
    before_reset: Seq<Recording>,
    after_reset: Seq<Recording>,
)
    ensures
        start.replay(before_reset).cleared().replay(after_reset) == WindowModel::empty().replay(
            after_reset,
        ),
        start.replay(before_reset).cleared().replay(after_reset).summary()
            == WindowModel::empty().replay(after_reset).summary(),
{
}

/// The latencies that a run of recordings carries, each brought into the histogram's range.
pub open spec fn latencies_of(rs: Seq<Recording>) -> Multiset<u64>
    decreases rs.len(),
{
    if rs.len() == 0 {
        Multiset::empty()
    } else {
        match rs.last() {
            Recording::Success(latency_us) => latencies_of(rs.drop_last()).insert(
                clamp_latency(latency_us),
            ),
            Recording::Error(Some(latency_us)) => latencies_of(rs.drop_last()).insert(
                clamp_latency(latency_us),
            ),
            Recording::Error(None) => latencies_of(rs.drop_last()),
        }
    }
}

/// The successes in a run of recordings.
pub open spec fn successes_in(rs: Seq<Recording>) -> nat
    decreases rs.len(),
{
    if rs.len() == 0 {
        0
    } else if rs.last() is Success {
        successes_in(rs.drop_last()) + 1
    } else {
        successes_in(rs.drop_last())
    }
}

/// A window that began empty holds exactly what was recorded since, each recording once, as
/// long as it has room: the latencies that the recordings carry and no others, as many
/// successes as they name, and as many errors as the rest of them.
pub proof fn lemma_replay_holds_exactly(rs: Seq<Recording>)
    requires
        rs.len() <= MAX_WINDOW_COUNT,
    ensures
        WindowModel::empty().replay(rs).samples == latencies_of(rs),
        WindowModel::empty().replay(rs).success == successes_in(rs),
        WindowModel::empty().replay(rs).success + WindowModel::empty().replay(rs).error
            == rs.len(),
        WindowModel::empty().replay(rs).samples.len() <= rs.len(),
    decreases rs.len(),
{
    if rs.len() > 0 {
        lemma_replay_holds_exactly(rs.drop_last());
    }
}

/// A window takes recordings as far as it has room and is deaf to the rest: whatever the
/// length of the run, the window that began empty counts as many requests as were recorded,
/// up to its limit, and a run longer than the limit leaves it as its first recordings up to
/// the limit did.
pub proof fn lemma_replay_holds_what_fits(rs: Seq<Recording>)
    ensures
        rs.len() <= MAX_WINDOW_COUNT ==> WindowModel::empty().replay(rs).count() == rs.len(),
        rs.len() > MAX_WINDOW_COUNT ==> WindowModel::empty().replay(rs)
            == WindowModel::empty().replay(rs.take(MAX_WINDOW_COUNT as int)),
        rs.len() > MAX_WINDOW_COUNT ==> WindowModel::empty().replay(rs).count()
            == MAX_WINDOW_COUNT,
    decreases rs.len(),
{
    if rs.len() <= MAX_WINDOW_COUNT {
        lemma_replay_holds_exactly(rs);
    } else {
        let head = rs.drop_last();
        lemma_replay_holds_what_fits(head);
        if head.len() > MAX_WINDOW_COUNT {
            assert(rs.take(MAX_WINDOW_COUNT as int) =~= head.take(MAX_WINDOW_COUNT as int));
        } else {
            assert(rs.take(MAX_WINDOW_COUNT as int) =~= head);
        }
    }
}

/// What happens to a window while a job runs: a request is recorded, or the reporter takes
/// the summary of the window and clears it.
pub enum WindowEvent {
    Recorded(Recording),
    Reported,
}

/// The window after a run of events, oldest first.
pub open spec fn window_after(start: WindowModel, events: Seq<WindowEvent>) -> WindowModel
    decreases events.len(),
{
    if events.len() == 0 {
        start
    } else {
        let before = window_after(start, events.drop_last());
        match events.last() {
            WindowEvent::Recorded(r) => before.with(r),
            WindowEvent::Reported => before.cleared(),
        }
    }
}

/// The requests that the reports of a run count, all reports together.
pub open spec fn reported_count(start: WindowModel, events: Seq<WindowEvent>) -> nat
    decreases events.len(),
{
    if events.len() == 0 {
        0
    } else {
        let earlier = reported_count(start, events.drop_last());
        match events.last() {
            WindowEvent::Recorded(_) => earlier,
            WindowEvent::Reported => earlier + window_after(start, events.drop_last()).count(),
        }
    }
}

/// The successes that the reports of a run count, all reports together.
pub open spec fn reported_successes(start: WindowModel, events: Seq<WindowEvent>) -> nat
    decreases events.len(),
{
    if events.len() == 0 {
        0
    } else {
        let earlier = reported_successes(start, events.drop_last());
        match events.last() {
            WindowEvent::Recorded(_) => earlier,
            WindowEvent::Reported => earlier + window_after(start, events.drop_last()).success,
        }
    }
}

/// The requests recorded in a run of events.
pub open spec fn recorded_in(events: Seq<WindowEvent>) -> nat
    decreases events.len(),
{
    if events.len() == 0 {
        0
    } else if events.last() is Recorded {
        recorded_in(events.drop_last()) + 1
    } else {
        recorded_in(events.drop_last())
    }
}

/// The successes recorded in a run of events.
pub open spec fn successes_recorded_in(events: Seq<WindowEvent>) -> nat
    decreases events.len(),
{
    if events.len() == 0 {
        0
    } else {
        match events.last() {
            WindowEvent::Recorded(Recording::Success(_)) => successes_recorded_in(
                events.drop_last(),
            ) + 1,
            _ => successes_recorded_in(events.drop_last()),
        }
    }
}

/// No request is counted twice and none is lost at a report boundary: however recordings
/// and reports follow one another, what the reports have counted and what the window still
/// holds add up to what was recorded, for all requests and for the successes among them. A
/// run that ends with a report has therefore reported every request exactly once.
pub proof fn lemma_reports_account_for_every_recording(events: Seq<WindowEvent>)
    requires
        recorded_in(events) <= MAX_WINDOW_COUNT,
    ensures
        reported_count(WindowModel::empty(), events) + window_after(
            WindowModel::empty(),
            events,
        ).count() == recorded_in(events),
        reported_successes(WindowModel::empty(), events) + window_after(
            WindowModel::empty(),
            events,
        ).success == successes_recorded_in(events),
        events.len() > 0 && events.last() is Reported ==> reported_count(
            WindowModel::empty(),
            events,
        ) == recorded_in(events),
    decreases events.len(),
{
    if events.len() > 0 {
        lemma_reports_account_for_every_recording(events.drop_last());
    }
}

} // verus!
