//! The circuit breaker that guards one upstream: closed while the upstream answers, open
//! after a run of failures, half-open while probes test whether it has recovered.
//!
//! The breaker keeps no clock. Every call that depends on time takes the caller's monotonic
//! time in milliseconds.

use vstd::prelude::*;

verus! {

/// The three states of a breaker.
#[derive(Clone, Copy, Debug, PartialEq, Eq, Structural)]
pub enum State {
    Closed,
    Open,
    HalfOpen,
}

/// The parameters of a breaker.
#[derive(Clone, Copy, Debug, PartialEq, Eq, Structural)]
pub struct CircuitBreakerConfig {
    /// Consecutive failures that open a closed breaker. 0 behaves as 1.
    pub failure_threshold: u32,
    /// Time an open breaker refuses everything, in milliseconds.
    pub reset_timeout_ms: u64,
    /// Probes a half-open breaker lets run at once. The request that moves an open breaker
    /// to half-open is always let through and is the first of them.
    pub half_open_max_inflight: u32,
}

impl CircuitBreakerConfig {
    /// The failures that open the breaker: the configured threshold, at least 1.
    pub open spec fn trip_count(self) -> nat {
        if self.failure_threshold == 0 {
            1
        } else {
            self.failure_threshold as nat
        }
    }

    /// Five failures open the breaker, it stays open for thirty seconds, one probe at a time.
    pub open spec fn standard() -> CircuitBreakerConfig {
        CircuitBreakerConfig {
            failure_threshold: 5,
            reset_timeout_ms: 30_000,
            half_open_max_inflight: 1,
        }
    }

    /// The probes that may run at once: the configured number, at least the one request that
    /// found the timeout elapsed.
    pub open spec fn probe_limit(self) -> nat {
        if self.half_open_max_inflight == 0 {
            1
        } else {
            self.half_open_max_inflight as nat
        }
    }
}

impl Default for CircuitBreakerConfig {
    /// The standard configuration.
    fn default() -> (cfg: CircuitBreakerConfig)
        ensures
            cfg == CircuitBreakerConfig::standard(),
    {
        CircuitBreakerConfig {
            failure_threshold: 5,
            reset_timeout_ms: 30_000,
            half_open_max_inflight: 1,
        }
    }
}

/// A breaker as mathematics: its configuration and the four values that change.
pub struct BreakerView {
    pub config: CircuitBreakerConfig,
    pub state: State,
    pub consecutive_failures: nat,
    pub opened_at: u64,
    pub half_open_inflight: nat,
}

impl BreakerView {
    /// A closed breaker that has seen nothing.
    pub open spec fn fresh(config: CircuitBreakerConfig) -> BreakerView {
        BreakerView {
            config,
            state: State::Closed,
            consecutive_failures: 0,
            opened_at: 0,
            half_open_inflight: 0,
        }
    }

    /// What holds of every breaker: a closed one has not reached its threshold, and no more
    /// probes are in flight than the limit allows.
    pub open spec fn wf(self) -> bool {
        &&& self.state == State::Closed ==> self.consecutive_failures < self.config.trip_count()
        &&& self.consecutive_failures <= self.config.trip_count()
        &&& self.half_open_inflight <= self.config.probe_limit()
    }

    /// Time since the breaker opened, as seen at `now_ms`; 0 where the clock reads earlier.
    pub open spec fn open_for(self, now_ms: u64) -> nat {
        if now_ms >= self.opened_at {
            (now_ms - self.opened_at) as nat
        } else {
            0
        }
    }

    /// Whether a request asking at `now_ms` is let through.
    pub open spec fn admits(self, now_ms: u64) -> bool {
        match self.state {
            State::Closed => true,
            State::Open => self.open_for(now_ms) >= self.config.reset_timeout_ms,
            State::HalfOpen => self.half_open_inflight < self.config.half_open_max_inflight,
        }
    }

    /// The breaker with one more probe counted as let through.
    pub open spec fn counting_probe(self) -> BreakerView {
        BreakerView { half_open_inflight: self.half_open_inflight + 1, ..self }
    }

    /// The breaker after a request asked at `now_ms`. Whenever a request is let through
    /// while the breaker probes, it is counted. An open breaker whose timeout has elapsed
    /// becomes half-open with a probe count of 0 and lets the request through, which is
    /// thereby the first probe counted; a half-open breaker counts each probe it lets
    /// through. Nothing else changes.
    ///
    /// Were the request that finds the timeout elapsed not counted, a limit of `m` would let
    /// `m + 1` requests run at once against an upstream that has just failed, and with a
    /// limit of one it would not be the only one let through before a report comes in.
    pub open spec fn after_allow(self, now_ms: u64) -> BreakerView {
        match self.state {
            State::Closed => self,
            State::Open => if self.admits(now_ms) {
                (BreakerView {
                    state: State::HalfOpen,
                    half_open_inflight: 0,
                    ..self
                }).counting_probe()
            } else {
                self
            },
            State::HalfOpen => if self.admits(now_ms) {
                self.counting_probe()
            } else {
                self
            },
        }
    }

    /// The probes in flight once one of them has reported: one less, and none below none.
    pub open spec fn one_probe_less(self) -> nat {
        if self.half_open_inflight > 0 {
            (self.half_open_inflight - 1) as nat
        } else {
            0
        }
    }

    /// The breaker after a request succeeded. A closed breaker forgets its failures, a
    /// half-open one closes, forgets its failures and takes the probe that reported off its
    /// count, an open one ignores the report.
    pub open spec fn after_success(self) -> BreakerView {
        match self.state {
            State::Closed => BreakerView { consecutive_failures: 0, ..self },
            State::HalfOpen => BreakerView {
                state: State::Closed,
                consecutive_failures: 0,
                half_open_inflight: self.one_probe_less(),
                ..self
            },
            State::Open => self,
        }
    }

    /// The breaker after a request failed at `now_ms`. A closed breaker counts the failure
    /// and opens when the threshold is reached, a half-open one opens again and takes the
    /// failed probe off its count, an open one ignores the report.
    pub open spec fn after_failure(self, now_ms: u64) -> BreakerView {
        match self.state {
            State::Closed => if self.consecutive_failures + 1 >= self.config.trip_count() {
                BreakerView {
                    state: State::Open,
                    consecutive_failures: self.consecutive_failures + 1,
                    opened_at: now_ms,
                    ..self
                }
            } else {
                BreakerView { consecutive_failures: self.consecutive_failures + 1, ..self }
            },
            State::HalfOpen => BreakerView {
                state: State::Open,
                opened_at: now_ms,
                half_open_inflight: self.one_probe_less(),
                ..self
            },
            State::Open => self,
        }
    }

    /// The breaker after a run of failures with nothing in between, at the given times.
    pub open spec fn after_failures(self, times_ms: Seq<u64>) -> BreakerView
        decreases times_ms.len(),
    {
        if times_ms.len() == 0 {
            self
        } else {
            self.after_failures(times_ms.drop_last()).after_failure(times_ms.last())
        }
    }

    /// The breaker after a run of requests asked, with no report in between, at the given
    /// times.
    pub open spec fn after_allows(self, times_ms: Seq<u64>) -> BreakerView
        decreases times_ms.len(),
    {
        if times_ms.len() == 0 {
            self
        } else {
            self.after_allows(times_ms.drop_last()).after_allow(times_ms.last())
        }
    }
}

/// A circuit breaker for one upstream.
#[derive(Clone, Copy, Debug)]
pub struct CircuitBreaker {
    config: CircuitBreakerConfig,
    state: State,
    consecutive_failures: u32,
    opened_at: u64,
    half_open_inflight: u32,
}

impl View for CircuitBreaker {
    type V = BreakerView;

    closed spec fn view(&self) -> BreakerView {
        BreakerView {
            config: self.config,
            state: self.state,
            consecutive_failures: self.consecutive_failures as nat,
            opened_at: self.opened_at,
            half_open_inflight: self.half_open_inflight as nat,
        }
    }
}

impl CircuitBreaker {
    #[verifier::type_invariant]
    spec fn well_formed(self) -> bool {
        self@.wf()
    }

    /// A closed breaker with the default configuration.
    pub fn new() -> (b: CircuitBreaker)
        ensures
            b@ == BreakerView::fresh(CircuitBreakerConfig::standard()),
            b@.wf(),
    {
        Self::with_config(CircuitBreakerConfig::default())
    }

    /// A closed breaker with the given configuration.
    pub fn with_config(config: CircuitBreakerConfig) -> (b: CircuitBreaker)
        ensures
            b@ == BreakerView::fresh(config),
            b@.wf(),
    {
        CircuitBreaker {
            config,
            state: State::Closed,
            consecutive_failures: 0,
            opened_at: 0,
            half_open_inflight: 0,
        }
    }

    /// The state the breaker is in.
    pub fn state(&self) -> (s: State)
        ensures
            s == self@.state,
            self@.wf(),
    {
        proof {
            use_type_invariant(self);
        }
        self.state
    }

    /// The configuration the breaker was made with.
    pub fn config(&self) -> (cfg: CircuitBreakerConfig)
        ensures
            cfg == self@.config,
    {
        self.config
    }

    /// Failures counted since the last success.
    pub fn consecutive_failures(&self) -> (n: u32)
        ensures
            n == self@.consecutive_failures,
    {
        self.consecutive_failures
    }

    /// Probes admitted and not yet reported.
    pub fn half_open_inflight(&self) -> (n: u32)
        ensures
            n == self@.half_open_inflight,
    {
        self.half_open_inflight
    }

    /// The time of the failure that last opened the breaker.
    pub fn opened_at(&self) -> (t: u64)
        ensures
            t == self@.opened_at,
    {
        self.opened_at
    }

    /// Asks whether a request may go out at `now_ms`, and counts it where the breaker is
    /// probing.
    pub fn allow(&mut self, now_ms: u64) -> (admitted: bool)
        ensures
            admitted == old(self)@.admits(now_ms),
            final(self)@ == old(self)@.after_allow(now_ms),
            final(self)@.wf(),
    {
        proof {
            use_type_invariant(&*self);
        }
        match self.state {
            State::Closed => true,
            State::Open => {
                let elapsed: u64 = if now_ms >= self.opened_at {
                    now_ms - self.opened_at
                } else {
                    0
                };
                if elapsed >= self.config.reset_timeout_ms {
                    self.state = State::HalfOpen;
                    self.half_open_inflight = 1;
                    true
                } else {
                    false
                }
            },
            State::HalfOpen => {
                if self.half_open_inflight < self.config.half_open_max_inflight {
                    self.half_open_inflight = self.half_open_inflight + 1;
                    true
                } else {
                    false
                }
            },
        }
    }

    /// Reports that a request succeeded.
    pub fn record_success(&mut self)
        ensures
            final(self)@ == old(self)@.after_success(),
            final(self)@.wf(),
    {
        proof {
            use_type_invariant(&*self);
        }
        match self.state {
            State::Closed => {
                self.consecutive_failures = 0;
            },
            State::HalfOpen => {
                self.consecutive_failures = 0;
                if self.half_open_inflight > 0 {
                    self.half_open_inflight = self.half_open_inflight - 1;
                }
                self.state = State::Closed;
            },
            State::Open => {},
        }
    }

    /// Reports that a request failed at `now_ms`.
    pub fn record_failure(&mut self, now_ms: u64)
        ensures
            final(self)@ == old(self)@.after_failure(now_ms),
            final(self)@.wf(),
    {
        proof {
            use_type_invariant(&*self);
        }
        match self.state {
            State::Closed => {
                let failures: u32 = self.consecutive_failures + 1;
                if failures >= self.config.failure_threshold {
                    self.state = State::Open;
                    self.opened_at = now_ms;
                }
                self.consecutive_failures = failures;
            },
            State::HalfOpen => {
                self.state = State::Open;
                self.opened_at = now_ms;
                if self.half_open_inflight > 0 {
                    self.half_open_inflight = self.half_open_inflight - 1;
                }
            },
            State::Open => {},
        }
    }

    /// Reports that a request succeeded; another name for `record_success`.
    pub fn success(&mut self)
        ensures
            final(self)@ == old(self)@.after_success(),
            final(self)@.wf(),
    {
        self.record_success()
    }

    /// Reports that a request failed at `now_ms`; another name for `record_failure`.
    pub fn failure(&mut self, now_ms: u64)
        ensures
            final(self)@ == old(self)@.after_failure(now_ms),
            final(self)@.wf(),
    {
        self.record_failure(now_ms)
    }
}

/// Every step keeps a breaker well-formed.
pub proof fn lemma_steps_keep_wf(b: BreakerView, now_ms: u64)
    requires
        b.wf(),
    ensures
        b.after_allow(now_ms).wf(),
        b.after_success().wf(),
        b.after_failure(now_ms).wf(),
{
}

/// A closed breaker that has counted `k` failures opens on the failure that brings the count
/// to the threshold, stamped with the time of that failure, and not before.
pub proof fn lemma_trips_at_threshold(b: BreakerView, times_ms: Seq<u64>)
    requires
        b.wf(),
        b.state == State::Closed,
    ensures
        b.consecutive_failures + times_ms.len() < b.config.trip_count() ==> {
            &&& b.after_failures(times_ms).state == State::Closed
            &&& b.after_failures(times_ms).consecutive_failures == b.consecutive_failures
                + times_ms.len()
        },
        b.consecutive_failures + times_ms.len() >= b.config.trip_count() ==> {
            &&& b.after_failures(times_ms).state == State::Open
            &&& b.after_failures(times_ms).opened_at == times_ms[b.config.trip_count()
                - b.consecutive_failures - 1]
        },
        b.after_failures(times_ms).half_open_inflight == b.half_open_inflight,
        b.after_failures(times_ms).config == b.config,
        b.after_failures(times_ms).wf(),
    decreases times_ms.len(),
{
    if times_ms.len() > 0 {
        let head = times_ms.drop_last();
        lemma_trips_at_threshold(b, head);
        let before = b.after_failures(head);
        assert(b.after_failures(times_ms) == before.after_failure(times_ms.last()));
        let k = b.config.trip_count() - b.consecutive_failures - 1;
        if b.consecutive_failures + head.len() >= b.config.trip_count() {
            assert(head[k] == times_ms[k]);
        } else if b.consecutive_failures + times_ms.len() >= b.config.trip_count() {
            assert(k == times_ms.len() - 1);
        }
    }
}

/// While less than the reset timeout has passed since it opened, an open breaker refuses
/// every request and stays exactly as it is, however often it is asked.
pub proof fn lemma_open_refuses_within_timeout(b: BreakerView, times_ms: Seq<u64>)
    requires
        b.state == State::Open,
        forall|i: int|
            0 <= i < times_ms.len() ==> b.opened_at <= #[trigger] times_ms[i] < b.opened_at
                + b.config.reset_timeout_ms,
    ensures
        forall|i: int| 0 <= i < times_ms.len() ==> !b.admits(#[trigger] times_ms[i]),
        b.after_allows(times_ms) == b,
    decreases times_ms.len(),
{
    assert forall|i: int| 0 <= i < times_ms.len() implies !b.admits(#[trigger] times_ms[i]) by {
        assert(b.opened_at <= times_ms[i] < b.opened_at + b.config.reset_timeout_ms);
    }
    if times_ms.len() > 0 {
        let head = times_ms.drop_last();
        assert forall|i: int| 0 <= i < head.len() implies b.opened_at <= #[trigger] head[i]
            < b.opened_at + b.config.reset_timeout_ms by {
            assert(head[i] == times_ms[i]);
        }
        lemma_open_refuses_within_timeout(b, head);
        assert(!b.admits(times_ms[times_ms.len() - 1]));
    }
}

/// Once the reset timeout has passed, the first request that asks an open breaker is let
/// through and becomes the probe of a half-open breaker. Where one probe is the limit, every
/// request that asks before the probe has reported is refused and changes nothing.
pub proof fn lemma_first_probe_then_gated(b: BreakerView, now_ms: u64, later_ms: Seq<u64>)
    requires
        b.state == State::Open,
        now_ms >= b.opened_at + b.config.reset_timeout_ms,
    ensures
        b.admits(now_ms),
        b.after_allow(now_ms).state == State::HalfOpen,
        b.after_allow(now_ms).half_open_inflight == 1,
        b.config.half_open_max_inflight <= 1 ==> {
            &&& forall|i: int|
                0 <= i < later_ms.len() ==> !b.after_allow(now_ms).admits(#[trigger] later_ms[i])
            &&& b.after_allow(now_ms).after_allows(later_ms) == b.after_allow(now_ms)
        },
    decreases later_ms.len(),
{
    if later_ms.len() > 0 {
        lemma_first_probe_then_gated(b, now_ms, later_ms.drop_last());
    }
}

/// A half-open breaker never has more probes in flight than its limit: it admits a request
/// only while the count is below the limit, each admission adds one, and each report of a
/// probe, a success as much as a failure, takes one off.
pub proof fn lemma_probes_bounded(b: BreakerView, now_ms: u64)
    requires
        b.wf(),
        b.state == State::HalfOpen,
    ensures
        b.admits(now_ms) ==> b.after_allow(now_ms).half_open_inflight == b.half_open_inflight + 1,
        !b.admits(now_ms) ==> b.after_allow(now_ms) == b,
        b.after_allow(now_ms).half_open_inflight <= b.config.probe_limit(),
        b.after_success().half_open_inflight == b.one_probe_less(),
        b.after_failure(now_ms).half_open_inflight == b.one_probe_less(),
        b.after_success().state == State::Closed && b.after_success().consecutive_failures == 0,
        b.after_failure(now_ms).state == State::Open && b.after_failure(now_ms).opened_at
            == now_ms,
{
}

/// The full cycle: a fresh breaker that sees as many failures in a row as its threshold is
/// open from the last of them; of the times from then on, it refuses a request at those
/// before the reset timeout has passed, and admits one at all others.
pub proof fn lemma_trip_and_recover(
    config: CircuitBreakerConfig,
    failures_ms: Seq<u64>,
    now_ms: u64,
)
    requires
        failures_ms.len() == config.trip_count(),
        failures_ms.last() <= now_ms,
    ensures
        BreakerView::fresh(config).after_failures(failures_ms).state == State::Open,
        BreakerView::fresh(config).after_failures(failures_ms).opened_at == failures_ms.last(),
        BreakerView::fresh(config).after_failures(failures_ms).admits(now_ms) <==> now_ms
            >= failures_ms.last() + config.reset_timeout_ms,
{
    lemma_trips_at_threshold(BreakerView::fresh(config), failures_ms);
    assert(failures_ms[config.trip_count() - 1] == failures_ms.last());
}

} // verus!
