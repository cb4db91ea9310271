//! The load generator of one job, as the decisions its fibers and its reporter take.
//!
//! A fiber never sleeps or sends here. It hands what happened to `Fiber::step` and is told
//! what to do next; the caller does it and comes back with the result. Monotonic times are
//! in microseconds; the breaker is asked in milliseconds.

use crate::backoff::{
    lemma_jitter_range, lemma_nominal_capped, lemma_upper_draw_keeps_nominal, AttemptResult,
    RetryAction, RetryEvent, RetryPhase, RetryPolicy, RetryState, RetryView, DRAW_SCALE,
    PERMILLE,
};
use crate::circuit_breaker::{BreakerView, CircuitBreaker, State};
use crate::http_client::{attempt_result_of, kind_is_success};
use crate::metrics::{MetricsCollector, Recording, Summary, WindowModel, MAX_WINDOW_COUNT};
use crate::models::{OutcomeKind, WorkerResult};
use crate::rate_limiter::{
    adjusted_rate, eager_grants, lemma_eager_run_total, AdaptiveRate, BucketView, Permit,
    TokenBucketRateLimiter, MICROS,
};
use vstd::prelude::*;

verus! {

/// The settings of the load generator.
#[derive(Clone, Copy, Debug, PartialEq, Eq, Structural)]
pub struct EngineConfig {
    /// Fibers for a job that gives no hint.
    pub default_concurrency: u32,
    /// The latency, in milliseconds, that a request is expected to take.
    pub expected_latency_ms: u32,
    /// The most fibers any job gets.
    pub fiber_ceiling: u32,
    /// Time between two reports, in milliseconds.
    pub report_period_ms: u64,
    /// Requests in a window beyond which a report is made early; 0 for never.
    pub report_batch_size: u64,
    /// Time after the deadline in which late responses are still counted, in milliseconds.
    pub drain_window_ms: u64,
    /// Time a fiber sleeps after the breaker refused it, in microseconds.
    pub breaker_pause_us: u64,
    /// Whether finished requests steer the adaptive target rate.
    pub adaptive: bool,
}

impl EngineConfig {
    /// Fifty fibers by default, a tenth of a second per request, at most 5000 fibers, a
    /// report every second, two seconds to drain, ten milliseconds of pause, no steering.
    pub open spec fn standard() -> EngineConfig {
        EngineConfig {
            default_concurrency: 50,
            expected_latency_ms: 100,
            fiber_ceiling: 5000,
            report_period_ms: 1000,
            report_batch_size: 0,
            drain_window_ms: 2000,
            breaker_pause_us: 10_000,
            adaptive: false,
        }
    }
}

impl Default for EngineConfig {
    /// The standard settings.
    fn default() -> (cfg: EngineConfig)
        ensures
            cfg == EngineConfig::standard(),
    {
        EngineConfig {
            default_concurrency: 50,
            expected_latency_ms: 100,
            fiber_ceiling: 5000,
            report_period_ms: 1000,
            report_batch_size: 0,
            drain_window_ms: 2000,
            breaker_pause_us: 10_000,
            adaptive: false,
        }
    }
}

/// Requests in flight at once if every request takes the expected latency: the rate times
/// the latency in seconds, rounded up.
pub open spec fn in_flight_at_rate(target_rps: u32, expected_latency_ms: u32) -> nat {
    ((target_rps * expected_latency_ms + 999) / 1000) as nat
}

/// The fibers of a job: the smaller of what the job hints at (or the default) and what the
/// rate keeps in flight, at most the ceiling, at least one.
pub open spec fn planned_fibers(
    cfg: EngineConfig,
    concurrency_hint: Option<u32>,
    target_rps: u32,
) -> nat {
    let wanted: nat = match concurrency_hint {
        Some(hint) => hint as nat,
        None => cfg.default_concurrency as nat,
    };
    let needed = in_flight_at_rate(target_rps, cfg.expected_latency_ms);
    let smaller = if wanted < needed {
        wanted
    } else {
        needed
    };
    let capped = if smaller > cfg.fiber_ceiling {
        cfg.fiber_ceiling as nat
    } else {
        smaller
    };
    if capped < 1 {
        1
    } else {
        capped
    }
}

/// The number of fibers to run for a job.
pub fn fiber_count(cfg: &EngineConfig, concurrency_hint: Option<u32>, target_rps: u32) -> (n: u32)
    ensures
        n == planned_fibers(*cfg, concurrency_hint, target_rps),
        n >= 1,
        n <= cfg.fiber_ceiling || n == 1,
{
    let wanted: u64 = match concurrency_hint {
        Some(hint) => hint as u64,
        None => cfg.default_concurrency as u64,
    };
    let rps: u64 = target_rps as u64;
    let latency: u64 = cfg.expected_latency_ms as u64;
    assert(rps * latency <= 0xffff_ffff * 0xffff_ffff) by (nonlinear_arith)
        requires
            rps <= 0xffff_ffff,
            latency <= 0xffff_ffff,
    ;
    let needed: u64 = (rps * latency + 999) / 1000;
    let smaller: u64 = if wanted < needed {
        wanted
    } else {
        needed
    };
    let capped: u64 = if smaller > cfg.fiber_ceiling as u64 {
        cfg.fiber_ceiling as u64
    } else {
        smaller
    };
    if capped < 1 {
        1
    } else {
        capped as u32
    }
}

/// Whether a report is due before the period is over: the window already counts more
/// requests than a batch holds.
pub fn report_due_early(cfg: &EngineConfig, window_count: u64) -> (due: bool)
    ensures
        due == (cfg.report_batch_size > 0 && window_count > cfg.report_batch_size),
{
    cfg.report_batch_size > 0 && window_count > cfg.report_batch_size
}

/// What a fiber that wants to send is told.
#[derive(Clone, Copy, Debug, PartialEq, Eq, Structural)]
pub enum Admission {
    /// The deadline has passed, or the limiter will never grant: stop.
    Exit,
    /// No token yet: sleep this many microseconds and ask again.
    Wait(u64),
    /// The breaker is open: an error was counted in its stead; sleep this many microseconds
    /// and ask again.
    Refused(u64),
    /// Send the request.
    Send,
}

/// What a fiber that asks at `now_us` is told.
pub open spec fn admission(
    limiter: BucketView,
    breaker: BreakerView,
    now_us: u64,
    deadline_us: u64,
    pause_us: u64,
) -> Admission {
    if now_us >= deadline_us {
        Admission::Exit
    } else {
        match limiter.permit(now_us) {
            Permit::Never => Admission::Exit,
            Permit::RetryAfter(wait_us) => Admission::Wait(wait_us),
            Permit::Granted => if breaker.admits(now_us / 1000) {
                Admission::Send
            } else {
                Admission::Refused(pause_us)
            },
        }
    }
}

/// The limiter after a fiber asked at `now_us`: untouched past the deadline, asked for one
/// token otherwise.
pub open spec fn limiter_after_admission(
    limiter: BucketView,
    now_us: u64,
    deadline_us: u64,
) -> BucketView {
    if now_us >= deadline_us {
        limiter
    } else {
        limiter.after_acquire(now_us)
    }
}

/// The breaker after a fiber asked at `now_us`: asked only where the limiter granted a token.
pub open spec fn breaker_after_admission(
    limiter: BucketView,
    breaker: BreakerView,
    now_us: u64,
    deadline_us: u64,
) -> BreakerView {
    if now_us < deadline_us && limiter.permit(now_us) == Permit::Granted {
        breaker.after_allow(now_us / 1000)
    } else {
        breaker
    }
}

/// The window after a fiber asked: one error more, without a latency, where the breaker
/// refused the request.
pub open spec fn window_after_admission(window: WindowModel, told: Admission) -> WindowModel {
    if told is Refused {
        window.with(Recording::Error(None))
    } else {
        window
    }
}

/// The first half of a fiber's round: checks the deadline, takes a token, asks the breaker,
/// and counts an error where the breaker refuses.
pub fn seek_admission(
    limiter: &mut TokenBucketRateLimiter,
    breaker: &mut CircuitBreaker,
    metrics: &mut MetricsCollector,
    now_us: u64,
    deadline_us: u64,
    pause_us: u64,
) -> (told: Admission)
    ensures
        told == admission(old(limiter)@, old(breaker)@, now_us, deadline_us, pause_us),
        final(limiter)@ == limiter_after_admission(old(limiter)@, now_us, deadline_us),
        final(breaker)@ == breaker_after_admission(
            old(limiter)@,
            old(breaker)@,
            now_us,
            deadline_us,
        ),
        final(metrics).window() == window_after_admission(old(metrics).window(), told),
        final(metrics).started_at() == old(metrics).started_at(),
{
    if now_us >= deadline_us {
        return Admission::Exit;
    }
    match limiter.acquire(now_us) {
        Permit::Never => Admission::Exit,
        Permit::RetryAfter(wait_us) => Admission::Wait(wait_us),
        Permit::Granted => {
            if breaker.allow(now_us / 1000) {
                Admission::Send
            } else {
                metrics.record_error(None);
                Admission::Refused(pause_us)
            }
        },
    }
}

/// What a finished request adds to the window: a success with its latency, an error status
/// with its latency, a failure of the transport without one.
pub open spec fn recording_of(kind: OutcomeKind, latency_us: u64) -> Recording {
    match kind {
        OutcomeKind::HttpOk => Recording::Success(latency_us),
        OutcomeKind::HttpError(_) => Recording::Error(Some(latency_us)),
        _ => Recording::Error(None),
    }
}

/// The breaker after a request that it admitted has finished at `now_us`.
pub open spec fn breaker_after_outcome(
    breaker: BreakerView,
    kind: OutcomeKind,
    now_us: u64,
) -> BreakerView {
    if kind_is_success(kind) {
        breaker.after_success()
    } else {
        breaker.after_failure(now_us / 1000)
    }
}

/// What a finished request adds to the window.
pub fn recording_for(kind: OutcomeKind, latency_us: u64) -> (r: Recording)
    ensures
        r == recording_of(kind, latency_us),
{
    match kind {
        OutcomeKind::HttpOk => Recording::Success(latency_us),
        OutcomeKind::HttpError(_) => Recording::Error(Some(latency_us)),
        _ => Recording::Error(None),
    }
}

/// The second half of a fiber's round: reports the finished request to the breaker, counts
/// it in the window, and, where steering is on, lets its latency move the target rate.
pub fn settle(
    breaker: &mut CircuitBreaker,
    metrics: &mut MetricsCollector,
    rate: &mut AdaptiveRate,
    adaptive: bool,
    kind: OutcomeKind,
    latency_us: u64,
    now_us: u64,
)
    ensures
        final(breaker)@ == breaker_after_outcome(old(breaker)@, kind, now_us),
        final(metrics).window() == old(metrics).window().with(recording_of(kind, latency_us)),
        final(metrics).started_at() == old(metrics).started_at(),
        final(rate)@ == (if adaptive {
            adjusted_rate(old(rate)@, latency_us / 1000)
        } else {
            old(rate)@
        }),
{
    match kind {
        OutcomeKind::HttpOk => breaker.record_success(),
        _ => breaker.record_failure(now_us / 1000),
    }
    metrics.record(recording_for(kind, latency_us));
    if adaptive {
        rate.adjust(latency_us / 1000);
    }
}

/// Where a fiber stands.
#[derive(Clone, Copy, Debug, PartialEq, Eq, Structural)]
pub enum FiberPhase {
    /// Between requests: about to ask for a token.
    Ready,
    /// A request is in flight.
    InFlight,
    /// Waiting before the next attempt of a request that failed.
    BackingOff,
    /// Finished.
    Done,
}

/// What happens to a fiber.
#[derive(Clone, Copy, Debug, PartialEq, Eq, Structural)]
pub enum FiberEvent {
    /// The fiber starts, or the sleep it was told to take is over, at this time.
    Wake(u64),
    /// The attempt in flight came back in this way at this time; the draw spreads the wait
    /// that may follow.
    Response(OutcomeKind, u32, u64),
    /// The job is shutting down, at this time.
    Shutdown(u64),
}

/// What a fiber does next.
#[derive(Clone, Copy, Debug, PartialEq, Eq, Structural)]
pub enum FiberAction {
    /// Send the request; this is the attempt with the given number, counting from 1.
    Send(u32),
    /// Sleep this many microseconds, then wake; a shutdown ends the sleep early.
    Sleep(u64),
    /// Keep waiting for the attempt in flight.
    Await,
    /// The event does not fit the phase: carry on as before.
    Stay,
    /// Stop.
    Exit,
}

/// What the fibers of a job share, as mathematics.
pub struct Shared {
    pub limiter: BucketView,
    pub breaker: BreakerView,
    pub window: WindowModel,
    pub rate: u64,
}

/// A fiber as mathematics.
pub struct FiberView {
    pub policy: RetryPolicy,
    pub deadline_us: u64,
    pub pause_us: u64,
    pub adaptive: bool,
    pub phase: FiberPhase,
    pub retry: RetryView,
    /// When the first attempt of the current request went out.
    pub request_started_us: u64,
    /// How the last attempt of the current request ended.
    pub last_kind: OutcomeKind,
    /// Whether a shutdown arrived while an attempt was in flight.
    pub stopping: bool,
}

/// Time from `since_us` to `now_us`; 0 where the clock reads earlier.
pub open spec fn elapsed_us(since_us: u64, now_us: u64) -> u64 {
    if now_us >= since_us {
        (now_us - since_us) as u64
    } else {
        0
    }
}

/// Milliseconds as microseconds, as far as `u64` goes.
pub open spec fn ms_to_us(ms: u64) -> u64 {
    if ms * 1000 > u64::MAX {
        u64::MAX
    } else {
        (ms * 1000) as u64
    }
}

impl Shared {
    /// What is shared after a fiber asked to send at `now_us` and was told `told`.
    pub open spec fn after_admission(
        self,
        now_us: u64,
        deadline_us: u64,
        told: Admission,
    ) -> Shared {
        Shared {
            limiter: limiter_after_admission(self.limiter, now_us, deadline_us),
            breaker: breaker_after_admission(self.limiter, self.breaker, now_us, deadline_us),
            window: window_after_admission(self.window, told),
            rate: self.rate,
        }
    }

    /// What is shared after a request ended as `kind`, `latency_us` after it began, at
    /// `now_us`.
    pub open spec fn after_outcome(
        self,
        adaptive: bool,
        kind: OutcomeKind,
        latency_us: u64,
        now_us: u64,
    ) -> Shared {
        Shared {
            limiter: self.limiter,
            breaker: breaker_after_outcome(self.breaker, kind, now_us),
            window: self.window.with(recording_of(kind, latency_us)),
            rate: if adaptive {
                adjusted_rate(self.rate, latency_us / 1000)
            } else {
                self.rate
            },
        }
    }
}

impl FiberView {
    /// A fiber about to start.
    pub open spec fn fresh(
        policy: RetryPolicy,
        deadline_us: u64,
        pause_us: u64,
        adaptive: bool,
    ) -> FiberView {
        FiberView {
            policy,
            deadline_us,
            pause_us,
            adaptive,
            phase: FiberPhase::Ready,
            retry: RetryView::fresh(policy),
            request_started_us: 0,
            last_kind: OutcomeKind::Other,
            stopping: false,
        }
    }

    /// The retry loop of the request belongs to this fiber, is under way exactly while the
    /// fiber has an attempt in flight, and waits exactly while the fiber backs off.
    pub open spec fn wf(self) -> bool {
        &&& self.retry.wf()
        &&& self.retry.policy == self.policy
        &&& self.phase == FiberPhase::InFlight ==> self.retry.phase == RetryPhase::Attempting
        &&& self.phase == FiberPhase::BackingOff ==> self.retry.phase == RetryPhase::Waiting
    }

    /// The fiber, what it shares, and what it does, after an event. A fiber whose policy
    /// allows no attempt has nothing to send: it stops when it first wakes, and asks neither
    /// the limiter nor the breaker.
    pub open spec fn step(self, shared: Shared, event: FiberEvent) -> (
        FiberView,
        Shared,
        FiberAction,
    ) {
        match (self.phase, event) {
            (FiberPhase::Ready, FiberEvent::Wake(_)) if self.policy.max_attempts == 0 => (
                FiberView { phase: FiberPhase::Done, ..self },
                shared,
                FiberAction::Exit,
            ),
            (FiberPhase::Ready, FiberEvent::Wake(now_us)) => {
                let told = admission(
                    shared.limiter,
                    shared.breaker,
                    now_us,
                    self.deadline_us,
                    self.pause_us,
                );
                let after = shared.after_admission(now_us, self.deadline_us, told);
                match told {
                    Admission::Exit => (
                        FiberView { phase: FiberPhase::Done, ..self },
                        after,
                        FiberAction::Exit,
                    ),
                    Admission::Wait(us) => (self, after, FiberAction::Sleep(us)),
                    Admission::Refused(us) => (self, after, FiberAction::Sleep(us)),
                    Admission::Send => (
                        FiberView {
                            phase: FiberPhase::InFlight,
                            retry: RetryView::fresh(self.policy).after(RetryEvent::Start),
                            request_started_us: now_us,
                            ..self
                        },
                        after,
                        FiberAction::Send(1),
                    ),
                }
            },
            (FiberPhase::Ready, FiberEvent::Shutdown(_)) => (
                FiberView { phase: FiberPhase::Done, ..self },
                shared,
                FiberAction::Exit,
            ),
            (FiberPhase::InFlight, FiberEvent::Response(kind, draw, now_us)) => {
                let latency_us = elapsed_us(self.request_started_us, now_us);
                let event = RetryEvent::Attempted(attempt_result_of(kind), draw);
                let retry = self.retry.after(event);
                if self.stopping {
                    (
                        FiberView { phase: FiberPhase::Done, retry, last_kind: kind, ..self },
                        shared.after_outcome(self.adaptive, kind, latency_us, now_us),
                        FiberAction::Exit,
                    )
                } else {
                    match self.retry.action_on(event) {
                        RetryAction::Wait(ms) => (
                            FiberView {
                                phase: FiberPhase::BackingOff,
                                retry,
                                last_kind: kind,
                                ..self
                            },
                            shared,
                            FiberAction::Sleep(ms_to_us(ms)),
                        ),
                        _ => (
                            FiberView { phase: FiberPhase::Ready, retry, last_kind: kind, ..self },
                            shared.after_outcome(self.adaptive, kind, latency_us, now_us),
                            FiberAction::Sleep(0),
                        ),
                    }
                }
            },
            (FiberPhase::InFlight, FiberEvent::Shutdown(_)) => (
                FiberView { stopping: true, ..self },
                shared,
                FiberAction::Await,
            ),
            (FiberPhase::BackingOff, FiberEvent::Wake(_)) => (
                FiberView {
                    phase: FiberPhase::InFlight,
                    retry: self.retry.after(RetryEvent::WaitElapsed),
                    ..self
                },
                shared,
                FiberAction::Send((self.retry.attempts + 1) as u32),
            ),
            (FiberPhase::BackingOff, FiberEvent::Shutdown(now_us)) => (
                FiberView {
                    phase: FiberPhase::Done,
                    retry: self.retry.after(RetryEvent::Cancelled),
                    ..self
                },
                shared.after_outcome(
                    self.adaptive,
                    self.last_kind,
                    elapsed_us(self.request_started_us, now_us),
                    now_us,
                ),
                FiberAction::Exit,
            ),
            (FiberPhase::Done, _) => (self, shared, FiberAction::Exit),
            _ => (self, shared, FiberAction::Stay),
        }
    }
}

/// One of the identical fibers that issue the requests of a job.
#[derive(Clone, Copy, Debug)]
pub struct Fiber {
    policy: RetryPolicy,
    deadline_us: u64,
    pause_us: u64,
    adaptive: bool,
    phase: FiberPhase,
    retry: RetryState,
    request_started_us: u64,
    last_kind: OutcomeKind,
    stopping: bool,
}

impl View for Fiber {
    type V = FiberView;

    closed spec fn view(&self) -> FiberView {
        FiberView {
            policy: self.policy,
            deadline_us: self.deadline_us,
            pause_us: self.pause_us,
            adaptive: self.adaptive,
            phase: self.phase,
            retry: self.retry@,
            request_started_us: self.request_started_us,
            last_kind: self.last_kind,
            stopping: self.stopping,
        }
    }
}

impl Fiber {
    #[verifier::type_invariant]
    spec fn well_formed(self) -> bool {
        self@.wf()
    }

    /// A fiber for a job that ends at `deadline_us`.
    pub fn new(cfg: &EngineConfig, policy: RetryPolicy, deadline_us: u64) -> (f: Fiber)
        ensures
            f@ == FiberView::fresh(policy, deadline_us, cfg.breaker_pause_us, cfg.adaptive),
            f@.wf(),
    {
        Fiber {
            policy,
            deadline_us,
            pause_us: cfg.breaker_pause_us,
            adaptive: cfg.adaptive,
            phase: FiberPhase::Ready,
            retry: RetryState::new(policy),
            request_started_us: 0,
            last_kind: OutcomeKind::Other,
            stopping: false,
        }
    }

    /// Where the fiber stands.
    pub fn phase(&self) -> (phase: FiberPhase)
        ensures
            phase == self@.phase,
    {
        self.phase
    }

    /// Takes an event, updates what the fibers share, and says what the fiber does next.
    pub fn step(
        &mut self,
        limiter: &mut TokenBucketRateLimiter,
        breaker: &mut CircuitBreaker,
        metrics: &mut MetricsCollector,
        rate: &mut AdaptiveRate,
        event: FiberEvent,
    ) -> (action: FiberAction)
        ensures
            (
                final(self)@,
                Shared {
                    limiter: final(limiter)@,
                    breaker: final(breaker)@,
                    window: final(metrics).window(),
                    rate: final(rate)@,
                },
                action,
            ) == old(self)@.step(
                Shared {
                    limiter: old(limiter)@,
                    breaker: old(breaker)@,
                    window: old(metrics).window(),
                    rate: old(rate)@,
                },
                event,
            ),
            final(self)@.wf(),
            final(metrics).started_at() == old(metrics).started_at(),
    {
        proof {
            use_type_invariant(&*self);
        }
        let me = *self;
        match (me.phase, event) {
            (FiberPhase::Ready, FiberEvent::Wake(_)) if me.policy.max_attempts == 0 => {
                *self = Fiber { phase: FiberPhase::Done, ..me };
                FiberAction::Exit
            },
            (FiberPhase::Ready, FiberEvent::Wake(now_us)) => {
                let told = seek_admission(
                    limiter,
                    breaker,
                    metrics,
                    now_us,
                    me.deadline_us,
                    me.pause_us,
                );
                match told {
                    Admission::Exit => {
                        *self = Fiber { phase: FiberPhase::Done, ..me };
                        FiberAction::Exit
                    },
                    Admission::Wait(us) => FiberAction::Sleep(us),
                    Admission::Refused(us) => FiberAction::Sleep(us),
                    Admission::Send => {
                        let mut retry = RetryState::new(me.policy);
                        let _ = retry.step(RetryEvent::Start);
                        *self = Fiber {
                            phase: FiberPhase::InFlight,
                            retry,
                            request_started_us: now_us,
                            ..me
                        };
                        FiberAction::Send(1)
                    },
                }
            },
            (FiberPhase::Ready, FiberEvent::Shutdown(_)) => {
                *self = Fiber { phase: FiberPhase::Done, ..me };
                FiberAction::Exit
            },
            (FiberPhase::InFlight, FiberEvent::Response(kind, draw, now_us)) => {
                let latency_us: u64 = if now_us >= me.request_started_us {
                    now_us - me.request_started_us
                } else {
                    0
                };
                let result = match kind {
                    OutcomeKind::HttpOk => AttemptResult::Success,
                    OutcomeKind::HttpError(status) => if 500 <= status && status <= 599 {
                        AttemptResult::Retryable
                    } else {
                        AttemptResult::Final
                    },
                    _ => AttemptResult::Retryable,
                };
                let mut retry = me.retry;
                let next = retry.step(RetryEvent::Attempted(result, draw));
                if me.stopping {
                    settle(breaker, metrics, rate, me.adaptive, kind, latency_us, now_us);
                    *self = Fiber { phase: FiberPhase::Done, retry, last_kind: kind, ..me };
                    FiberAction::Exit
                } else {
                    match next {
                        RetryAction::Wait(ms) => {
                            *self = Fiber {
                                phase: FiberPhase::BackingOff,
                                retry,
                                last_kind: kind,
                                ..me
                            };
                            let us: u64 = match ms.checked_mul(1000) {
                                Some(us) => us,
                                None => u64::MAX,
                            };
                            FiberAction::Sleep(us)
                        },
                        _ => {
                            settle(breaker, metrics, rate, me.adaptive, kind, latency_us, now_us);
                            *self = Fiber {
                                phase: FiberPhase::Ready,
                                retry,
                                last_kind: kind,
                                ..me
                            };
                            FiberAction::Sleep(0)
                        },
                    }
                }
            },
            (FiberPhase::InFlight, FiberEvent::Shutdown(_)) => {
                *self = Fiber { stopping: true, ..me };
                FiberAction::Await
            },
            (FiberPhase::BackingOff, FiberEvent::Wake(_)) => {
                let mut retry = me.retry;
                let number = retry.attempts() + 1;
                let _ = retry.step(RetryEvent::WaitElapsed);
                *self = Fiber { phase: FiberPhase::InFlight, retry, ..me };
                FiberAction::Send(number)
            },
            (FiberPhase::BackingOff, FiberEvent::Shutdown(now_us)) => {
                let latency_us: u64 = if now_us >= me.request_started_us {
                    now_us - me.request_started_us
                } else {
                    0
                };
                let mut retry = me.retry;
                let _ = retry.step(RetryEvent::Cancelled);
                settle(breaker, metrics, rate, me.adaptive, me.last_kind, latency_us, now_us);
                *self = Fiber { phase: FiberPhase::Done, retry, ..me };
                FiberAction::Exit
            },
            (FiberPhase::Done, _) => FiberAction::Exit,
            _ => FiberAction::Stay,
        }
    }
}

/// A fiber that is done stays done and touches nothing.
pub proof fn lemma_done_is_final(f: FiberView, shared: Shared, event: FiberEvent)
    requires
        f.phase == FiberPhase::Done,
    ensures
        f.step(shared, event) == (f, shared, FiberAction::Exit),
{
}

/// A shutdown ends a fiber without delay: a fiber between requests or waiting to retry stops
/// at once, and a fiber with an attempt in flight stops when that attempt is answered,
/// whatever the answer, without another attempt and without a wait.
pub proof fn lemma_shutdown_ends_the_fiber(
    f: FiberView,
    shared: Shared,
    now_us: u64,
    kind: OutcomeKind,
    draw: u32,
    later_us: u64,
)
    requires
        f.wf(),
    ensures
        f.phase != FiberPhase::InFlight ==> {
            &&& f.step(shared, FiberEvent::Shutdown(now_us)).0.phase == FiberPhase::Done
            &&& f.step(shared, FiberEvent::Shutdown(now_us)).2 == FiberAction::Exit
        },
        f.phase == FiberPhase::InFlight ==> ({
            let (waiting, asked, action) = f.step(shared, FiberEvent::Shutdown(now_us));
            let (ended, _, last) = waiting.step(asked, FiberEvent::Response(kind, draw, later_us));
            &&& action == FiberAction::Await
            &&& asked == shared
            &&& waiting.phase == FiberPhase::InFlight
            &&& ended.phase == FiberPhase::Done
            &&& last == FiberAction::Exit
        }),
{
}

/// A fiber sends only what the limiter has granted and the breaker has let through: whenever
/// it is told to start a request, one token left the bucket and the breaker was asked and
/// agreed; and it never starts a request at or after the deadline.
pub proof fn lemma_send_is_admitted(f: FiberView, shared: Shared, now_us: u64)
    requires
        f.wf(),
        f.phase == FiberPhase::Ready,
        f.step(shared, FiberEvent::Wake(now_us)).2 == FiberAction::Send(1),
    ensures
        now_us < f.deadline_us,
        shared.limiter.permit(now_us) == Permit::Granted,
        shared.breaker.admits(now_us / 1000),
        f.step(shared, FiberEvent::Wake(now_us)).1.limiter == shared.limiter.after_acquire(now_us),
        f.step(shared, FiberEvent::Wake(now_us)).1.breaker == shared.breaker.after_allow(
            now_us / 1000,
        ),
        f.step(shared, FiberEvent::Wake(now_us)).1.window == shared.window,
{
}

/// Every request the breaker let through is reported to it exactly once: the breaker hears
/// of a request when the fiber leaves it behind (it goes back to asking for tokens, or
/// exits), and at no other step.
pub proof fn lemma_one_report_per_request(f: FiberView, shared: Shared, event: FiberEvent)
    requires
        f.wf(),
        f.phase == FiberPhase::InFlight || f.phase == FiberPhase::BackingOff,
    ensures
        ({
            let (after, world, action) = f.step(shared, event);
            let left = after.phase == FiberPhase::Ready || after.phase == FiberPhase::Done;
            &&& after.wf()
            &&& left ==> exists|kind: OutcomeKind, now_us: u64|
                world.breaker == breaker_after_outcome(shared.breaker, kind, now_us)
            &&& !left ==> world == shared
        }),
{
    let (after, world, action) = f.step(shared, event);
    let left = after.phase == FiberPhase::Ready || after.phase == FiberPhase::Done;
    if left {
        match event {
            FiberEvent::Response(kind, draw, now_us) => {
                assert(world.breaker == breaker_after_outcome(shared.breaker, kind, now_us));
            },
            FiberEvent::Shutdown(now_us) => {
                assert(world.breaker == breaker_after_outcome(
                    shared.breaker,
                    f.last_kind,
                    now_us,
                ));
            },
            FiberEvent::Wake(_) => {},
        }
    }
}

/// What one fiber does when nothing but the bucket holds it up: every request is answered
/// at once with a success, and the fiber is woken at the very time it asks to be. The result
/// is the number of requests it sends from `now_us` until its deadline, and what it shares
/// when it stops.
pub open spec fn eager_run(f: FiberView, shared: Shared, now_us: u64) -> (nat, Shared)
    decreases f.deadline_us - now_us, shared.limiter.refilled(now_us).level,
{
    if now_us >= f.deadline_us {
        (0, shared)
    } else {
        let (woken, asked, action) = f.step(shared, FiberEvent::Wake(now_us));
        match action {
            FiberAction::Send(_) => {
                let answer = FiberEvent::Response(OutcomeKind::HttpOk, 0, now_us);
                let (back, settled, _) = woken.step(asked, answer);
                if back.deadline_us == f.deadline_us && settled.limiter.refilled(now_us).level
                    < shared.limiter.refilled(now_us).level {
                    let (more, last) = eager_run(back, settled, now_us);
                    (more + 1, last)
                } else {
                    (0, settled)
                }
            },
            FiberAction::Sleep(us) => if us == 0 || now_us + us >= f.deadline_us
                || woken.deadline_us != f.deadline_us {
                (0, asked)
            } else {
                eager_run(woken, asked, (now_us + us) as u64)
            },
            _ => (0, asked),
        }
    }
}

/// A fiber that nothing but the bucket holds up sends exactly what the bucket grants an
/// eager caller, and every request it sends is counted in the window once, as a success.
pub proof fn lemma_eager_run_sends_what_is_granted(f: FiberView, shared: Shared, now_us: u64)
    requires
        f.wf(),
        f.phase == FiberPhase::Ready,
        !f.stopping,
        f.policy.max_attempts >= 1,
        shared.breaker.wf(),
        shared.breaker.state == State::Closed,
        shared.window.count() + eager_grants(shared.limiter, now_us, f.deadline_us)
            <= MAX_WINDOW_COUNT,
    ensures
        eager_run(f, shared, now_us).0 == eager_grants(shared.limiter, now_us, f.deadline_us),
        eager_run(f, shared, now_us).1.window.success == shared.window.success + eager_run(
            f,
            shared,
            now_us,
        ).0,
        eager_run(f, shared, now_us).1.window.error == shared.window.error,
    decreases f.deadline_us - now_us, shared.limiter.refilled(now_us).level,
{
    if now_us < f.deadline_us {
        let (woken, asked, action) = f.step(shared, FiberEvent::Wake(now_us));
        match shared.limiter.permit(now_us) {
            Permit::Never => {},
            Permit::RetryAfter(wait_us) => {
                assert(action == FiberAction::Sleep(wait_us));
                assert(woken == f);
                assert(asked.limiter == shared.limiter.after_acquire(now_us));
                if !(wait_us == 0 || now_us + wait_us >= f.deadline_us) {
                    lemma_eager_run_sends_what_is_granted(f, asked, (now_us + wait_us) as u64);
                }
            },
            Permit::Granted => {
                assert(shared.breaker.admits(now_us / 1000));
                assert(action == FiberAction::Send(1));
                let answer = FiberEvent::Response(OutcomeKind::HttpOk, 0, now_us);
                let (back, settled, _) = woken.step(asked, answer);
                assert(woken.retry.phase == RetryPhase::Attempting);
                assert(back.phase == FiberPhase::Ready);
                assert(settled.limiter == shared.limiter.after_acquire(now_us));
                assert(settled.breaker.state == State::Closed);
                assert(settled.window == shared.window.with(
                    Recording::Success(elapsed_us(now_us, now_us)),
                ));
                assert(eager_grants(shared.limiter, now_us, f.deadline_us) == 1 + eager_grants(
                    settled.limiter,
                    now_us,
                    f.deadline_us,
                ));
                lemma_eager_run_sends_what_is_granted(back, settled, now_us);
            },
        }
    }
}

/// A job of `duration_s` seconds at `rps` requests per second, run by one fiber against an
/// upstream that answers at once, counts between the rate times the duration and that plus
/// the capacity of its bucket: within a tenth of the rate times the duration, plus the
/// capacity. Every one of these requests is a success in the window, and the reports of the
/// job account for each of them once.
pub proof fn lemma_eager_job_total(
    f: FiberView,
    breaker: BreakerView,
    rate: u64,
    rps: u32,
    start_us: u64,
    duration_s: u32,
)
    requires
        f.wf(),
        f.phase == FiberPhase::Ready,
        !f.stopping,
        f.policy.max_attempts >= 1,
        f.deadline_us == start_us + duration_s * MICROS,
        breaker.wf(),
        breaker.state == State::Closed,
        rps >= 1,
        duration_s >= 1,
        start_us + duration_s * MICROS + MICROS <= u64::MAX,
        rps + rps * duration_s <= MAX_WINDOW_COUNT,
    ensures
        ({
            let begun = Shared {
                limiter: BucketView::full(rps, start_us),
                breaker,
                window: WindowModel::empty(),
                rate,
            };
            let (sent, ended) = eager_run(f, begun, start_us);
            &&& rps * duration_s <= sent <= rps + rps * duration_s
            &&& 9 * (rps * duration_s) <= 10 * sent <= 11 * (rps * duration_s) + 10 * rps
            &&& ended.window.success == sent
            &&& ended.window.error == 0
            &&& ended.window.count() == sent
        }),
{
    let begun = Shared {
        limiter: BucketView::full(rps, start_us),
        breaker,
        window: WindowModel::empty(),
        rate,
    };
    lemma_eager_run_total(rps, start_us, duration_s);
    lemma_eager_run_sends_what_is_granted(f, begun, start_us);
}

/// The latency of a request spans its retries. A request that fails twice in a way that
/// may mend and succeeds on its third attempt, sent by a fiber that is woken no earlier than
/// it asked to be, is counted once, as a success, and no failed attempt of it is counted.
/// Its latency runs from the first attempt to the answer of the third and so holds both
/// waits: at least `1 - jitter` times the two nominal delays, and at least the two nominal
/// delays themselves where the draws come from the upper half of their range. The breaker
/// hears of the request once, at the end.
pub proof fn lemma_latency_spans_retries(
    f: FiberView,
    shared: Shared,
    first: OutcomeKind,
    second: OutcomeKind,
    draws: (u32, u32, u32),
    t: (u64, u64, u64, u64, u64, u64),
)
    requires
        f.wf(),
        f.phase == FiberPhase::Ready,
        !f.stopping,
        f.policy.max_attempts >= 3,
        f.policy.backoff.jitter_permille <= PERMILLE,
        admission(shared.limiter, shared.breaker, t.0, f.deadline_us, f.pause_us)
            == Admission::Send,
        attempt_result_of(first) == AttemptResult::Retryable,
        attempt_result_of(second) == AttemptResult::Retryable,
        t.0 <= t.1 <= t.2 <= t.3 <= t.4 <= t.5,
        t.2 - t.1 >= ms_to_us(f.policy.backoff.delay(1, draws.0) as u64),
        t.4 - t.3 >= ms_to_us(f.policy.backoff.delay(2, draws.1) as u64),
    ensures
        ({
            let wait1 = f.policy.backoff.delay(1, draws.0) as u64;
            let wait2 = f.policy.backoff.delay(2, draws.1) as u64;
            let nominal1 = f.policy.backoff.nominal_delay(1);
            let nominal2 = f.policy.backoff.nominal_delay(2);
            let (f1, s1, a1) = f.step(shared, FiberEvent::Wake(t.0));
            let (f2, s2, a2) = f1.step(s1, FiberEvent::Response(first, draws.0, t.1));
            let (f3, s3, a3) = f2.step(s2, FiberEvent::Wake(t.2));
            let (f4, s4, a4) = f3.step(s3, FiberEvent::Response(second, draws.1, t.3));
            let (f5, s5, a5) = f4.step(s4, FiberEvent::Wake(t.4));
            let (f6, s6, a6) = f5.step(
                s5,
                FiberEvent::Response(OutcomeKind::HttpOk, draws.2, t.5),
            );
            &&& a1 == FiberAction::Send(1)
            &&& a2 == FiberAction::Sleep(ms_to_us(wait1))
            &&& a3 == FiberAction::Send(2)
            &&& a4 == FiberAction::Sleep(ms_to_us(wait2))
            &&& a5 == FiberAction::Send(3)
            &&& a6 == FiberAction::Sleep(0)
            &&& f6.phase == FiberPhase::Ready
            &&& s5.window == shared.window
            &&& s5.breaker == s1.breaker
            &&& s6.window == shared.window.with(Recording::Success((t.5 - t.0) as u64))
            &&& s6.breaker == breaker_after_outcome(s1.breaker, OutcomeKind::HttpOk, t.5)
            &&& t.5 - t.0 >= ms_to_us(wait1) + ms_to_us(wait2)
            &&& wait1 >= nominal1 - f.policy.backoff.jitter_span(nominal1)
            &&& wait2 >= nominal2 - f.policy.backoff.jitter_span(nominal2)
            &&& 2 * draws.0 >= DRAW_SCALE ==> wait1 >= nominal1
            &&& 2 * draws.1 >= DRAW_SCALE ==> wait2 >= nominal2
        }),
{
    let cfg = f.policy.backoff;
    lemma_nominal_capped(cfg, 1);
    lemma_nominal_capped(cfg, 2);
    lemma_jitter_range(cfg, cfg.nominal_delay(1), draws.0);
    lemma_jitter_range(cfg, cfg.nominal_delay(2), draws.1);
    if 2 * draws.0 >= DRAW_SCALE {
        lemma_upper_draw_keeps_nominal(cfg, cfg.nominal_delay(1), draws.0);
    }
    if 2 * draws.1 >= DRAW_SCALE {
        lemma_upper_draw_keeps_nominal(cfg, cfg.nominal_delay(2), draws.1);
    }
    let (f1, s1, a1) = f.step(shared, FiberEvent::Wake(t.0));
    assert(f1.retry == RetryView::fresh(f.policy).after(RetryEvent::Start));
    assert(f1.retry.phase == RetryPhase::Attempting && f1.retry.attempts == 1);
    let (f2, s2, a2) = f1.step(s1, FiberEvent::Response(first, draws.0, t.1));
    assert(f2.phase == FiberPhase::BackingOff);
    assert(f2.retry.phase == RetryPhase::Waiting && f2.retry.attempts == 1);
    let (f3, s3, a3) = f2.step(s2, FiberEvent::Wake(t.2));
    assert(f3.phase == FiberPhase::InFlight);
    assert(f3.retry.phase == RetryPhase::Attempting && f3.retry.attempts == 2);
    let (f4, s4, a4) = f3.step(s3, FiberEvent::Response(second, draws.1, t.3));
    assert(f4.retry.phase == RetryPhase::Waiting && f4.retry.attempts == 2);
    let (f5, s5, a5) = f4.step(s4, FiberEvent::Wake(t.4));
    assert(f5.retry.phase == RetryPhase::Attempting && f5.retry.attempts == 3);
    assert(f5.request_started_us == t.0);
}

/// What the reporter of a job does next.
#[derive(Clone, Copy, Debug, PartialEq, Eq, Structural)]
pub enum ReporterAction {
    /// Nothing is due: sleep this many microseconds, or less, and ask again.
    Sleep(u64),
    /// Close the window and report it.
    Tick,
    /// The job is over: give the requests in flight this many microseconds, or less, and
    /// ask again.
    Drain(u64),
    /// Close the last window and report it as the terminal batch of the job.
    Terminal,
    /// The terminal batch was asked for: there is nothing left to do.
    Done,
}

/// The time between two reports, in microseconds: the period of the settings, at least
/// one microsecond.
pub open spec fn report_period_us(cfg: EngineConfig) -> u64 {
    if ms_to_us(cfg.report_period_ms) == 0 {
        1
    } else {
        ms_to_us(cfg.report_period_ms)
    }
}

/// The tick that follows one at `from_us`: a period later, where that is not after the
/// deadline; none otherwise.
pub open spec fn tick_after(from_us: u64, period_us: u64, deadline_us: u64) -> Option<u64> {
    if from_us + period_us <= deadline_us {
        Some((from_us + period_us) as u64)
    } else {
        None
    }
}

/// The clock of a reporter as mathematics.
pub struct ClockView {
    /// Time between two ticks.
    pub period_us: u64,
    /// Time given to requests in flight once the job is over.
    pub drain_us: u64,
    /// Requests in a window beyond which a report is made early; 0 for never.
    pub batch: u64,
    /// When the job ends.
    pub deadline_us: u64,
    /// The next tick of the fixed grid, where one is left before or at the deadline.
    pub next_tick_us: Option<u64>,
    /// When the drain ends, once it has begun.
    pub drain_until_us: Option<u64>,
    /// Whether the terminal batch was asked for.
    pub finished: bool,
}

impl ClockView {
    /// The clock of a job that starts at `start_us` and ends at `deadline_us`.
    pub open spec fn begun(cfg: EngineConfig, start_us: u64, deadline_us: u64) -> ClockView {
        ClockView {
            period_us: report_period_us(cfg),
            drain_us: ms_to_us(cfg.drain_window_ms),
            batch: cfg.report_batch_size,
            deadline_us,
            next_tick_us: tick_after(start_us, report_period_us(cfg), deadline_us),
            drain_until_us: None,
            finished: false,
        }
    }

    /// The clock in its drain, which ends at `until_us`: the terminal batch is due when the
    /// drain is over or nothing is in flight any more.
    pub open spec fn draining(self, until_us: u64, now_us: u64, fibers_done: bool) -> (
        ClockView,
        ReporterAction,
    ) {
        let drain = ClockView { drain_until_us: Some(until_us), ..self };
        if fibers_done || now_us >= until_us {
            (ClockView { finished: true, ..drain }, ReporterAction::Terminal)
        } else {
            (drain, ReporterAction::Drain((until_us - now_us) as u64))
        }
    }

    /// The clock and what the reporter does, asked at `now_us`. Ticks fall on a fixed grid,
    /// one period apart from the start, the last of them no later than the deadline; a
    /// window that already counts more than a batch is reported at once; a job that is over
    /// or is being shut down drains and then reports its terminal batch, once.
    pub open spec fn next(
        self,
        now_us: u64,
        stopping: bool,
        fibers_done: bool,
        window_count: u64,
    ) -> (ClockView, ReporterAction) {
        if self.finished {
            (self, ReporterAction::Done)
        } else if self.drain_until_us is Some {
            self.draining(self.drain_until_us->0, now_us, fibers_done)
        } else if !stopping && self.next_tick_us is Some && now_us >= self.next_tick_us->0 {
            (
                ClockView {
                    next_tick_us: tick_after(
                        self.next_tick_us->0,
                        self.period_us,
                        self.deadline_us,
                    ),
                    ..self
                },
                ReporterAction::Tick,
            )
        } else if stopping || now_us >= self.deadline_us {
            let until_us = if now_us + self.drain_us > u64::MAX {
                u64::MAX
            } else {
                (now_us + self.drain_us) as u64
            };
            self.draining(until_us, now_us, fibers_done)
        } else if self.batch > 0 && window_count > self.batch {
            (self, ReporterAction::Tick)
        } else {
            let target = match self.next_tick_us {
                Some(tick_us) => tick_us,
                None => self.deadline_us,
            };
            (self, ReporterAction::Sleep((target - now_us) as u64))
        }
    }
}

/// The clock of the reporter of one job.
#[derive(Clone, Copy, Debug)]
pub struct ReportClock {
    period_us: u64,
    drain_us: u64,
    batch: u64,
    deadline_us: u64,
    next_tick_us: Option<u64>,
    drain_until_us: Option<u64>,
    finished: bool,
}

impl View for ReportClock {
    type V = ClockView;

    closed spec fn view(&self) -> ClockView {
        ClockView {
            period_us: self.period_us,
            drain_us: self.drain_us,
            batch: self.batch,
            deadline_us: self.deadline_us,
            next_tick_us: self.next_tick_us,
            drain_until_us: self.drain_until_us,
            finished: self.finished,
        }
    }
}

/// The tick that follows one at `from_us`.
fn following_tick(from_us: u64, period_us: u64, deadline_us: u64) -> (tick: Option<u64>)
    ensures
        tick == tick_after(from_us, period_us, deadline_us),
{
    match from_us.checked_add(period_us) {
        Some(tick_us) => if tick_us <= deadline_us {
            Some(tick_us)
        } else {
            None
        },
        None => None,
    }
}

impl ReportClock {
    /// The clock of a job that starts at `start_us` and ends at `deadline_us`.
    pub fn new(cfg: &EngineConfig, start_us: u64, deadline_us: u64) -> (clock: ReportClock)
        ensures
            clock@ == ClockView::begun(*cfg, start_us, deadline_us),
    {
        let period: u64 = match cfg.report_period_ms.checked_mul(1000) {
            Some(0) => 1,
            Some(us) => us,
            None => u64::MAX,
        };
        let drain: u64 = match cfg.drain_window_ms.checked_mul(1000) {
            Some(us) => us,
            None => u64::MAX,
        };
        ReportClock {
            period_us: period,
            drain_us: drain,
            batch: cfg.report_batch_size,
            deadline_us,
            next_tick_us: following_tick(start_us, period, deadline_us),
            drain_until_us: None,
            finished: false,
        }
    }

    /// Says what the reporter does at `now_us`, given whether the job is being shut down,
    /// whether every fiber has stopped, and how many requests the open window counts.
    pub fn step(
        &mut self,
        now_us: u64,
        stopping: bool,
        fibers_done: bool,
        window_count: u64,
    ) -> (action: ReporterAction)
        ensures
            (final(self)@, action) == old(self)@.next(
                now_us,
                stopping,
                fibers_done,
                window_count,
            ),
    {
        if self.finished {
            return ReporterAction::Done;
        }
        let until_us: u64 = match self.drain_until_us {
            Some(until_us) => until_us,
            None => {
                match self.next_tick_us {
                    Some(tick_us) => {
                        if !stopping && now_us >= tick_us {
                            self.next_tick_us = following_tick(
                                tick_us,
                                self.period_us,
                                self.deadline_us,
                            );
                            return ReporterAction::Tick;
                        }
                    },
                    None => {},
                }
                if !(stopping || now_us >= self.deadline_us) {
                    if self.batch > 0 && window_count > self.batch {
                        return ReporterAction::Tick;
                    }
                    let target: u64 = match self.next_tick_us {
                        Some(tick_us) => tick_us,
                        None => self.deadline_us,
                    };
                    return ReporterAction::Sleep(target - now_us);
                }
                match now_us.checked_add(self.drain_us) {
                    Some(until_us) => until_us,
                    None => u64::MAX,
                }
            },
        };
        self.drain_until_us = Some(until_us);
        if fibers_done || now_us >= until_us {
            self.finished = true;
            ReporterAction::Terminal
        } else {
            ReporterAction::Drain(until_us - now_us)
        }
    }
}

/// The clock after `ticks` ticks of the grid of a job that lasts `periods` periods.
pub open spec fn clock_after_ticks(
    cfg: EngineConfig,
    start_us: u64,
    periods: nat,
    ticks: nat,
) -> ClockView {
    let period = report_period_us(cfg);
    let deadline = (start_us + periods * period) as u64;
    ClockView {
        next_tick_us: if ticks < periods {
            Some((start_us + (ticks + 1) * period) as u64)
        } else {
            None
        },
        ..ClockView::begun(cfg, start_us, deadline)
    }
}

/// A job that lasts `periods` report periods and is not shut down has exactly that many
/// ticks, one at the end of every period, the last at the deadline, and then its one
/// terminal tick. Whenever the reporter asks before the next tick it is told to sleep until
/// then, and the clock stays as it is; when it asks at or after the tick it is told to tick,
/// and the clock moves to the tick after. After the last tick it is told to drain, and when
/// the drain is over to report the terminal batch, after which nothing is left to do.
pub proof fn lemma_ticks_of_a_job(
    cfg: EngineConfig,
    start_us: u64,
    periods: nat,
    ticks: nat,
    now_us: u64,
    later_us: u64,
    window_count: u64,
)
    requires
        cfg.report_batch_size == 0,
        start_us + periods * report_period_us(cfg) <= u64::MAX,
        now_us + ms_to_us(cfg.drain_window_ms) <= u64::MAX,
        ticks <= periods,
    ensures
        clock_after_ticks(cfg, start_us, periods, 0) == ClockView::begun(
            cfg,
            start_us,
            (start_us + periods * report_period_us(cfg)) as u64,
        ),
        ({
            let period = report_period_us(cfg);
            let deadline = (start_us + periods * period) as u64;
            let clock = clock_after_ticks(cfg, start_us, periods, ticks);
            let (next, action) = clock.next(now_us, false, false, window_count);
            let tick_us = start_us + (ticks + 1) * period;
            &&& ticks < periods && now_us < tick_us ==> next == clock && action
                == ReporterAction::Sleep((tick_us - now_us) as u64)
            &&& ticks < periods && now_us >= tick_us ==> next == clock_after_ticks(
                cfg,
                start_us,
                periods,
                ticks + 1,
            ) && action == ReporterAction::Tick
            &&& ticks == periods && now_us < deadline ==> next == clock && action
                == ReporterAction::Sleep((deadline - now_us) as u64)
            &&& ticks == periods && now_us >= deadline ==> ({
                let drain = ms_to_us(cfg.drain_window_ms);
                let (over, then) = next.next(later_us, false, false, window_count);
                &&& drain == 0 ==> action == ReporterAction::Terminal && next.finished
                &&& drain > 0 ==> action == ReporterAction::Drain(drain) && !next.finished
                    && next.drain_until_us == Some((now_us + drain) as u64)
                &&& drain > 0 && later_us < now_us + drain ==> over == next && then
                    == ReporterAction::Drain((now_us + drain - later_us) as u64)
                &&& drain > 0 && later_us >= now_us + drain ==> over.finished && then
                    == ReporterAction::Terminal
                &&& over.finished ==> over.next(later_us, false, false, window_count)
                    == (over, ReporterAction::Done)
            })
        }),
{
    let period = report_period_us(cfg) as int;
    let t = ticks as int;
    let p = periods as int;
    assert(0 * period == 0) by (nonlinear_arith);
    assert((0 + 1) * period == period) by (nonlinear_arith);
    assert((t + 1) * period == t * period + period) by (nonlinear_arith);
    assert((t + 2) * period == (t + 1) * period + period) by (nonlinear_arith);
    if ticks < periods {
        assert((t + 1) * period <= p * period) by (nonlinear_arith)
            requires
                t + 1 <= p,
                period >= 0,
        ;
        if ticks + 1 < periods {
            assert((t + 2) * period <= p * period) by (nonlinear_arith)
                requires
                    t + 2 <= p,
                    period >= 0,
            ;
        } else {
            assert((t + 2) * period > p * period) by (nonlinear_arith)
                requires
                    t + 2 > p,
                    period >= 1,
            ;
        }
    }
    let drain = ms_to_us(cfg.drain_window_ms);
    let deadline = (start_us + periods * report_period_us(cfg)) as u64;
    if ticks == periods && now_us >= deadline && drain > 0 {
        let clock = clock_after_ticks(cfg, start_us, periods, ticks);
        let until_us = (now_us + drain) as u64;
        assert(clock.next_tick_us is None);
        assert(until_us > now_us);
        assert((until_us - now_us) as u64 == drain);
        assert(clock.draining(until_us, now_us, false).1 == ReporterAction::Drain(drain));
        assert(clock.next(now_us, false, false, window_count) == clock.draining(
            until_us,
            now_us,
            false,
        ));
    }
    if periods == 0 {
        assert(period > p * period) by (nonlinear_arith)
            requires
                p == 0,
                period >= 1,
        ;
    } else {
        assert(period <= p * period) by (nonlinear_arith)
            requires
                p >= 1,
                period >= 0,
        ;
    }
}

/// A shutdown ends the reports of a job with its terminal batch and nothing else: a
/// reporter that is told to stop is never told to tick or to sleep, only to drain and then,
/// once, to report the terminal batch; and after that nothing is left to do.
pub proof fn lemma_shutdown_ends_the_reports(
    clock: ClockView,
    now_us: u64,
    fibers_done: bool,
    window_count: u64,
)
    ensures
        ({
            let (next, action) = clock.next(now_us, true, fibers_done, window_count);
            &&& !clock.finished ==> action is Drain || action is Terminal
            &&& !clock.finished && fibers_done ==> action is Terminal
            &&& action is Terminal <==> !clock.finished && next.finished
            &&& clock.finished ==> action is Done && next == clock
            &&& next.next_tick_us == clock.next_tick_us
        }),
{
}

/// Requests per second, in thousandths, of `total` requests in `window_us` microseconds,
/// rounded down; 0 for a window of no length, the largest `u64` where the rate exceeds it.
pub open spec fn rps_milli(total: u64, window_us: u64) -> u64 {
    if window_us == 0 {
        0
    } else if (total * 1_000_000_000) / (window_us as int) > u64::MAX {
        u64::MAX
    } else {
        ((total * 1_000_000_000) / (window_us as int)) as u64
    }
}

/// Requests per second, in thousandths, of `total` requests in `window_us` microseconds.
pub fn actual_rps_milli(total: u64, window_us: u64) -> (rate: u64)
    ensures
        rate == rps_milli(total, window_us),
{
    if window_us == 0 {
        0
    } else {
        let scaled: u128 = (total as u128 * 1_000_000_000) / (window_us as u128);
        if scaled > u64::MAX as u128 {
            u64::MAX
        } else {
            scaled as u64
        }
    }
}

/// The batch that reports a window: the job and worker it belongs to, when the window began
/// and ended, what the summary counted and measured, and the rate the counts amount to.
pub open spec fn batch_of(
    job_id: String,
    worker_id: String,
    summary: Summary,
    window_start_ms: u64,
    now_ms: u64,
    window_us: u64,
    terminal: bool,
) -> WorkerResult {
    WorkerResult {
        task_id: job_id,
        worker_id,
        window_start_ms,
        timestamp_ms: now_ms,
        success: summary.success > 0,
        total_requests: summary.count,
        success_count: summary.success,
        error_count: summary.error,
        avg_latency_us: summary.mean,
        p50_latency_us: summary.p50,
        p90_latency_us: summary.p90,
        p95_latency_us: summary.p95,
        p99_latency_us: summary.p99,
        max_latency_us: summary.max,
        actual_rps_milli: rps_milli(summary.count, window_us),
        terminal,
        error_msg: None,
    }
}

/// Builds the batch that reports a window.
pub fn build_batch(
    job_id: &String,
    worker_id: &String,
    summary: &Summary,
    window_start_ms: u64,
    now_ms: u64,
    window_us: u64,
    terminal: bool,
) -> (batch: WorkerResult)
    ensures
        batch == batch_of(
            *job_id,
            *worker_id,
            *summary,
            window_start_ms,
            now_ms,
            window_us,
            terminal,
        ),
{
    WorkerResult {
        task_id: job_id.clone(),
        worker_id: worker_id.clone(),
        window_start_ms,
        timestamp_ms: now_ms,
        success: summary.success > 0,
        total_requests: summary.count,
        success_count: summary.success,
        error_count: summary.error,
        avg_latency_us: summary.mean,
        p50_latency_us: summary.p50,
        p90_latency_us: summary.p90,
        p95_latency_us: summary.p95,
        p99_latency_us: summary.p99,
        max_latency_us: summary.max,
        actual_rps_milli: actual_rps_milli(summary.count, window_us),
        terminal,
        error_msg: None,
    }
}

/// The last batch of a job that ended in an unexpected error: nothing counted, no success,
/// and the message of the error.
pub open spec fn failure_batch_of(
    job_id: String,
    worker_id: String,
    message: String,
    now_ms: u64,
) -> WorkerResult {
    WorkerResult {
        task_id: job_id,
        worker_id,
        window_start_ms: now_ms,
        timestamp_ms: now_ms,
        success: false,
        total_requests: 0,
        success_count: 0,
        error_count: 0,
        avg_latency_us: 0,
        p50_latency_us: 0,
        p90_latency_us: 0,
        p95_latency_us: 0,
        p99_latency_us: 0,
        max_latency_us: 0,
        actual_rps_milli: 0,
        terminal: true,
        error_msg: Some(message),
    }
}

/// Builds the last batch of a job that ended in an unexpected error.
pub fn failure_batch(job_id: &String, worker_id: &String, message: String, now_ms: u64) -> (batch:
    WorkerResult)
    ensures
        batch == failure_batch_of(*job_id, *worker_id, message, now_ms),
{
    WorkerResult {
        task_id: job_id.clone(),
        worker_id: worker_id.clone(),
        window_start_ms: now_ms,
        timestamp_ms: now_ms,
        success: false,
        total_requests: 0,
        success_count: 0,
        error_count: 0,
        avg_latency_us: 0,
        p50_latency_us: 0,
        p90_latency_us: 0,
        p95_latency_us: 0,
        p99_latency_us: 0,
        max_latency_us: 0,
        actual_rps_milli: 0,
        terminal: true,
        error_msg: Some(message),
    }
}

/// A reporter as mathematics.
pub struct ReporterView {
    pub job_id: String,
    pub worker_id: String,
    /// Time of day at which the current window began.
    pub window_start_ms: u64,
    /// Batches not yet pushed, oldest first.
    pub pending: Seq<WorkerResult>,
    /// The most batches kept for later pushes.
    pub capacity: usize,
    /// Batches given up because the queue was full.
    pub dropped: u64,
}

impl ReporterView {
    /// The batches kept: the configured number, at least one.
    pub open spec fn room(self) -> nat {
        if self.capacity == 0 {
            1
        } else {
            self.capacity as nat
        }
    }

    /// The queue holds no more than it has room for.
    pub open spec fn wf(self) -> bool {
        self.pending.len() <= self.room()
    }

    /// The reporter after one more batch was queued: the oldest is given up, and counted,
    /// where the queue was full.
    pub open spec fn with_batch(self, batch: WorkerResult) -> ReporterView {
        if self.pending.len() >= self.room() {
            ReporterView {
                pending: self.pending.drop_first().push(batch),
                dropped: if self.dropped == u64::MAX {
                    u64::MAX
                } else {
                    (self.dropped + 1) as u64
                },
                ..self
            }
        } else {
            ReporterView { pending: self.pending.push(batch), ..self }
        }
    }

    /// Whether a tick over this summary makes a batch: a window in which nothing was counted
    /// is passed over, unless it is the last of its job.
    pub open spec fn reports(summary: Summary, terminal: bool) -> bool {
        summary.count > 0 || terminal
    }

    /// The reporter after a tick at `now_ms` that found `summary` in a window of `window_us`
    /// microseconds. Either way the next window begins at `now_ms`.
    pub open spec fn after_tick(
        self,
        summary: Summary,
        now_ms: u64,
        window_us: u64,
        terminal: bool,
    ) -> ReporterView {
        let moved = ReporterView { window_start_ms: now_ms, ..self };
        if Self::reports(summary, terminal) {
            moved.with_batch(
                batch_of(
                    self.job_id,
                    self.worker_id,
                    summary,
                    self.window_start_ms,
                    now_ms,
                    window_us,
                    terminal,
                ),
            )
        } else {
            moved
        }
    }

    /// The reporter after the oldest batch was pushed.
    pub open spec fn after_push(self) -> ReporterView {
        if self.pending.len() > 0 {
            ReporterView { pending: self.pending.drop_first(), ..self }
        } else {
            self
        }
    }
}

/// Turns the windows of one job into batches and keeps those that still await a push.
pub struct Reporter {
    job_id: String,
    worker_id: String,
    window_start_ms: u64,
    pending: Vec<WorkerResult>,
    capacity: usize,
    dropped: u64,
}

impl View for Reporter {
    type V = ReporterView;

    closed spec fn view(&self) -> ReporterView {
        ReporterView {
            job_id: self.job_id,
            worker_id: self.worker_id,
            window_start_ms: self.window_start_ms,
            pending: self.pending@,
            capacity: self.capacity,
            dropped: self.dropped,
        }
    }
}

impl Reporter {
    #[verifier::type_invariant]
    spec fn well_formed(self) -> bool {
        self@.wf()
    }

    /// A reporter for a job whose first window begins at `now_ms`, keeping up to `capacity`
    /// batches for later pushes.
    pub fn new(job_id: String, worker_id: String, now_ms: u64, capacity: usize) -> (r: Reporter)
        ensures
            r@ == (ReporterView {
                job_id,
                worker_id,
                window_start_ms: now_ms,
                pending: Seq::empty(),
                capacity,
                dropped: 0,
            }),
            r@.wf(),
    {
        Reporter {
            job_id,
            worker_id,
            window_start_ms: now_ms,
            pending: Vec::new(),
            capacity,
            dropped: 0,
        }
    }

    /// Closes the current window at the time of day `now_ms` and the monotonic time `now_us`:
    /// takes its summary, clears it, and queues the batch, unless nothing was counted and the
    /// job goes on. Returns whether a batch was queued.
    pub fn tick(
        &mut self,
        metrics: &mut MetricsCollector,
        now_ms: u64,
        now_us: u64,
        terminal: bool,
    ) -> (queued: bool)
        ensures
            queued == ReporterView::reports(old(metrics).window().summary(), terminal),
            final(self)@ == old(self)@.after_tick(
                old(metrics).window().summary(),
                now_ms,
                elapsed_us(old(metrics).started_at(), now_us),
                terminal,
            ),
            final(self)@.wf(),
            final(metrics).window() == WindowModel::empty(),
            final(metrics).started_at() == now_us,
    {
        proof {
            use_type_invariant(&*self);
        }
        let summary = metrics.snapshot();
        let began = metrics.window_start();
        let window_us: u64 = if now_us >= began {
            now_us - began
        } else {
            0
        };
        metrics.reset(now_us);
        let window_start_ms = self.window_start_ms;
        self.window_start_ms = now_ms;
        if summary.count > 0 || terminal {
            let batch = build_batch(
                &self.job_id,
                &self.worker_id,
                &summary,
                window_start_ms,
                now_ms,
                window_us,
                terminal,
            );
            self.queue(batch);
            true
        } else {
            false
        }
    }

    /// Queues a batch for the next push. Where the queue is full the oldest batch is given
    /// up and counted.
    pub fn queue(&mut self, batch: WorkerResult)
        ensures
            final(self)@ == old(self)@.with_batch(batch),
            final(self)@.wf(),
    {
        proof {
            use_type_invariant(&*self);
        }
        let room: usize = if self.capacity == 0 {
            1
        } else {
            self.capacity
        };
        let mut pending: Vec<WorkerResult> = Vec::new();
        std::mem::swap(&mut pending, &mut self.pending);
        if pending.len() >= room {
            let _ = pending.remove(0);
            if self.dropped < u64::MAX {
                self.dropped = self.dropped + 1;
            }
        }
        pending.push(batch);
        self.pending = pending;
        assert(final(self)@.pending =~= old(self)@.with_batch(batch).pending);
    }

    /// Batches that await a push.
    pub fn pending_len(&self) -> (n: usize)
        ensures
            n == self@.pending.len(),
    {
        self.pending.len()
    }

    /// The batch to push next: the oldest that awaits one.
    pub fn next_batch(&self) -> (batch: Option<&WorkerResult>)
        ensures
            match batch {
                Some(b) => self@.pending.len() > 0 && *b == self@.pending[0],
                None => self@.pending.len() == 0,
            },
    {
        if self.pending.len() > 0 {
            Some(&self.pending[0])
        } else {
            None
        }
    }

    /// Notes that the oldest batch was pushed: it leaves the queue. A failed push is not
    /// noted, so its batch stays first in line.
    pub fn push_succeeded(&mut self)
        ensures
            final(self)@ == old(self)@.after_push(),
            final(self)@.wf(),
    {
        proof {
            use_type_invariant(&*self);
        }
        if self.pending.len() > 0 {
            let mut pending: Vec<WorkerResult> = Vec::new();
            std::mem::swap(&mut pending, &mut self.pending);
            let _ = pending.remove(0);
            self.pending = pending;
            assert(final(self)@.pending =~= old(self)@.pending.drop_first());
        }
    }

    /// Batches given up so far because the queue was full.
    pub fn dropped(&self) -> (n: u64)
        ensures
            n == self@.dropped,
    {
        self.dropped
    }
}

/// Queueing keeps the order of the batches, puts the new one last, and never lowers the
/// count of those given up.
pub proof fn lemma_queue_keeps_order(r: ReporterView, batch: WorkerResult)
    requires
        r.wf(),
    ensures
        r.with_batch(batch).wf(),
        r.with_batch(batch).pending.last() == batch,
        r.with_batch(batch).dropped >= r.dropped,
        r.with_batch(batch).pending.drop_last() == (if r.pending.len() >= r.room() {
            r.pending.drop_first()
        } else {
            r.pending
        }),
{
    if r.pending.len() >= r.room() {
        assert(r.pending.drop_first().push(batch).drop_last() =~= r.pending.drop_first());
    } else {
        assert(r.pending.push(batch).drop_last() =~= r.pending);
    }
}

/// The windows of a job follow one another without a gap: the batch of a tick begins where
/// the tick before ended, and the next window begins where this one ends.
pub proof fn lemma_windows_abut(
    r: ReporterView,
    summary: Summary,
    now_ms: u64,
    window_us: u64,
    terminal: bool,
)
    requires
        r.wf(),
        ReporterView::reports(summary, terminal),
    ensures
        r.after_tick(summary, now_ms, window_us, terminal).pending.last().window_start_ms
            == r.window_start_ms,
        r.after_tick(summary, now_ms, window_us, terminal).pending.last().timestamp_ms == now_ms,
        r.after_tick(summary, now_ms, window_us, terminal).window_start_ms == now_ms,
{
}

} // verus!
