//! The delay schedule between attempts of one request, and the rule that decides after each
//! attempt whether another follows.
//!
//! Factors that the configuration gives as fractions are held in thousandths: a multiplier
//! of 2 is 2000, a jitter of a tenth is 100.

use crate::growth::{
    grown, grown_capped, lemma_grown_by_whole_factor, lemma_grown_rises,
    lemma_grown_rounds_once, lemma_power_positive, power,
};
use vstd::prelude::*;

verus! {

/// Thousandths in one.
pub const PERMILLE: u64 = 1000;

/// The draws that spread a delay over its jitter range run from 0 to this value.
pub const DRAW_SCALE: u32 = 1_000_000_000;

/// The parameters of the delay schedule. Delays are in milliseconds.
#[derive(Clone, Copy, Debug, PartialEq, Eq, Structural)]
pub struct BackoffConfig {
    /// Delay after the first failed attempt, before jitter.
    pub initial_delay_ms: u64,
    /// The cap on every delay before jitter.
    pub max_delay_ms: u64,
    /// Growth from one delay to the next, in thousandths.
    pub multiplier_permille: u64,
    /// Half-width of the jitter range as a share of the delay, in thousandths.
    pub jitter_permille: u64,
}

impl BackoffConfig {
    /// 100 ms at first, doubling, capped at 5 s, spread by a tenth either way.
    pub open spec fn standard() -> BackoffConfig {
        BackoffConfig {
            initial_delay_ms: 100,
            max_delay_ms: 5000,
            multiplier_permille: 2000,
            jitter_permille: 100,
        }
    }

    /// A schedule that does not shrink: the multiplier is at least one. The jitter is at
    /// most the whole delay.
    pub open spec fn valid(self) -> bool {
        self.multiplier_permille >= PERMILLE && self.jitter_permille <= PERMILLE
    }

    /// How often the delay has grown by failed attempt number `attempt`: once for every
    /// attempt but the first. Attempt 0 counts as the first.
    pub open spec fn growth_steps(attempt: nat) -> nat {
        if attempt <= 1 {
            0
        } else {
            (attempt - 1) as nat
        }
    }

    /// The delay after failed attempt number `attempt`, before the cap and before jitter:
    /// `initial * multiplier^(attempt - 1)`, computed exactly and rounded down to a whole
    /// millisecond once.
    pub open spec fn uncapped_delay(self, attempt: nat) -> nat {
        grown(
            self.initial_delay_ms as nat,
            self.multiplier_permille as nat,
            Self::growth_steps(attempt),
        )
    }

    /// The delay after failed attempt number `attempt`, before jitter:
    /// `min(cap, initial * multiplier^(attempt - 1))`, rounded down to a whole millisecond
    /// once.
    pub open spec fn nominal_delay(self, attempt: nat) -> nat {
        if self.uncapped_delay(attempt) > self.max_delay_ms {
            self.max_delay_ms as nat
        } else {
            self.uncapped_delay(attempt)
        }
    }

    /// The most the jitter moves a delay of `nominal_ms` either way: the jitter's share of
    /// it, rounded down, and never more than the delay itself.
    pub open spec fn jitter_span(self, nominal_ms: nat) -> nat {
        let share = if self.jitter_permille > PERMILLE {
            PERMILLE
        } else {
            self.jitter_permille
        };
        ((nominal_ms * share) / (PERMILLE as int)) as nat
    }

    /// A delay of `nominal_ms` with jitter applied. The draw picks the point in the range
    /// `[nominal - span, nominal + span]`: 0 the lower end, `DRAW_SCALE` (and anything above)
    /// the upper end. A result beyond `u64` is held at its largest value.
    pub open spec fn jittered(self, nominal_ms: nat, draw: u32) -> nat {
        let span = self.jitter_span(nominal_ms);
        let d = if draw > DRAW_SCALE {
            DRAW_SCALE
        } else {
            draw
        };
        let spread = nominal_ms - span + (2 * span * d) / (DRAW_SCALE as int);
        if spread > u64::MAX {
            u64::MAX as nat
        } else {
            spread as nat
        }
    }

    /// The delay to wait after failed attempt number `attempt`, for the given draw.
    pub open spec fn delay(self, attempt: nat, draw: u32) -> nat {
        self.jittered(self.nominal_delay(attempt), draw)
    }
}

impl Default for BackoffConfig {
    /// The standard schedule.
    fn default() -> (cfg: BackoffConfig)
        ensures
            cfg == BackoffConfig::standard(),
    {
        BackoffConfig {
            initial_delay_ms: 100,
            max_delay_ms: 5000,
            multiplier_permille: 2000,
            jitter_permille: 100,
        }
    }
}

/// No delay before jitter exceeds the cap.
pub proof fn lemma_nominal_capped(cfg: BackoffConfig, attempt: nat)
    ensures
        cfg.nominal_delay(attempt) <= cfg.max_delay_ms,
{
}

/// The delays before jitter are monotone non-decreasing and never above the cap, as long
/// as the multiplier is at least one.
pub proof fn lemma_nominal_monotone(cfg: BackoffConfig, earlier: nat, later: nat)
    requires
        cfg.multiplier_permille >= PERMILLE,
        earlier <= later,
    ensures
        cfg.nominal_delay(earlier) <= cfg.nominal_delay(later) <= cfg.max_delay_ms,
        cfg.uncapped_delay(earlier) <= cfg.uncapped_delay(later),
{
    lemma_grown_rises(
        cfg.initial_delay_ms as nat,
        cfg.multiplier_permille as nat,
        BackoffConfig::growth_steps(earlier),
        BackoffConfig::growth_steps(later),
    );
}

/// Once `initial * multiplier^(attempt - 1)` has reached the cap, the delay before jitter
/// is the cap, and stays the cap for every later attempt.
pub proof fn lemma_nominal_stays_at_cap(cfg: BackoffConfig, attempt: nat, later: nat)
    requires
        cfg.multiplier_permille >= PERMILLE,
        attempt <= later,
        cfg.initial_delay_ms * power(
            cfg.multiplier_permille as nat,
            BackoffConfig::growth_steps(attempt),
        ) >= cfg.max_delay_ms * power(1000, BackoffConfig::growth_steps(attempt)),
    ensures
        cfg.nominal_delay(attempt) == cfg.max_delay_ms,
        cfg.nominal_delay(later) == cfg.max_delay_ms,
{
    let steps = BackoffConfig::growth_steps(attempt);
    lemma_grown_rounds_once(cfg.initial_delay_ms as nat, cfg.multiplier_permille as nat, steps);
    lemma_power_positive(1000, steps);
    let cap = cfg.max_delay_ms as int;
    let whole = cfg.uncapped_delay(attempt) as int;
    let scale = power(1000, steps) as int;
    assert(whole >= cap) by (nonlinear_arith)
        requires
            cap * scale < (whole + 1) * scale,
            scale >= 1,
    ;
    lemma_nominal_monotone(cfg, attempt, later);
}

/// The delay before jitter is `min(cap, initial * multiplier^(attempt - 1))` rounded down
/// once: below the cap it is the largest whole number of milliseconds that does not exceed
/// the exact product, and so less than one millisecond below it; and it is the cap exactly
/// when the exact product has reached the cap.
pub proof fn lemma_nominal_closed_form(cfg: BackoffConfig, attempt: nat)
    ensures
        ({
            let steps = BackoffConfig::growth_steps(attempt);
            let exact = cfg.initial_delay_ms * power(cfg.multiplier_permille as nat, steps);
            let scale = power(1000, steps);
            &&& scale >= 1
            &&& cfg.nominal_delay(attempt) * scale <= exact
            &&& cfg.nominal_delay(attempt) < cfg.max_delay_ms ==> exact < (cfg.nominal_delay(
                attempt,
            ) + 1) * scale
            &&& cfg.nominal_delay(attempt) == cfg.max_delay_ms <==> exact >= cfg.max_delay_ms
                * scale
        }),
{
    let steps = BackoffConfig::growth_steps(attempt);
    lemma_grown_rounds_once(cfg.initial_delay_ms as nat, cfg.multiplier_permille as nat, steps);
    lemma_power_positive(1000, steps);
    let cap = cfg.max_delay_ms as int;
    let whole = cfg.uncapped_delay(attempt) as int;
    let nominal = cfg.nominal_delay(attempt) as int;
    let scale = power(1000, steps) as int;
    let exact = (cfg.initial_delay_ms * power(cfg.multiplier_permille as nat, steps)) as int;
    assert(nominal * scale <= whole * scale) by (nonlinear_arith)
        requires
            nominal <= whole,
            scale >= 0,
    ;
    if whole >= cap {
        assert(cap * scale <= whole * scale) by (nonlinear_arith)
            requires
                cap <= whole,
                scale >= 0,
        ;
    } else {
        assert((whole + 1) * scale <= cap * scale) by (nonlinear_arith)
            requires
                whole + 1 <= cap,
                scale >= 0,
        ;
    }
}

/// With a whole multiplier `m` nothing is rounded: the delay before jitter is
/// `min(cap, initial * m^(attempt - 1))`.
pub proof fn lemma_nominal_whole_multiplier(cfg: BackoffConfig, m: nat, attempt: nat)
    requires
        cfg.multiplier_permille == 1000 * m,
    ensures
        cfg.nominal_delay(attempt) == if cfg.initial_delay_ms * power(
            m,
            BackoffConfig::growth_steps(attempt),
        ) > cfg.max_delay_ms {
            cfg.max_delay_ms as int
        } else {
            cfg.initial_delay_ms * power(m, BackoffConfig::growth_steps(attempt))
        },
{
    lemma_grown_by_whole_factor(
        cfg.initial_delay_ms as nat,
        m,
        BackoffConfig::growth_steps(attempt),
    );
}

/// Every delay lies within the jitter's share of its nominal value: between
/// `(1 - jitter) * nominal` and `(1 + jitter) * nominal`, and it is never negative.
pub proof fn lemma_jitter_range(cfg: BackoffConfig, nominal_ms: nat, draw: u32)
    requires
        cfg.jitter_permille <= PERMILLE,
        nominal_ms <= u64::MAX,
    ensures
        cfg.jitter_span(nominal_ms) <= nominal_ms,
        nominal_ms - cfg.jitter_span(nominal_ms) <= cfg.jittered(nominal_ms, draw) <= nominal_ms
            + cfg.jitter_span(nominal_ms),
        nominal_ms * (PERMILLE - cfg.jitter_permille) <= cfg.jittered(nominal_ms, draw) * PERMILLE,
        cfg.jittered(nominal_ms, draw) * PERMILLE <= nominal_ms * (PERMILLE + cfg.jitter_permille),
{
    lemma_jitter_span_bounded(cfg, nominal_ms);
    let span = cfg.jitter_span(nominal_ms) as int;
    let d: int = if draw > DRAW_SCALE {
        DRAW_SCALE as int
    } else {
        draw as int
    };
    let offset = (2 * span * d) / 1_000_000_000;
    assert(0 <= offset <= 2 * span) by (nonlinear_arith)
        requires
            offset == (2 * span * d) / 1_000_000_000,
            0 <= d <= 1_000_000_000,
            span >= 0,
    ;
    let n = nominal_ms as int;
    let j = cfg.jitter_permille as int;
    assert(span * 1000 <= n * j) by (nonlinear_arith)
        requires
            span == (n * j) / 1000,
            n >= 0,
            j >= 0,
    ;
    assert(n * (1000 - j) == n * 1000 - n * j) by (nonlinear_arith);
    assert(n * (1000 + j) == n * 1000 + n * j) by (nonlinear_arith);
}

/// A draw from the upper half of its range never shortens a delay.
pub proof fn lemma_upper_draw_keeps_nominal(cfg: BackoffConfig, nominal_ms: nat, draw: u32)
    requires
        nominal_ms <= u64::MAX,
        2 * draw >= DRAW_SCALE,
    ensures
        cfg.jittered(nominal_ms, draw) >= nominal_ms,
{
    lemma_jitter_span_bounded(cfg, nominal_ms);
    let span = cfg.jitter_span(nominal_ms) as int;
    let d: int = if draw > DRAW_SCALE {
        DRAW_SCALE as int
    } else {
        draw as int
    };
    assert((2 * span * d) / 1_000_000_000 >= span) by (nonlinear_arith)
        requires
            2 * d >= 1_000_000_000,
            span >= 0,
    ;
}

/// The jitter never moves a delay by more than the delay itself.
pub proof fn lemma_jitter_span_bounded(cfg: BackoffConfig, nominal_ms: nat)
    ensures
        cfg.jitter_span(nominal_ms) <= nominal_ms,
{
    let share: int = if cfg.jitter_permille > PERMILLE {
        PERMILLE as int
    } else {
        cfg.jitter_permille as int
    };
    let n = nominal_ms as int;
    assert((n * share) / 1000 <= n) by (nonlinear_arith)
        requires
            0 <= share <= 1000,
            n >= 0,
    ;
}

/// The schedule of a valid configuration. From one attempt to the next the delay before
/// jitter never shrinks and never passes the cap. The delay that is waited lies between
/// `(1 - jitter)` and `(1 + jitter)` times `min(cap, initial * multiplier^(attempt - 1))`,
/// but for the rounding to whole milliseconds, which takes less than one millisecond off
/// and adds nothing.
pub proof fn lemma_schedule(cfg: BackoffConfig, earlier: nat, later: nat, draw: u32)
    requires
        cfg.valid(),
        earlier <= later,
    ensures
        cfg.nominal_delay(earlier) <= cfg.nominal_delay(later) <= cfg.max_delay_ms,
        cfg.nominal_delay(later) * (PERMILLE - cfg.jitter_permille) <= cfg.delay(later, draw)
            * PERMILLE,
        cfg.delay(later, draw) * PERMILLE <= cfg.nominal_delay(later) * (PERMILLE
            + cfg.jitter_permille),
        ({
            let steps = BackoffConfig::growth_steps(later);
            let exact = cfg.initial_delay_ms * power(cfg.multiplier_permille as nat, steps);
            let scale = power(1000, steps);
            let wait = cfg.delay(later, draw);
            if exact >= cfg.max_delay_ms * scale {
                &&& cfg.max_delay_ms * (PERMILLE - cfg.jitter_permille) <= wait * PERMILLE
                &&& wait * PERMILLE <= cfg.max_delay_ms * (PERMILLE + cfg.jitter_permille)
            } else {
                &&& exact * (PERMILLE - cfg.jitter_permille) < (wait + 1) * PERMILLE * scale
                &&& wait * PERMILLE * scale <= exact * (PERMILLE + cfg.jitter_permille)
            }
        }),
{
    lemma_nominal_monotone(cfg, earlier, later);
    lemma_jitter_range(cfg, cfg.nominal_delay(later), draw);
    lemma_nominal_closed_form(cfg, later);
    let steps = BackoffConfig::growth_steps(later);
    let exact = (cfg.initial_delay_ms * power(cfg.multiplier_permille as nat, steps)) as int;
    let scale = power(1000, steps) as int;
    let wait = cfg.delay(later, draw) as int;
    let nominal = cfg.nominal_delay(later) as int;
    let j = cfg.jitter_permille as int;
    if exact < cfg.max_delay_ms * scale {
        assert(wait * 1000 * scale <= exact * (1000 + j)) by (nonlinear_arith)
            requires
                wait * 1000 <= nominal * (1000 + j),
                nominal * scale <= exact,
                scale >= 1,
                0 <= j,
                nominal >= 0,
        ;
        assert(exact * (1000 - j) < (wait + 1) * 1000 * scale) by (nonlinear_arith)
            requires
                nominal * (1000 - j) <= wait * 1000,
                exact < (nominal + 1) * scale,
                scale >= 1,
                0 <= j <= 1000,
                nominal >= 0,
                exact >= 0,
                wait >= 0,
        ;
    }
}

/// The delay after failed attempt number `attempt`, before jitter.
pub fn nominal_delay_ms(cfg: &BackoffConfig, attempt: u32) -> (delay_ms: u64)
    ensures
        delay_ms == cfg.nominal_delay(attempt as nat),
        delay_ms <= cfg.max_delay_ms,
{
    let steps: u32 = if attempt <= 1 {
        0
    } else {
        attempt - 1
    };
    grown_capped(cfg.initial_delay_ms, cfg.multiplier_permille, steps, cfg.max_delay_ms)
}

/// A delay of `nominal_ms` with jitter applied for the given draw.
pub fn apply_jitter(cfg: &BackoffConfig, nominal_ms: u64, draw: u32) -> (delay_ms: u64)
    ensures
        delay_ms == cfg.jittered(nominal_ms as nat, draw),
        nominal_ms - cfg.jitter_span(nominal_ms as nat) <= delay_ms,
        delay_ms <= nominal_ms + cfg.jitter_span(nominal_ms as nat),
{
    let share: u64 = if cfg.jitter_permille > PERMILLE {
        PERMILLE
    } else {
        cfg.jitter_permille
    };
    let d: u32 = if draw > DRAW_SCALE {
        DRAW_SCALE
    } else {
        draw
    };
    proof {
        lemma_jitter_span_bounded(*cfg, nominal_ms as nat);
        let n = nominal_ms as int;
        let s = share as int;
        assert(0 <= n * s <= 0xffff_ffff_ffff_ffff * 1000) by (nonlinear_arith)
            requires
                0 <= n <= 0xffff_ffff_ffff_ffff,
                0 <= s <= 1000,
        ;
    }
    let span: u64 = ((nominal_ms as u128 * share as u128) / (PERMILLE as u128)) as u64;
    proof {
        let sp = span as int;
        let di = d as int;
        assert(0 <= 2 * sp * di <= 2 * 0xffff_ffff_ffff_ffff * 1_000_000_000) by (nonlinear_arith)
            requires
                0 <= sp <= 0xffff_ffff_ffff_ffff,
                0 <= di <= 1_000_000_000,
        ;
        assert((2 * sp * di) / 1_000_000_000 <= 2 * sp) by (nonlinear_arith)
            requires
                0 <= sp,
                0 <= di <= 1_000_000_000,
        ;
    }
    let offset: u128 = (2 * span as u128 * d as u128) / (DRAW_SCALE as u128);
    let spread: u128 = (nominal_ms - span) as u128 + offset;
    if spread > u64::MAX as u128 {
        u64::MAX
    } else {
        spread as u64
    }
}

/// The delay to wait after failed attempt number `attempt`: the nominal delay of that
/// attempt, moved within its jitter range by `draw`. The caller supplies the draw, a number
/// between 0 and `DRAW_SCALE` taken from whatever source of chance it has.
pub fn next_delay(attempt: u32, cfg: &BackoffConfig, draw: u32) -> (delay_ms: u64)
    ensures
        delay_ms == cfg.delay(attempt as nat, draw),
        cfg.nominal_delay(attempt as nat) - cfg.jitter_span(cfg.nominal_delay(attempt as nat))
            <= delay_ms,
        delay_ms <= cfg.nominal_delay(attempt as nat) + cfg.jitter_span(
            cfg.nominal_delay(attempt as nat),
        ),
{
    let nominal = nominal_delay_ms(cfg, attempt);
    apply_jitter(cfg, nominal, draw)
}

/// How often a request is attempted and how long to wait in between.
#[derive(Clone, Copy, Debug, PartialEq, Eq, Structural)]
pub struct RetryPolicy {
    /// Attempts in all, the first included. With 0 no attempt is made.
    pub max_attempts: u32,
    pub backoff: BackoffConfig,
}

impl RetryPolicy {
    /// The attempts allowed.
    pub open spec fn attempt_limit(self) -> nat {
        self.max_attempts as nat
    }

    /// The policy of a sender that the settings describe. A sender tries every request
    /// once at the least: with retries switched off, or switched on with no attempt allowed,
    /// its policy allows one attempt.
    pub open spec fn of_settings(
        enabled: bool,
        max_attempts: u32,
        backoff: BackoffConfig,
    ) -> RetryPolicy {
        RetryPolicy {
            max_attempts: if enabled && max_attempts >= 1 {
                max_attempts
            } else {
                1
            },
            backoff,
        }
    }

    /// The policy of a sender that the settings describe.
    pub fn from_settings(enabled: bool, max_attempts: u32, backoff: BackoffConfig) -> (policy:
        RetryPolicy)
        ensures
            policy == RetryPolicy::of_settings(enabled, max_attempts, backoff),
            policy.max_attempts >= 1,
    {
        RetryPolicy {
            max_attempts: if enabled && max_attempts >= 1 {
                max_attempts
            } else {
                1
            },
            backoff,
        }
    }
}

/// What an attempt means for the retry loop.
#[derive(Clone, Copy, Debug, PartialEq, Eq, Structural)]
pub enum AttemptResult {
    /// The request succeeded.
    Success,
    /// The request failed in a way that another attempt may mend.
    Retryable,
    /// The request failed for good.
    Final,
}

/// How a retry loop ended.
#[derive(Clone, Copy, Debug, PartialEq, Eq, Structural)]
pub enum RetryVerdict {
    /// An attempt succeeded.
    Succeeded,
    /// An attempt failed for good.
    Failed,
    /// Every allowed attempt failed; so also where none was allowed.
    Exhausted,
    /// The loop was cancelled before or between attempts.
    Cancelled,
}

/// Where a retry loop stands.
#[derive(Clone, Copy, Debug, PartialEq, Eq, Structural)]
pub enum RetryPhase {
    /// Nothing attempted yet.
    Idle,
    /// An attempt is under way.
    Attempting,
    /// Waiting before the next attempt.
    Waiting,
    /// Over.
    Finished(RetryVerdict),
}

/// What happens to a retry loop.
#[derive(Clone, Copy, Debug, PartialEq, Eq, Structural)]
pub enum RetryEvent {
    /// The caller wants the request made.
    Start,
    /// The attempt under way ended; the draw spreads the wait that may follow.
    Attempted(AttemptResult, u32),
    /// The wait is over.
    WaitElapsed,
    /// The caller gives up.
    Cancelled,
}

/// What the caller of a retry loop does next.
#[derive(Clone, Copy, Debug, PartialEq, Eq, Structural)]
pub enum RetryAction {
    /// Make the attempt with this number, counting from 1.
    Attempt(u32),
    /// Wait this many milliseconds, or until cancelled.
    Wait(u64),
    /// Stop: the loop is over.
    Finish(RetryVerdict),
    /// The event does not fit the phase: carry on as before.
    Stay,
}

/// A retry loop as mathematics.
pub struct RetryView {
    pub policy: RetryPolicy,
    pub phase: RetryPhase,
    /// Attempts begun so far.
    pub attempts: nat,
}

impl RetryView {
    /// The loop before its first attempt.
    pub open spec fn fresh(policy: RetryPolicy) -> RetryView {
        RetryView { policy, phase: RetryPhase::Idle, attempts: 0 }
    }

    /// Never more attempts than the policy allows, none before the start, and at least one
    /// once under way.
    pub open spec fn wf(self) -> bool {
        &&& self.attempts <= self.policy.attempt_limit()
        &&& self.phase == RetryPhase::Idle ==> self.attempts == 0
        &&& (self.phase == RetryPhase::Attempting || self.phase == RetryPhase::Waiting)
            ==> self.attempts >= 1
        &&& self.phase == RetryPhase::Waiting ==> self.attempts < self.policy.attempt_limit()
    }

    /// The loop after an event. A loop that is started makes its first attempt, unless its
    /// policy allows none: then it is over at once, with nothing attempted.
    pub open spec fn after(self, event: RetryEvent) -> RetryView {
        match (self.phase, event) {
            (RetryPhase::Idle, RetryEvent::Start) => if self.policy.attempt_limit() == 0 {
                RetryView { phase: RetryPhase::Finished(RetryVerdict::Exhausted), ..self }
            } else {
                RetryView { phase: RetryPhase::Attempting, attempts: 1, ..self }
            },
            (RetryPhase::Attempting, RetryEvent::Attempted(result, _)) => match result {
                AttemptResult::Success => RetryView {
                    phase: RetryPhase::Finished(RetryVerdict::Succeeded),
                    ..self
                },
                AttemptResult::Final => RetryView {
                    phase: RetryPhase::Finished(RetryVerdict::Failed),
                    ..self
                },
                AttemptResult::Retryable => if self.attempts < self.policy.attempt_limit() {
                    RetryView { phase: RetryPhase::Waiting, ..self }
                } else {
                    RetryView { phase: RetryPhase::Finished(RetryVerdict::Exhausted), ..self }
                },
            },
            (RetryPhase::Waiting, RetryEvent::WaitElapsed) => RetryView {
                phase: RetryPhase::Attempting,
                attempts: self.attempts + 1,
                ..self
            },
            (RetryPhase::Idle, RetryEvent::Cancelled) => RetryView {
                phase: RetryPhase::Finished(RetryVerdict::Cancelled),
                ..self
            },
            (RetryPhase::Waiting, RetryEvent::Cancelled) => RetryView {
                phase: RetryPhase::Finished(RetryVerdict::Cancelled),
                ..self
            },
            _ => self,
        }
    }

    /// What the caller does after an event.
    pub open spec fn action_on(self, event: RetryEvent) -> RetryAction {
        match (self.phase, event) {
            (RetryPhase::Idle, RetryEvent::Start) => if self.policy.attempt_limit() == 0 {
                RetryAction::Finish(RetryVerdict::Exhausted)
            } else {
                RetryAction::Attempt(1)
            },
            (RetryPhase::Attempting, RetryEvent::Attempted(result, draw)) => match result {
                AttemptResult::Success => RetryAction::Finish(RetryVerdict::Succeeded),
                AttemptResult::Final => RetryAction::Finish(RetryVerdict::Failed),
                AttemptResult::Retryable => if self.attempts < self.policy.attempt_limit() {
                    RetryAction::Wait(self.policy.backoff.delay(self.attempts, draw) as u64)
                } else {
                    RetryAction::Finish(RetryVerdict::Exhausted)
                },
            },
            (RetryPhase::Waiting, RetryEvent::WaitElapsed) => RetryAction::Attempt(
                (self.attempts + 1) as u32,
            ),
            (RetryPhase::Idle, RetryEvent::Cancelled) => RetryAction::Finish(
                RetryVerdict::Cancelled,
            ),
            (RetryPhase::Waiting, RetryEvent::Cancelled) => RetryAction::Finish(
                RetryVerdict::Cancelled,
            ),
            (RetryPhase::Finished(verdict), _) => RetryAction::Finish(verdict),
            _ => RetryAction::Stay,
        }
    }

    /// The loop after a run of events, oldest first.
    pub open spec fn after_all(self, events: Seq<RetryEvent>) -> RetryView
        decreases events.len(),
    {
        if events.len() == 0 {
            self
        } else {
            self.after_all(events.drop_last()).after(events.last())
        }
    }

    /// The attempts that a run of events asks the caller to make.
    pub open spec fn attempts_asked(self, events: Seq<RetryEvent>) -> nat
        decreases events.len(),
    {
        if events.len() == 0 {
            0
        } else {
            let before = self.after_all(events.drop_last());
            let this: nat = if before.action_on(events.last()) is Attempt {
                1
            } else {
                0
            };
            self.attempts_asked(events.drop_last()) + this
        }
    }
}

/// The retry loop around one request.
#[derive(Clone, Copy, Debug)]
pub struct RetryState {
    policy: RetryPolicy,
    phase: RetryPhase,
    attempts: u32,
}

impl View for RetryState {
    type V = RetryView;

    closed spec fn view(&self) -> RetryView {
        RetryView { policy: self.policy, phase: self.phase, attempts: self.attempts as nat }
    }
}

impl RetryState {
    #[verifier::type_invariant]
    spec fn well_formed(self) -> bool {
        self@.wf()
    }

    /// A loop that has not begun.
    pub fn new(policy: RetryPolicy) -> (state: RetryState)
        ensures
            state@ == RetryView::fresh(policy),
            state@.wf(),
    {
        RetryState { policy, phase: RetryPhase::Idle, attempts: 0 }
    }

    /// Where the loop stands.
    pub fn phase(&self) -> (phase: RetryPhase)
        ensures
            phase == self@.phase,
    {
        self.phase
    }

    /// Attempts begun so far.
    pub fn attempts(&self) -> (n: u32)
        ensures
            n == self@.attempts,
            self@.wf(),
    {
        proof {
            use_type_invariant(self);
        }
        self.attempts
    }

    /// Takes an event and says what to do next.
    pub fn step(&mut self, event: RetryEvent) -> (action: RetryAction)
        ensures
            action == old(self)@.action_on(event),
            final(self)@ == old(self)@.after(event),
            final(self)@.wf(),
    {
        proof {
            use_type_invariant(&*self);
        }
        let limit: u32 = self.policy.max_attempts;
        let policy = self.policy;
        let attempts: u32 = self.attempts;
        let (phase, count, action): (RetryPhase, u32, RetryAction) = match self.phase {
            RetryPhase::Idle => match event {
                RetryEvent::Start => if limit == 0 {
                    (
                        RetryPhase::Finished(RetryVerdict::Exhausted),
                        attempts,
                        RetryAction::Finish(RetryVerdict::Exhausted),
                    )
                } else {
                    (RetryPhase::Attempting, 1, RetryAction::Attempt(1))
                },
                RetryEvent::Cancelled => (
                    RetryPhase::Finished(RetryVerdict::Cancelled),
                    attempts,
                    RetryAction::Finish(RetryVerdict::Cancelled),
                ),
                _ => (RetryPhase::Idle, attempts, RetryAction::Stay),
            },
            RetryPhase::Attempting => match event {
                RetryEvent::Attempted(AttemptResult::Success, _) => (
                    RetryPhase::Finished(RetryVerdict::Succeeded),
                    attempts,
                    RetryAction::Finish(RetryVerdict::Succeeded),
                ),
                RetryEvent::Attempted(AttemptResult::Final, _) => (
                    RetryPhase::Finished(RetryVerdict::Failed),
                    attempts,
                    RetryAction::Finish(RetryVerdict::Failed),
                ),
                RetryEvent::Attempted(AttemptResult::Retryable, draw) => {
                    if attempts < limit {
                        let delay = next_delay(attempts, &policy.backoff, draw);
                        (RetryPhase::Waiting, attempts, RetryAction::Wait(delay))
                    } else {
                        (
                            RetryPhase::Finished(RetryVerdict::Exhausted),
                            attempts,
                            RetryAction::Finish(RetryVerdict::Exhausted),
                        )
                    }
                },
                _ => (RetryPhase::Attempting, attempts, RetryAction::Stay),
            },
            RetryPhase::Waiting => match event {
                RetryEvent::WaitElapsed => (
                    RetryPhase::Attempting,
                    attempts + 1,
                    RetryAction::Attempt(attempts + 1),
                ),
                RetryEvent::Cancelled => (
                    RetryPhase::Finished(RetryVerdict::Cancelled),
                    attempts,
                    RetryAction::Finish(RetryVerdict::Cancelled),
                ),
                _ => (RetryPhase::Waiting, attempts, RetryAction::Stay),
            },
            RetryPhase::Finished(verdict) => (
                RetryPhase::Finished(verdict),
                attempts,
                RetryAction::Finish(verdict),
            ),
        };
        *self = RetryState { policy, phase, attempts: count };
        action
    }
}

/// Whatever happens, a retry loop asks for no more attempts than its policy allows: the
/// attempts asked for over any run of events are exactly those by which its count grew, and
/// the count never passes the limit.
pub proof fn lemma_attempts_bounded(start: RetryView, events: Seq<RetryEvent>)
    requires
        start.wf(),
    ensures
        start.after_all(events).wf(),
        start.after_all(events).policy == start.policy,
        start.attempts + start.attempts_asked(events) == start.after_all(events).attempts,
        start.attempts + start.attempts_asked(events) <= start.policy.attempt_limit(),
    decreases events.len(),
{
    if events.len() > 0 {
        lemma_attempts_bounded(start, events.drop_last());
    }
}

/// The events of a caller that does as it is told while every attempt fails in a way that
/// may mend: for each draw, the failed attempt and the end of the wait that follows it.
pub open spec fn failed_rounds(draws: Seq<u32>) -> Seq<RetryEvent>
    decreases draws.len(),
{
    if draws.len() == 0 {
        Seq::empty()
    } else {
        failed_rounds(draws.drop_last()).push(
            RetryEvent::Attempted(AttemptResult::Retryable, draws.last()),
        ).push(RetryEvent::WaitElapsed)
    }
}

/// After `k` failed attempts, each followed by its wait, a loop that allows more than `k`
/// attempts is making attempt `k + 1`.
pub proof fn lemma_failed_rounds(policy: RetryPolicy, draws: Seq<u32>)
    requires
        draws.len() < policy.max_attempts,
    ensures
        ({
            let s = RetryView::fresh(policy).after(RetryEvent::Start).after_all(
                failed_rounds(draws),
            );
            &&& s.phase == RetryPhase::Attempting
            &&& s.attempts == draws.len() + 1
            &&& s.policy == policy
            &&& s.wf()
        }),
    decreases draws.len(),
{
    let started = RetryView::fresh(policy).after(RetryEvent::Start);
    if draws.len() > 0 {
        let head = failed_rounds(draws.drop_last());
        let failed = RetryEvent::Attempted(AttemptResult::Retryable, draws.last());
        let rounds = failed_rounds(draws);
        lemma_failed_rounds(policy, draws.drop_last());
        assert(rounds == head.push(failed).push(RetryEvent::WaitElapsed));
        assert(rounds.drop_last() =~= head.push(failed));
        assert(head.push(failed).drop_last() =~= head);
        assert(started.after_all(head.push(failed)) == started.after_all(head).after(failed));
        assert(started.after_all(rounds) == started.after_all(head.push(failed)).after(
            RetryEvent::WaitElapsed,
        ));
    }
}

/// What a retry loop comes to, told of a caller that does as it is told. With `n` attempts
/// allowed and the first success on attempt `j <= n`, the loop makes exactly `j` attempts
/// and `j - 1` waits and ends as succeeded: no attempt follows a success. Where no attempt
/// succeeds it makes exactly `n` attempts and `n - 1` waits and ends as exhausted: no wait
/// follows the last attempt. With no attempt allowed it makes none and waits for none.
pub proof fn lemma_retry_loop_outcome(policy: RetryPolicy, draws: Seq<u32>, draw: u32)
    ensures
        policy.max_attempts == 0 ==> {
            &&& RetryView::fresh(policy).action_on(RetryEvent::Start) == RetryAction::Finish(
                RetryVerdict::Exhausted,
            )
            &&& RetryView::fresh(policy).after(RetryEvent::Start).attempts == 0
            &&& RetryView::fresh(policy).after(RetryEvent::Start).phase == RetryPhase::Finished(
                RetryVerdict::Exhausted,
            )
        },
        policy.max_attempts >= 1 ==> RetryView::fresh(policy).action_on(RetryEvent::Start)
            == RetryAction::Attempt(1),
        draws.len() < policy.max_attempts ==> ({
            let s = RetryView::fresh(policy).after(RetryEvent::Start).after_all(
                failed_rounds(draws),
            );
            let succeeded = RetryEvent::Attempted(AttemptResult::Success, draw);
            let failed = RetryEvent::Attempted(AttemptResult::Retryable, draw);
            &&& s.action_on(succeeded) == RetryAction::Finish(RetryVerdict::Succeeded)
            &&& s.after(succeeded).attempts == draws.len() + 1
            &&& s.after(succeeded).phase == RetryPhase::Finished(RetryVerdict::Succeeded)
            &&& draws.len() + 1 < policy.max_attempts ==> {
                &&& s.action_on(failed) == RetryAction::Wait(
                    policy.backoff.delay(draws.len() + 1, draw) as u64,
                )
                &&& s.after(failed).action_on(RetryEvent::WaitElapsed) == RetryAction::Attempt(
                    (draws.len() + 2) as u32,
                )
            }
            &&& draws.len() + 1 == policy.max_attempts ==> {
                &&& s.action_on(failed) == RetryAction::Finish(RetryVerdict::Exhausted)
                &&& s.after(failed).attempts == policy.max_attempts
                &&& s.after(failed).phase == RetryPhase::Finished(RetryVerdict::Exhausted)
            }
        }),
{
    if draws.len() < policy.max_attempts {
        lemma_failed_rounds(policy, draws);
    }
}

/// Every wait a retry loop asks for follows the failed attempt whose number it is computed
/// from, and lies within the jitter range of that attempt's nominal delay.
pub proof fn lemma_wait_follows_schedule(state: RetryView, draw: u32)
    requires
        state.wf(),
        state.phase == RetryPhase::Attempting,
        state.attempts < state.policy.attempt_limit(),
        state.policy.backoff.jitter_permille <= PERMILLE,
    ensures
        state.action_on(RetryEvent::Attempted(AttemptResult::Retryable, draw)) == RetryAction::Wait(
            state.policy.backoff.delay(state.attempts, draw) as u64,
        ),
        ({
            let nominal = state.policy.backoff.nominal_delay(state.attempts);
            let span = state.policy.backoff.jitter_span(nominal);
            nominal - span <= state.policy.backoff.delay(state.attempts, draw) <= nominal + span
        }),
{
    lemma_nominal_capped(state.policy.backoff, state.attempts);
    let nominal = state.policy.backoff.nominal_delay(state.attempts);
    lemma_jitter_range(state.policy.backoff, nominal, draw);
}

/// A loop that is over stays over: no event changes it, and every event is answered with
/// its verdict.
pub proof fn lemma_finished_is_final(state: RetryView, event: RetryEvent)
    requires
        state.phase is Finished,
    ensures
        state.after(event) == state,
        state.action_on(event) == RetryAction::Finish(state.phase->Finished_0),
{
}

} // verus!
