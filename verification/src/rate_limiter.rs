//! Admission control: a token bucket per job, a sliding-window limiter, and the adaptive
//! target rate that follows upstream latency.
//!
//! No limiter keeps a clock. Every call takes the caller's monotonic time in microseconds.
//! With time in microseconds and tokens in millionths, a rate of `R` tokens per second adds
//! exactly `R` millionths per microsecond, so refilling needs no fractions.

use crate::arith::{saturating_mul, saturating_product};
use std::collections::VecDeque;
use vstd::prelude::*;

verus! {

/// Millionths in one token, and microseconds in one second.
pub const MICROS: u64 = 1_000_000;

/// The rate the adaptive controller starts from, in requests per second.
pub const INITIAL_TARGET_RPS: u64 = 1000;

/// The rate the adaptive controller never goes below.
pub const RATE_FLOOR: u64 = 10;

/// Requests per second added after a request that was fast enough.
pub const RATE_STEP: u64 = 10;

/// Latency, in milliseconds, above which a request counts as slow.
pub const SLOW_LATENCY_MS: u64 = 1000;

/// The target rate after one more request was seen: cut by a tenth, but not below the floor,
/// after a slow request; raised by one step, as far as `u64` goes, after any other.
pub open spec fn adjusted_rate(current: u64, latency_ms: u64) -> u64 {
    if latency_ms > SLOW_LATENCY_MS {
        let cut = (current * 9) / 10;
        if cut < RATE_FLOOR {
            RATE_FLOOR
        } else {
            cut as u64
        }
    } else if current + RATE_STEP > u64::MAX {
        u64::MAX
    } else {
        (current + RATE_STEP) as u64
    }
}

/// The target rate after a run of requests with the given latencies, oldest first.
pub open spec fn adjusted_rate_over(current: u64, latencies_ms: Seq<u64>) -> u64
    decreases latencies_ms.len(),
{
    if latencies_ms.len() == 0 {
        current
    } else {
        adjusted_rate(adjusted_rate_over(current, latencies_ms.drop_last()), latencies_ms.last())
    }
}

/// The target rate that follows `current_rps` once a request of the given latency has been
/// seen.
pub fn adjust(current_rps: u64, latency_ms: u64) -> (next_rps: u64)
    ensures
        next_rps == adjusted_rate(current_rps, latency_ms),
        next_rps >= RATE_FLOOR,
{
    if latency_ms > SLOW_LATENCY_MS {
        let cut: u64 = ((current_rps as u128 * 9) / 10) as u64;
        if cut < RATE_FLOOR {
            RATE_FLOOR
        } else {
            cut
        }
    } else {
        match current_rps.checked_add(RATE_STEP) {
            Some(raised) => raised,
            None => u64::MAX,
        }
    }
}

/// The adaptive target rate: additive increase, multiplicative decrease.
///
/// It advises the jobs that start after a change; it does not reach into a running one.
#[derive(Clone, Copy, Debug)]
pub struct AdaptiveRate {
    target_rps: u64,
}

impl View for AdaptiveRate {
    type V = u64;

    closed spec fn view(&self) -> u64 {
        self.target_rps
    }
}

impl AdaptiveRate {
    /// A controller at the initial rate.
    pub fn new() -> (a: AdaptiveRate)
        ensures
            a@ == INITIAL_TARGET_RPS,
    {
        AdaptiveRate { target_rps: INITIAL_TARGET_RPS }
    }

    /// A controller that starts at `target_rps`.
    pub fn starting_at(target_rps: u64) -> (a: AdaptiveRate)
        ensures
            a@ == target_rps,
    {
        AdaptiveRate { target_rps }
    }

    /// Takes the latency of one finished request into account.
    pub fn adjust(&mut self, latency_ms: u64)
        ensures
            final(self)@ == adjusted_rate(old(self)@, latency_ms),
            final(self)@ >= RATE_FLOOR,
    {
        self.target_rps = adjust(self.target_rps, latency_ms);
    }

    /// The current target rate in requests per second.
    pub fn current_rps(&self) -> (rps: u64)
        ensures
            rps == self@,
    {
        self.target_rps
    }
}

/// After any adjustment the rate is at least the floor, a slow request never raises it, and
/// any other request never lowers it.
pub proof fn lemma_adjust_direction(current: u64, latency_ms: u64)
    ensures
        adjusted_rate(current, latency_ms) >= RATE_FLOOR,
        latency_ms > SLOW_LATENCY_MS && current >= RATE_FLOOR ==> adjusted_rate(current, latency_ms)
            <= current,
        latency_ms <= SLOW_LATENCY_MS ==> adjusted_rate(current, latency_ms) >= current,
{
}

/// `10^k`.
pub open spec fn pow10(k: nat) -> nat
    decreases k,
{
    if k == 0 {
        1
    } else {
        10 * pow10((k - 1) as nat)
    }
}

/// `9^k`.
pub open spec fn pow9(k: nat) -> nat
    decreases k,
{
    if k == 0 {
        1
    } else {
        9 * pow9((k - 1) as nat)
    }
}

/// After `k` slow requests in a row the rate is at most `0.9^k` of what it was, unless the
/// floor holds it up.
pub proof fn lemma_slow_run_decays(current: u64, latencies_ms: Seq<u64>)
    requires
        forall|i: int| 0 <= i < latencies_ms.len() ==> #[trigger] latencies_ms[i] > SLOW_LATENCY_MS,
    ensures
        adjusted_rate_over(current, latencies_ms) == RATE_FLOOR || adjusted_rate_over(
            current,
            latencies_ms,
        ) * pow10(latencies_ms.len()) <= current * pow9(latencies_ms.len()),
    decreases latencies_ms.len(),
{
    if latencies_ms.len() > 0 {
        let head = latencies_ms.drop_last();
        assert forall|i: int| 0 <= i < head.len() implies #[trigger] head[i] > SLOW_LATENCY_MS by {
            assert(head[i] == latencies_ms[i]);
        }
        lemma_slow_run_decays(current, head);
        let before = adjusted_rate_over(current, head);
        let after = adjusted_rate(before, latencies_ms.last());
        assert(latencies_ms.last() == latencies_ms[latencies_ms.len() - 1]);
        assert(after == adjusted_rate_over(current, latencies_ms));
        let k = head.len();
        if after != RATE_FLOOR {
            assert(after * 10 <= before * 9);
            assert(before != RATE_FLOOR) by {
                if before == RATE_FLOOR {
                    assert(after == RATE_FLOOR);
                }
            }
            assert(before * pow10(k) <= current * pow9(k));
            assert(after * pow10(k + 1) <= current * pow9(k + 1)) by (nonlinear_arith)
                requires
                    after * 10 <= before * 9,
                    before * pow10(k) <= current * pow9(k),
                    pow10(k + 1) == 10 * pow10(k),
                    pow9(k + 1) == 9 * pow9(k),
                    pow10(k) >= 0,
            ;
        }
    }
}

/// What a token bucket answers to a request for one token.
#[derive(Clone, Copy, Debug, PartialEq, Eq, Structural)]
pub enum Permit {
    /// A token was taken: the request may go out now.
    Granted,
    /// No token yet: ask again after this many microseconds.
    RetryAfter(u64),
    /// The bucket never refills: the request is rejected.
    Never,
}

/// A token bucket as mathematics. The level is in millionths of a token.
pub struct BucketView {
    pub capacity: nat,
    pub rate: nat,
    pub level: nat,
    pub last_refill: u64,
}

impl BucketView {
    /// The full bucket of a job that runs at `rps` requests per second: capacity and refill
    /// rate are both `rps`.
    pub open spec fn full(rps: u32, now_us: u64) -> BucketView {
        BucketView {
            capacity: rps as nat,
            rate: rps as nat,
            level: rps as nat * MICROS as nat,
            last_refill: now_us,
        }
    }

    /// The level never exceeds the capacity.
    pub open spec fn wf(self) -> bool {
        self.level <= self.capacity * MICROS
    }

    /// The bucket topped up for the time since the last refill. A clock that has not
    /// advanced adds nothing and leaves the time of the last refill alone.
    pub open spec fn refilled(self, now_us: u64) -> BucketView {
        if now_us > self.last_refill {
            let topped = self.level + (now_us - self.last_refill) * self.rate;
            let cap: nat = self.capacity * MICROS as nat;
            BucketView {
                level: if topped > cap {
                    cap
                } else {
                    topped as nat
                },
                last_refill: now_us,
                ..self
            }
        } else {
            self
        }
    }

    /// Microseconds until a bucket at this level, with a positive rate, holds a whole token:
    /// the missing millionths divided by the rate, rounded up.
    pub open spec fn wait_us(self) -> nat
        recommends
            self.rate > 0,
            self.level < MICROS,
    {
        ((MICROS - self.level + self.rate - 1) / (self.rate as int)) as nat
    }

    /// The answer to a request for one token at `now_us`.
    pub open spec fn permit(self, now_us: u64) -> Permit {
        let r = self.refilled(now_us);
        if r.level >= MICROS {
            Permit::Granted
        } else if r.rate == 0 {
            Permit::Never
        } else {
            Permit::RetryAfter(r.wait_us() as u64)
        }
    }

    /// The bucket after a request for one token at `now_us`: refilled, and one token lower
    /// where one was granted.
    pub open spec fn after_acquire(self, now_us: u64) -> BucketView {
        let r = self.refilled(now_us);
        if r.level >= MICROS {
            BucketView { level: (r.level - MICROS) as nat, ..r }
        } else {
            r
        }
    }

    /// The bucket after requests at the given times, oldest first.
    pub open spec fn after_acquires(self, times_us: Seq<u64>) -> BucketView
        decreases times_us.len(),
    {
        if times_us.len() == 0 {
            self
        } else {
            self.after_acquires(times_us.drop_last()).after_acquire(times_us.last())
        }
    }

    /// How many of the requests at the given times were granted.
    pub open spec fn granted(self, times_us: Seq<u64>) -> nat
        decreases times_us.len(),
    {
        if times_us.len() == 0 {
            0
        } else {
            let before = self.after_acquires(times_us.drop_last());
            let this: nat = if before.permit(times_us.last()) == Permit::Granted {
                1
            } else {
                0
            };
            self.granted(times_us.drop_last()) + this
        }
    }
}

/// Times that never go back.
pub open spec fn non_decreasing(times_us: Seq<u64>) -> bool {
    forall|i: int, j: int| 0 <= i <= j < times_us.len() ==> times_us[i] <= times_us[j]
}

/// The token bucket of one job.
#[derive(Clone, Copy, Debug)]
pub struct TokenBucketRateLimiter {
    capacity: u32,
    refill_rate: u32,
    level_micro: u64,
    last_refill_us: u64,
}

impl View for TokenBucketRateLimiter {
    type V = BucketView;

    closed spec fn view(&self) -> BucketView {
        BucketView {
            capacity: self.capacity as nat,
            rate: self.refill_rate as nat,
            level: self.level_micro as nat,
            last_refill: self.last_refill_us,
        }
    }
}

impl TokenBucketRateLimiter {
    #[verifier::type_invariant]
    spec fn well_formed(self) -> bool {
        self@.wf()
    }

    /// A full bucket for `rps` requests per second, made at `now_us`. A rate of 0 gives a
    /// bucket that rejects every request.
    pub fn new(rps: u32, now_us: u64) -> (b: TokenBucketRateLimiter)
        ensures
            b@ == BucketView::full(rps, now_us),
            b@.wf(),
    {
        TokenBucketRateLimiter {
            capacity: rps,
            refill_rate: rps,
            level_micro: rps as u64 * MICROS,
            last_refill_us: now_us,
        }
    }

    /// A full bucket for a rate given as a signed number: a negative rate counts as 1, one
    /// beyond `u32` as the largest `u32`.
    pub fn new_clamped(rps: i64, now_us: u64) -> (b: TokenBucketRateLimiter)
        ensures
            b@ == BucketView::full(clamped_rps(rps), now_us),
            b@.wf(),
    {
        let clamped: u32 = if rps < 0 {
            1
        } else if rps > u32::MAX as i64 {
            u32::MAX
        } else {
            rps as u32
        };
        Self::new(clamped, now_us)
    }

    /// The most tokens the bucket holds.
    pub fn capacity(&self) -> (c: u32)
        ensures
            c == self@.capacity,
    {
        self.capacity
    }

    /// Tokens added per second.
    pub fn refill_rate(&self) -> (r: u32)
        ensures
            r == self@.rate,
    {
        self.refill_rate
    }

    /// The level as of the last refill, in millionths of a token.
    pub fn level_micro(&self) -> (l: u64)
        ensures
            l == self@.level,
            self@.wf(),
    {
        proof {
            use_type_invariant(self);
        }
        self.level_micro
    }

    /// Asks for one token at `now_us`. The bucket is refilled for the time that has passed;
    /// where it then holds a whole token, one is taken.
    pub fn acquire(&mut self, now_us: u64) -> (permit: Permit)
        ensures
            permit == old(self)@.permit(now_us),
            final(self)@ == old(self)@.after_acquire(now_us),
            final(self)@.wf(),
    {
        proof {
            use_type_invariant(&*self);
        }
        let cap: u64 = self.capacity as u64 * MICROS;
        let mut level: u64 = self.level_micro;
        let mut last: u64 = self.last_refill_us;
        if now_us > last {
            let elapsed: u64 = now_us - last;
            let rate: u32 = self.refill_rate;
            assert(elapsed * rate <= 0xffff_ffff_ffff_ffff * 0xffff_ffff) by (nonlinear_arith)
                requires
                    elapsed <= 0xffff_ffff_ffff_ffff,
                    rate <= 0xffff_ffff,
            ;
            let added: u128 = elapsed as u128 * rate as u128;
            let topped: u128 = level as u128 + added;
            level = if topped > cap as u128 {
                cap
            } else {
                topped as u64
            };
            last = now_us;
        }
        if level >= MICROS {
            *self = TokenBucketRateLimiter {
                capacity: self.capacity,
                refill_rate: self.refill_rate,
                level_micro: level - MICROS,
                last_refill_us: last,
            };
            Permit::Granted
        } else {
            *self = TokenBucketRateLimiter {
                capacity: self.capacity,
                refill_rate: self.refill_rate,
                level_micro: level,
                last_refill_us: last,
            };
            if self.refill_rate == 0 {
                Permit::Never
            } else {
                let rate: u64 = self.refill_rate as u64;
                Permit::RetryAfter((MICROS - level + rate - 1) / rate)
            }
        }
    }
}

/// A signed rate as a bucket takes it: negative counts as 1, too large as the largest `u32`.
pub open spec fn clamped_rps(rps: i64) -> u32 {
    if rps < 0 {
        1
    } else if rps > u32::MAX {
        u32::MAX
    } else {
        rps as u32
    }
}

/// Refilling keeps a bucket well-formed, keeps its capacity and rate, never moves the time of
/// the last refill back, and adds at most what the rate yields from `since_us` on, for any
/// `since_us` not after the last refill.
pub proof fn lemma_refill_bounded(b: BucketView, since_us: u64, now_us: u64)
    requires
        b.wf(),
        since_us <= b.last_refill,
        since_us <= now_us,
    ensures
        b.refilled(now_us).wf(),
        b.refilled(now_us).capacity == b.capacity,
        b.refilled(now_us).rate == b.rate,
        b.refilled(now_us).last_refill >= now_us,
        b.refilled(now_us).last_refill >= b.last_refill,
        b.refilled(now_us).level <= b.level + b.rate * (now_us - since_us),
{
    if now_us > b.last_refill {
        let gap = now_us - b.last_refill;
        let span = now_us - since_us;
        let rate = b.rate;
        assert(gap * rate <= rate * span) by (nonlinear_arith)
            requires
                0 <= gap <= span,
                rate >= 0,
        ;
    } else {
        let span = now_us - since_us;
        let rate = b.rate;
        assert(0 <= rate * span) by (nonlinear_arith)
            requires
                0 <= span,
                rate >= 0,
        ;
    }
}

/// Refilling adds at most what the rate yields in the time by which it moves the time of
/// the last refill on, which is never back; and it keeps the bucket well-formed.
pub proof fn lemma_refill_adds(b: BucketView, now_us: u64)
    requires
        b.wf(),
    ensures
        b.refilled(now_us).wf(),
        b.refilled(now_us).capacity == b.capacity,
        b.refilled(now_us).rate == b.rate,
        b.refilled(now_us).last_refill == (if now_us > b.last_refill {
            now_us
        } else {
            b.last_refill
        }),
        b.refilled(now_us).level <= b.level + b.rate * (b.refilled(now_us).last_refill
            - b.last_refill),
{
    let rate = b.rate;
    if now_us <= b.last_refill {
        assert(rate * 0 == 0) by (nonlinear_arith);
    } else {
        let gap = now_us - b.last_refill;
        assert(gap * rate == rate * gap) by (nonlinear_arith);
    }
}

/// Whether every one of the times lies within `span_us` microseconds of every other. The
/// times need not be in order.
pub open spec fn within_span(times_us: Seq<u64>, span_us: nat) -> bool {
    forall|i: int, j: int|
        0 <= i < times_us.len() && 0 <= j < times_us.len() ==> times_us[i] - times_us[j]
            <= span_us
}

/// In whatever order the requests come, what was granted of them, together with what is
/// left in the bucket, is at most the capacity plus what the rate adds in the time by which
/// the requests moved the bucket's clock on after the first of them, and that time is
/// within any span that holds all the requests. A request whose clock reads earlier than
/// one before it adds nothing, since the bucket counts time forward only.
pub proof fn lemma_admission_bound(b: BucketView, times_us: Seq<u64>, span_us: nat)
    requires
        b.wf(),
        times_us.len() > 0,
        within_span(times_us, span_us),
    ensures
        b.granted(times_us) * MICROS + b.after_acquires(times_us).level <= b.capacity * MICROS
            + b.rate * (b.after_acquires(times_us).last_refill - b.refilled(
            times_us[0],
        ).last_refill),
        0 <= b.after_acquires(times_us).last_refill - b.refilled(times_us[0]).last_refill
            <= span_us,
        b.granted(times_us) * MICROS + b.after_acquires(times_us).level <= b.capacity * MICROS
            + b.rate * span_us,
        b.after_acquires(times_us).wf(),
        b.after_acquires(times_us).capacity == b.capacity,
        b.after_acquires(times_us).rate == b.rate,
    decreases times_us.len(),
{
    let head = times_us.drop_last();
    let now = times_us.last();
    let before = b.after_acquires(head);
    let first = b.refilled(times_us[0]).last_refill;
    let rate = b.rate as int;
    assert(b.after_acquires(times_us) == before.after_acquire(now));
    assert(times_us[0] - times_us[0] <= span_us);
    if head.len() == 0 {
        assert(before == b);
        assert(b.granted(head) == 0);
        assert(now == times_us[0]);
        lemma_refill_adds(b, now);
        assert(rate * 0 == 0) by (nonlinear_arith);
    } else {
        assert(within_span(head, span_us)) by {
            assert forall|i: int, j: int|
                0 <= i < head.len() && 0 <= j < head.len() implies head[i] - head[j]
                <= span_us by {
                assert(head[i] == times_us[i] && head[j] == times_us[j]);
            }
        }
        assert(head[0] == times_us[0]);
        lemma_admission_bound(b, head, span_us);
        lemma_refill_adds(b, times_us[0]);
        lemma_refill_adds(before, now);
        let at = before.last_refill;
        let moved = before.refilled(now).last_refill;
        assert(now == times_us[times_us.len() - 1]);
        assert(now - times_us[0] <= span_us);
        assert(rate * (at - first) + rate * (moved - at) == rate * (moved - first))
            by (nonlinear_arith);
    }
    let moved = b.after_acquires(times_us).last_refill - first;
    assert(rate * moved <= rate * span_us) by (nonlinear_arith)
        requires
            0 <= moved <= span_us,
            rate >= 0,
    ;
}

/// The token bucket admits at most `C + R * T` requests in any window of `T` seconds.
///
/// `b` is the bucket as the window begins, in whatever state earlier requests left it, and
/// `times_us` are the requests that fall into the window, all within `window_us`
/// microseconds of one another and in any order. The bound is stated in millionths:
/// `granted * 10^6 <= C * 10^6 + R * T_us`.
pub proof fn lemma_window_admits_at_most(b: BucketView, times_us: Seq<u64>, window_us: nat)
    requires
        b.wf(),
        within_span(times_us, window_us),
    ensures
        b.granted(times_us) * MICROS <= b.capacity * MICROS + b.rate * window_us,
{
    let rate = b.rate;
    if times_us.len() > 0 {
        lemma_admission_bound(b, times_us, window_us);
    } else {
        assert(0 <= rate * window_us) by (nonlinear_arith)
            requires
                rate >= 0,
                window_us >= 0,
        ;
    }
}

/// Whatever requests a bucket has answered, in whatever order, it is well-formed and has
/// the capacity and rate it began with.
pub proof fn lemma_acquires_keep_wf(b: BucketView, times_us: Seq<u64>)
    requires
        b.wf(),
    ensures
        b.after_acquires(times_us).wf(),
        b.after_acquires(times_us).capacity == b.capacity,
        b.after_acquires(times_us).rate == b.rate,
    decreases times_us.len(),
{
    if times_us.len() > 0 {
        lemma_acquires_keep_wf(b, times_us.drop_last());
        lemma_refill_adds(b.after_acquires(times_us.drop_last()), times_us.last());
    }
}

/// The requests granted over a run are those granted before any point of it plus those
/// granted after, counted from the state the first part left.
pub proof fn lemma_granted_splits(b: BucketView, earlier_us: Seq<u64>, later_us: Seq<u64>)
    ensures
        b.after_acquires(earlier_us + later_us) == b.after_acquires(earlier_us).after_acquires(
            later_us,
        ),
        b.granted(earlier_us + later_us) == b.granted(earlier_us) + b.after_acquires(
            earlier_us,
        ).granted(later_us),
    decreases later_us.len(),
{
    if later_us.len() == 0 {
        assert(earlier_us + later_us =~= earlier_us);
    } else {
        lemma_granted_splits(b, earlier_us, later_us.drop_last());
        assert((earlier_us + later_us).drop_last() =~= earlier_us + later_us.drop_last());
        assert((earlier_us + later_us).last() == later_us.last());
    }
}

/// In a run that begins with a full bucket, take any stretch of requests that lie within
/// `window_us` microseconds of one another, whatever was asked before it and in whatever
/// order: no more of them are granted than the capacity plus what the rate adds in that
/// time.
pub proof fn lemma_any_window_of_a_run(
    rps: u32,
    start_us: u64,
    earlier_us: Seq<u64>,
    window_times_us: Seq<u64>,
    window_us: nat,
)
    requires
        within_span(window_times_us, window_us),
    ensures
        BucketView::full(rps, start_us).after_acquires(earlier_us).granted(window_times_us)
            * MICROS <= rps * MICROS + rps * window_us,
        BucketView::full(rps, start_us).granted(earlier_us + window_times_us) == BucketView::full(
            rps,
            start_us,
        ).granted(earlier_us) + BucketView::full(rps, start_us).after_acquires(
            earlier_us,
        ).granted(window_times_us),
{
    let full = BucketView::full(rps, start_us);
    lemma_acquires_keep_wf(full, earlier_us);
    let before = full.after_acquires(earlier_us);
    lemma_window_admits_at_most(before, window_times_us, window_us);
    lemma_granted_splits(full, earlier_us, window_times_us);
}

/// A caller that is told to retry after some time and does so, with nobody else asking in
/// between, is granted its token.
pub proof fn lemma_wait_suffices(b: BucketView, now_us: u64, wait_us: u64)
    requires
        b.wf(),
        b.capacity >= 1,
        b.last_refill <= now_us,
        b.permit(now_us) == Permit::RetryAfter(wait_us),
        now_us + wait_us <= u64::MAX,
    ensures
        wait_us >= 1,
        wait_us <= MICROS,
        b.after_acquire(now_us).permit((now_us + wait_us) as u64) == Permit::Granted,
{
    let r = b.refilled(now_us);
    lemma_refill_bounded(b, b.last_refill, now_us);
    assert(b.after_acquire(now_us) == r);
    assert(r.last_refill == now_us);
    let missing = MICROS - r.level;
    let rate = r.rate as int;
    let w = (missing + rate - 1) / rate;
    assert(w == r.wait_us());
    assert(w * rate >= missing && w >= 1 && w <= missing) by (nonlinear_arith)
        requires
            w == (missing + rate - 1) / rate,
            rate >= 1,
            missing >= 1,
    ;
    assert(wait_us == w);
    let later = (now_us + wait_us) as u64;
    assert(later - now_us == w);
    assert((later - r.last_refill) * r.rate == w * rate);
    let cap = r.capacity * MICROS;
    assert(cap >= MICROS) by (nonlinear_arith)
        requires
            r.capacity >= 1,
            cap == r.capacity * MICROS,
    ;
}

/// Over a run of `duration_s` seconds that begins with a full bucket, no more requests are
/// granted than the capacity plus the rate times the duration, however they fall and in
/// whatever order their clocks read; and that is within a tenth of the rate times the
/// duration, plus the capacity.
pub proof fn lemma_run_total_at_most(rps: u32, start_us: u64, duration_s: u32, times_us: Seq<u64>)
    requires
        forall|i: int|
            0 <= i < times_us.len() ==> start_us <= #[trigger] times_us[i] <= start_us + duration_s
                * MICROS,
    ensures
        BucketView::full(rps, start_us).granted(times_us) <= rps + rps * duration_s,
        10 * BucketView::full(rps, start_us).granted(times_us) <= 11 * (rps * duration_s) + 10
            * rps,
{
    let b = BucketView::full(rps, start_us);
    let window: nat = (duration_s * MICROS) as nat;
    assert(within_span(times_us, window)) by {
        assert forall|i: int, j: int|
            0 <= i < times_us.len() && 0 <= j < times_us.len() implies times_us[i] - times_us[j]
            <= window by {
            assert(start_us <= times_us[i] <= start_us + duration_s * MICROS);
            assert(start_us <= times_us[j] <= start_us + duration_s * MICROS);
        }
    }
    lemma_window_admits_at_most(b, times_us, window);
    let g = b.granted(times_us) as int;
    let r = rps as int;
    let d = duration_s as int;
    assert(r * (d * 1_000_000) == (r * d) * 1_000_000) by (nonlinear_arith);
    assert(g * 1_000_000 <= (r + r * d) * 1_000_000);
    assert(r * d >= 0) by (nonlinear_arith)
        requires
            r >= 0,
            d >= 0,
    ;
}

/// The requests granted to a caller that is never held up by anything but the bucket: from
/// `now_us` until `deadline_us` it asks again at once whenever it is granted, and after
/// exactly the time it is told to wait otherwise.
pub open spec fn eager_grants(b: BucketView, now_us: u64, deadline_us: u64) -> nat
    decreases deadline_us - now_us, b.refilled(now_us).level,
{
    if now_us >= deadline_us {
        0
    } else {
        match b.permit(now_us) {
            Permit::Granted => 1 + eager_grants(b.after_acquire(now_us), now_us, deadline_us),
            Permit::RetryAfter(wait_us) => if wait_us == 0 || now_us + wait_us >= deadline_us {
                0
            } else {
                eager_grants(b.after_acquire(now_us), (now_us + wait_us) as u64, deadline_us)
            },
            Permit::Never => 0,
        }
    }
}

/// An eager caller wastes nothing: from a bucket whose capacity is its rate and that was
/// last refilled now, it is granted what the bucket holds and gains until the deadline, to
/// within the one token that may be under way when the deadline falls.
pub proof fn lemma_eager_wastes_nothing(b: BucketView, now_us: u64, deadline_us: u64)
    requires
        b.wf(),
        b.rate >= 1,
        b.capacity == b.rate,
        b.last_refill == now_us,
        now_us < deadline_us,
        deadline_us + MICROS <= u64::MAX,
    ensures
        eager_grants(b, now_us, deadline_us) * MICROS <= b.level + b.rate * (deadline_us - now_us),
        eager_grants(b, now_us, deadline_us) * MICROS + MICROS + b.rate > b.level + b.rate * (
        deadline_us - now_us),
    decreases deadline_us - now_us, b.level,
{
    let rate = b.rate as int;
    let level = b.level as int;
    let span = deadline_us - now_us;
    assert(b.refilled(now_us) == b);
    if b.level >= MICROS {
        let after = b.after_acquire(now_us);
        assert(after.level == b.level - MICROS);
        assert(after.refilled(now_us) == after);
        lemma_eager_wastes_nothing(after, now_us, deadline_us);
    } else {
        let missing = MICROS - level;
        let w = (missing + rate - 1) / rate;
        assert(w == b.wait_us());
        assert(w * rate >= missing && w * rate < missing + rate && 1 <= w <= missing)
            by (nonlinear_arith)
            requires
                w == (missing + rate - 1) / rate,
                rate >= 1,
                missing >= 1,
        ;
        assert(b.permit(now_us) == Permit::RetryAfter(w as u64));
        assert(b.after_acquire(now_us) == b);
        let later = (now_us + w) as u64;
        if later >= deadline_us {
            assert(eager_grants(b, now_us, deadline_us) == 0);
            assert(rate * span <= rate * w) by (nonlinear_arith)
                requires
                    0 <= span <= w,
                    rate >= 0,
            ;
        } else {
            assert(eager_grants(b, now_us, deadline_us) == eager_grants(b, later, deadline_us));
            let cap = b.capacity * MICROS;
            assert(level + w * rate <= cap) by (nonlinear_arith)
                requires
                    cap == rate * 1_000_000,
                    level + w * rate < 1_000_000 + rate,
                    level + w * rate >= 1_000_000,
                    rate >= 1,
                    w * rate >= 1_000_000 - level,
                    w <= 1_000_000 - level,
                    level >= 0,
            ;
            let topped = b.refilled(later);
            assert((later - b.last_refill) * b.rate == w * rate);
            assert(topped.level == level + w * rate);
            assert(topped.last_refill == later);
            assert(topped.refilled(later) == topped);
            assert(topped.permit(later) == b.permit(later));
            assert(topped.after_acquire(later) == b.after_acquire(later));
            assert(eager_grants(b, later, deadline_us) == eager_grants(topped, later, deadline_us));
            lemma_eager_wastes_nothing(topped, later, deadline_us);
            let rest = deadline_us - later;
            assert(rate * span == rate * w + rate * rest) by (nonlinear_arith)
                requires
                    span == w + rest,
            ;
        }
    }
}

/// With nothing but the bucket to hold it up, a job of `duration_s` seconds at `rps`
/// requests per second issues at least the rate times the duration and at most that plus the
/// capacity: well within a tenth of the rate times the duration, plus the capacity.
pub proof fn lemma_eager_run_total(rps: u32, start_us: u64, duration_s: u32)
    requires
        rps >= 1,
        duration_s >= 1,
        start_us + duration_s * MICROS + MICROS <= u64::MAX,
    ensures
        ({
            let total = eager_grants(
                BucketView::full(rps, start_us),
                start_us,
                (start_us + duration_s * MICROS) as u64,
            );
            &&& rps * duration_s <= total <= rps + rps * duration_s
            &&& 9 * (rps * duration_s) <= 10 * total <= 11 * (rps * duration_s) + 10 * rps
        }),
{
    let b = BucketView::full(rps, start_us);
    let deadline = (start_us + duration_s * MICROS) as u64;
    lemma_eager_wastes_nothing(b, start_us, deadline);
    let g = eager_grants(b, start_us, deadline) as int;
    let r = rps as int;
    let d = duration_s as int;
    assert(r * (d * 1_000_000) == (r * d) * 1_000_000) by (nonlinear_arith);
    assert(r * d >= 1) by (nonlinear_arith)
        requires
            r >= 1,
            d >= 1,
    ;
    assert(g * 1_000_000 <= (r + r * d) * 1_000_000);
    assert(g * 1_000_000 + 1_000_000 + r > r * 1_000_000 + (r * d) * 1_000_000);
    assert(g >= r * d) by {
        if g < r * d {
            assert(g + 1 <= r * d);
            assert((g + 1) * 1_000_000 <= (r * d) * 1_000_000);
        }
    }
}

/// The limiter that admits at most a fixed number of requests in any stretch of its window.
pub struct SlidingWindowRateLimiter {
    window_us: u64,
    max_requests: u64,
    requests: VecDeque<u64>,
}

/// A sliding window as mathematics: its length, its limit, and the times of the requests it
/// still remembers, oldest first.
pub struct SlidingWindowView {
    pub window_us: u64,
    pub max_requests: u64,
    pub stamps: Seq<u64>,
}

impl SlidingWindowView {
    /// Whether a request admitted at `stamp` has left the window by `now_us`. A stamp from
    /// the future has not.
    pub open spec fn expired(self, stamp: u64, now_us: u64) -> bool {
        now_us >= stamp && now_us - stamp >= self.window_us
    }

    /// The remembered times with the expired ones at the front dropped.
    pub open spec fn live(self, now_us: u64) -> Seq<u64>
        decreases self.stamps.len(),
    {
        if self.stamps.len() > 0 && self.expired(self.stamps[0], now_us) {
            (SlidingWindowView { stamps: self.stamps.drop_first(), ..self }).live(now_us)
        } else {
            self.stamps
        }
    }

    /// Whether a request at `now_us` is admitted: fewer than the limit are still live.
    pub open spec fn admits(self, now_us: u64) -> bool {
        self.live(now_us).len() < self.max_requests
    }

    /// The window after a request at `now_us`.
    pub open spec fn after_acquire(self, now_us: u64) -> SlidingWindowView {
        SlidingWindowView {
            stamps: if self.admits(now_us) {
                self.live(now_us).push(now_us)
            } else {
                self.live(now_us)
            },
            ..self
        }
    }

    /// The window never remembers more requests than its limit.
    pub open spec fn wf(self) -> bool {
        self.stamps.len() <= self.max_requests
    }
}

impl SlidingWindowView {
    /// The window after requests at the given times, oldest first.
    pub open spec fn after_acquires(self, times_us: Seq<u64>) -> SlidingWindowView
        decreases times_us.len(),
    {
        if times_us.len() == 0 {
            self
        } else {
            self.after_acquires(times_us.drop_last()).after_acquire(times_us.last())
        }
    }

    /// The times of the requests that were let through, of those at the given times, oldest
    /// first.
    pub open spec fn let_through(self, times_us: Seq<u64>) -> Seq<u64>
        decreases times_us.len(),
    {
        if times_us.len() == 0 {
            Seq::empty()
        } else {
            let earlier = self.let_through(times_us.drop_last());
            if self.after_acquires(times_us.drop_last()).admits(times_us.last()) {
                earlier.push(times_us.last())
            } else {
                earlier
            }
        }
    }
}

/// Dropping expired times only shortens what is remembered, and what is left is a tail of it.
pub proof fn lemma_live_is_tail(w: SlidingWindowView, now_us: u64)
    ensures
        w.live(now_us).len() <= w.stamps.len(),
        w.live(now_us) == w.stamps.subrange(
            w.stamps.len() - w.live(now_us).len(),
            w.stamps.len() as int,
        ),
        w.live(now_us).len() > 0 ==> !w.expired(w.live(now_us)[0], now_us),
        forall|i: int|
            0 <= i < w.stamps.len() - w.live(now_us).len() ==> w.expired(
                #[trigger] w.stamps[i],
                now_us,
            ),
    decreases w.stamps.len(),
{
    if w.stamps.len() > 0 && w.expired(w.stamps[0], now_us) {
        let rest = SlidingWindowView { stamps: w.stamps.drop_first(), ..w };
        lemma_live_is_tail(rest, now_us);
        let n = w.live(now_us).len();
        assert(rest.stamps.subrange(rest.stamps.len() - n, rest.stamps.len() as int)
            =~= w.stamps.subrange(w.stamps.len() - n, w.stamps.len() as int));
        assert forall|i: int| 0 <= i < w.stamps.len() - n implies w.expired(
            #[trigger] w.stamps[i],
            now_us,
        ) by {
            if i > 0 {
                assert(w.stamps[i] == rest.stamps[i - 1]);
            }
        }
    } else {
        assert(w.stamps.subrange(0, w.stamps.len() as int) =~= w.stamps);
    }
}

/// What holds between a sliding window and the requests it has let through, for a clock
/// that never goes back: it remembers the latest of them, at most as many as its limit, and
/// every one it has forgotten left the window by the time of the last request.
pub open spec fn remembers_latest(w: SlidingWindowView, passed: Seq<u64>, last_us: u64) -> bool {
    &&& w.stamps.len() <= w.max_requests
    &&& w.stamps.len() <= passed.len()
    &&& w.stamps == passed.subrange(passed.len() - w.stamps.len(), passed.len() as int)
    &&& forall|i: int|
        0 <= i < passed.len() - w.stamps.len() ==> last_us - (#[trigger] passed[i])
            >= w.window_us
    &&& forall|i: int| 0 <= i < passed.len() ==> (#[trigger] passed[i]) <= last_us
}

/// A window that begins empty remembers, after any run of requests on a clock that never
/// goes back, the latest of the requests it let through.
pub proof fn lemma_window_remembers_latest(w: SlidingWindowView, times_us: Seq<u64>)
    requires
        w.stamps.len() == 0,
        non_decreasing(times_us),
        times_us.len() > 0,
    ensures
        remembers_latest(w.after_acquires(times_us), w.let_through(times_us), times_us.last()),
        w.after_acquires(times_us).window_us == w.window_us,
        w.after_acquires(times_us).max_requests == w.max_requests,
    decreases times_us.len(),
{
    let head = times_us.drop_last();
    let now = times_us.last();
    let before = w.after_acquires(head);
    let passed = w.let_through(head);
    if head.len() == 0 {
        assert(before == w);
        assert(passed.len() == 0);
        assert(before.stamps =~= passed.subrange(0, 0));
    } else {
        assert(non_decreasing(head)) by {
            assert forall|i: int, j: int| 0 <= i <= j < head.len() implies head[i] <= head[j] by {
                assert(head[i] == times_us[i] && head[j] == times_us[j]);
            }
        }
        lemma_window_remembers_latest(w, head);
        assert(head.last() == times_us[times_us.len() - 2]);
    }
    let prev: u64 = if head.len() == 0 {
        now
    } else {
        head.last()
    };
    assert(prev <= now);
    assert(remembers_latest(before, passed, prev));
    lemma_live_is_tail(before, now);
    let live = before.live(now);
    let kept = live.len();
    let held = before.stamps.len();
    let gone = passed.len() - held;
    assert(live =~= passed.subrange(passed.len() - kept, passed.len() as int)) by {
        assert forall|i: int| 0 <= i < kept implies live[i] == passed[passed.len() - kept + i] by {
            assert(live[i] == before.stamps[held - kept + i]);
            assert(before.stamps[held - kept + i] == passed[gone + (held - kept + i)]);
        }
    }
    assert forall|i: int| 0 <= i < passed.len() - kept implies now - (#[trigger] passed[i])
        >= before.window_us by {
        if i < gone {
            assert(prev - passed[i] >= before.window_us);
        } else {
            assert(passed[i] == before.stamps[i - gone]);
            assert(before.expired(before.stamps[i - gone], now));
        }
    }
    let after = w.after_acquires(times_us);
    let through = w.let_through(times_us);
    assert(after == before.after_acquire(now));
    if before.admits(now) {
        assert(through == passed.push(now));
        assert(after.stamps == live.push(now));
        assert(after.stamps =~= through.subrange(
            through.len() - after.stamps.len(),
            through.len() as int,
        )) by {
            assert forall|i: int| 0 <= i < after.stamps.len() implies after.stamps[i]
                == through[through.len() - after.stamps.len() + i] by {
                if i < kept {
                    let at = passed.len() - kept + i;
                    assert(after.stamps[i] == live[i]);
                    assert(through[through.len() - after.stamps.len() + i] == passed[at]);
                }
            }
        }
        let forgotten = through.len() - after.stamps.len();
        assert forall|i: int| 0 <= i < forgotten implies now - (#[trigger] through[i])
            >= after.window_us by {
            assert(through[i] == passed[i]);
        }
        assert forall|i: int| 0 <= i < through.len() implies (#[trigger] through[i]) <= now by {
            if i < passed.len() {
                assert(through[i] == passed[i]);
            }
        }
    } else {
        assert(through == passed);
        assert(after.stamps == live);
    }
}

/// The sliding window holds its promise on any clock that never goes back: of the requests
/// it lets through, any that come more than the limit apart are at least a window apart, so
/// no stretch shorter than the window holds more of them than the limit.
pub proof fn lemma_window_holds_its_limit(w: SlidingWindowView, times_us: Seq<u64>)
    requires
        w.stamps.len() == 0,
        non_decreasing(times_us),
    ensures
        forall|k: int|
            w.max_requests <= k < w.let_through(times_us).len() ==> (#[trigger] w.let_through(
                times_us,
            )[k]) - w.let_through(times_us)[k - w.max_requests] >= w.window_us,
    decreases times_us.len(),
{
    if times_us.len() > 0 {
        let head = times_us.drop_last();
        let now = times_us.last();
        assert(non_decreasing(head)) by {
            assert forall|i: int, j: int| 0 <= i <= j < head.len() implies head[i] <= head[j] by {
                assert(head[i] == times_us[i] && head[j] == times_us[j]);
            }
        }
        lemma_window_holds_its_limit(w, head);
        lemma_window_remembers_latest(w, times_us);
        let passed = w.let_through(head);
        let through = w.let_through(times_us);
        let after = w.after_acquires(times_us);
        assert forall|k: int| w.max_requests <= k < through.len() implies (#[trigger] through[k])
            - through[k - w.max_requests] >= w.window_us by {
            if k < passed.len() {
                assert(through[k] == passed[k]);
                assert(through[k - w.max_requests] == passed[k - w.max_requests]);
            } else {
                assert(through == passed.push(now));
                assert(through[k] == now);
                assert(after.stamps.len() <= w.max_requests);
                assert(after.stamps.len() >= 1) by {
                    assert(after == w.after_acquires(head).after_acquire(now));
                }
                let far = k - w.max_requests;
                assert(far < through.len() - after.stamps.len());
                assert(now - through[far] >= after.window_us);
            }
        }
    }
}

impl View for SlidingWindowRateLimiter {
    type V = SlidingWindowView;

    closed spec fn view(&self) -> SlidingWindowView {
        SlidingWindowView {
            window_us: self.window_us,
            max_requests: self.max_requests,
            stamps: self.requests@,
        }
    }
}

impl SlidingWindowRateLimiter {
    #[verifier::type_invariant]
    spec fn well_formed(self) -> bool {
        self@.wf()
    }

    /// A limiter that admits `rps * window_seconds` requests in any `window_seconds`. Where
    /// a product does not fit a `u64` the largest `u64` stands for it.
    pub fn new(rps: u32, window_seconds: u64) -> (l: SlidingWindowRateLimiter)
        ensures
            l@.stamps == Seq::<u64>::empty(),
            l@.window_us == saturating_product(window_seconds, MICROS),
            l@.max_requests == saturating_product(rps as u64, window_seconds),
            l@.wf(),
    {
        SlidingWindowRateLimiter {
            window_us: saturating_mul(window_seconds, MICROS),
            max_requests: saturating_mul(rps as u64, window_seconds),
            requests: VecDeque::new(),
        }
    }

    /// Asks for one request to be let through at `now_us`: forgets the requests that have left the
    /// window, then admits this one if fewer than the limit remain.
    pub fn acquire(&mut self, now_us: u64) -> (admitted: bool)
        ensures
            admitted == old(self)@.admits(now_us),
            final(self)@ == old(self)@.after_acquire(now_us),
            final(self)@.wf(),
    {
        proof {
            use_type_invariant(&*self);
        }
        let ghost start = self@;
        let window_us = self.window_us;
        let max_requests = self.max_requests;
        let mut live: VecDeque<u64> = VecDeque::new();
        std::mem::swap(&mut live, &mut self.requests);
        let mut settled = false;
        while !settled
            invariant
                (SlidingWindowView { stamps: live@, ..start }).live(now_us) == start.live(now_us),
                settled ==> live@ == start.live(now_us),
                live@.len() <= start.stamps.len(),
                start.window_us == window_us,
            decreases
                    live@.len() + (if settled {
                        0int
                    } else {
                        1int
                    }),
        {
            if live.len() == 0 {
                settled = true;
            } else {
                let oldest: u64 = live[0];
                if now_us >= oldest && now_us - oldest >= window_us {
                    live.pop_front();
                } else {
                    settled = true;
                }
            }
        }
        let admitted = (live.len() as u64) < max_requests;
        if admitted {
            live.push_back(now_us);
        }
        self.requests = live;
        admitted
    }

    /// Requests the limiter still remembers.
    pub fn remembered(&self) -> (n: usize)
        ensures
            n == self@.stamps.len(),
            self@.wf(),
    {
        proof {
            use_type_invariant(self);
        }
        self.requests.len()
    }
}

} // verus!
