//! A whole job as mathematics: any number of fibers that share one limiter, one breaker and
//! one window, stepped in any order, with a reporter that clears the window in between.
//!
//! The laws here hold of every such run: however the steps of the fibers interleave, and
//! whatever their clocks read.

use crate::circuit_breaker::{BreakerView, State};
use crate::engine::{
    admission, elapsed_us, recording_of, FiberAction, FiberEvent, FiberPhase, FiberView, Shared,
};
use crate::http_client::kind_is_success;
use crate::metrics::{Recording, WindowModel, MAX_WINDOW_COUNT};
use crate::models::OutcomeKind;
use crate::rate_limiter::{lemma_refill_adds, Permit, MICROS};
use vstd::prelude::*;

verus! {

/// Whether a fiber is in the middle of a request: an attempt is in flight, or it waits to
/// try again.
pub open spec fn busy(f: FiberView) -> bool {
    f.phase == FiberPhase::InFlight || f.phase == FiberPhase::BackingOff
}

/// Whether a fiber has been told of a shutdown: it is done, or it only waits for the answer
/// to the attempt that was in flight.
pub open spec fn stopped(f: FiberView) -> bool {
    f.phase == FiberPhase::Done || (f.phase == FiberPhase::InFlight && f.stopping)
}

/// Whether the step begins a request: the fiber was between requests and has one under way
/// after it.
pub open spec fn begins(f: FiberView, shared: Shared, event: FiberEvent) -> bool {
    !busy(f) && busy(f.step(shared, event).0)
}

/// Whether the step leaves a request behind: the fiber was in the middle of one and is not
/// after it.
pub open spec fn settles(f: FiberView, shared: Shared, event: FiberEvent) -> bool {
    busy(f) && !busy(f.step(shared, event).0)
}

/// Whether the step is one in which the breaker refuses a request that the limiter granted.
pub open spec fn refuses(f: FiberView, shared: Shared, event: FiberEvent) -> bool {
    match event {
        FiberEvent::Wake(now_us) => f.phase == FiberPhase::Ready && f.policy.max_attempts > 0
            && admission(shared.limiter, shared.breaker, now_us, f.deadline_us, f.pause_us)
            is Refused,
        _ => false,
    }
}

/// Whether the step takes a token from the bucket.
pub open spec fn takes_token(f: FiberView, shared: Shared, event: FiberEvent) -> bool {
    match event {
        FiberEvent::Wake(now_us) => f.phase == FiberPhase::Ready && f.policy.max_attempts > 0
            && now_us < f.deadline_us && shared.limiter.permit(now_us) == Permit::Granted,
        _ => false,
    }
}

/// What the step adds to the window: an error without a latency where the breaker refused,
/// the outcome of the request where one is left behind, nothing otherwise.
pub open spec fn recorded(f: FiberView, shared: Shared, event: FiberEvent) -> Option<Recording> {
    if refuses(f, shared, event) {
        Some(Recording::Error(None))
    } else if settles(f, shared, event) {
        match event {
            FiberEvent::Response(kind, _, now_us) => Some(
                recording_of(kind, elapsed_us(f.request_started_us, now_us)),
            ),
            FiberEvent::Shutdown(now_us) => Some(
                recording_of(f.last_kind, elapsed_us(f.request_started_us, now_us)),
            ),
            FiberEvent::Wake(_) => None,
        }
    } else {
        None
    }
}

/// The books of one step: a fiber begins a request exactly when it is told to send a first
/// attempt, and only with a token that the breaker let pass; every token taken is either
/// sent or refused; and the window gains exactly what the step records, which is one
/// recording where a request is left behind or refused, and nothing at any other step, a
/// retry included.
pub proof fn lemma_step_keeps_the_books(f: FiberView, shared: Shared, event: FiberEvent)
    requires
        f.wf(),
    ensures
        ({
            let (after, world, action) = f.step(shared, event);
            &&& after.wf()
            &&& begins(f, shared, event) <==> action == FiberAction::Send(1)
            &&& takes_token(f, shared, event) <==> (begins(f, shared, event) || refuses(
                f,
                shared,
                event,
            ))
            &&& !(begins(f, shared, event) && refuses(f, shared, event))
            &&& !(settles(f, shared, event) && refuses(f, shared, event))
            &&& settles(f, shared, event) || refuses(f, shared, event) <==> recorded(
                f,
                shared,
                event,
            ) is Some
            &&& world.window == (match recorded(f, shared, event) {
                Some(r) => shared.window.with(r),
                None => shared.window,
            })
            &&& takes_token(f, shared, event) ==> world.limiter == shared.limiter.after_acquire(
                event->Wake_0,
            )
            &&& !takes_token(f, shared, event) ==> world.limiter == shared.limiter || (
            event is Wake && world.limiter == shared.limiter.after_acquire(event->Wake_0)
                && shared.limiter.permit(event->Wake_0) != Permit::Granted)
            &&& stopped(f) ==> stopped(after) && !begins(f, shared, event)
            &&& event is Shutdown ==> stopped(after)
        }),
{
}

/// What happens in a job: a fiber takes an event, or the reporter takes the summary of the
/// window and clears it.
pub enum JobEvent {
    /// The fiber with this number takes this event.
    Fiber(int, FiberEvent),
    /// The reporter reports the window and clears it.
    Report,
}

impl JobEvent {
    /// The time at which a fiber wakes in this event, where it is one.
    pub open spec fn wakes_at(self) -> Option<u64> {
        match self {
            JobEvent::Fiber(_, FiberEvent::Wake(now_us)) => Some(now_us),
            _ => None,
        }
    }

    /// How the attempt ended that this event answers, where it is an answer.
    pub open spec fn answer(self) -> Option<OutcomeKind> {
        match self {
            JobEvent::Fiber(_, FiberEvent::Response(kind, _, _)) => Some(kind),
            _ => None,
        }
    }
}

/// A job as mathematics: its fibers, what they share, and what has been counted since it
/// began.
pub struct JobView {
    pub fibers: Seq<FiberView>,
    pub shared: Shared,
    /// Requests begun.
    pub issued: nat,
    /// Requests left behind, after whatever number of attempts.
    pub settled: nat,
    /// Requests that the breaker refused.
    pub refused: nat,
    /// Requests counted in the reports so far.
    pub reported: nat,
    /// Successes counted in the reports so far.
    pub reported_success: nat,
}

/// One where the condition holds, none where it does not.
pub open spec fn one_if(condition: bool) -> nat {
    if condition {
        1
    } else {
        0
    }
}

/// The fibers that are in the middle of a request.
pub open spec fn mid_request(fibers: Seq<FiberView>) -> nat
    decreases fibers.len(),
{
    if fibers.len() == 0 {
        0
    } else {
        mid_request(fibers.drop_last()) + one_if(busy(fibers.last()))
    }
}

impl JobView {
    /// A job about to start: nothing counted, nothing recorded.
    pub open spec fn begun(fibers: Seq<FiberView>, shared: Shared) -> JobView {
        JobView {
            fibers,
            shared: Shared { window: WindowModel::empty(), ..shared },
            issued: 0,
            settled: 0,
            refused: 0,
            reported: 0,
            reported_success: 0,
        }
    }

    /// Every fiber is sound and between requests.
    pub open spec fn at_rest(self) -> bool {
        forall|i: int|
            0 <= i < self.fibers.len() ==> (#[trigger] self.fibers[i]).wf() && self.fibers[i].phase
                == FiberPhase::Ready
    }

    /// The job after one event. An event for a fiber that the job does not have changes
    /// nothing.
    pub open spec fn after(self, event: JobEvent) -> JobView {
        match event {
            JobEvent::Fiber(who, e) => if 0 <= who < self.fibers.len() {
                let f = self.fibers[who];
                let (next, shared, _) = f.step(self.shared, e);
                JobView {
                    fibers: self.fibers.update(who, next),
                    shared,
                    issued: self.issued + one_if(begins(f, self.shared, e)),
                    settled: self.settled + one_if(settles(f, self.shared, e)),
                    refused: self.refused + one_if(refuses(f, self.shared, e)),
                    ..self
                }
            } else {
                self
            },
            JobEvent::Report => JobView {
                shared: Shared { window: self.shared.window.cleared(), ..self.shared },
                reported: self.reported + self.shared.window.count(),
                reported_success: self.reported_success + self.shared.window.success,
                ..self
            },
        }
    }

    /// The job after a run of events, oldest first.
    pub open spec fn run(self, events: Seq<JobEvent>) -> JobView
        decreases events.len(),
    {
        if events.len() == 0 {
            self
        } else {
            self.run(events.drop_last()).after(events.last())
        }
    }
}

/// Replacing one fiber changes the number of fibers in the middle of a request by that
/// fiber alone.
pub proof fn lemma_mid_request_of_update(fibers: Seq<FiberView>, who: int, f: FiberView)
    requires
        0 <= who < fibers.len(),
    ensures
        mid_request(fibers.update(who, f)) + one_if(busy(fibers[who])) == mid_request(fibers)
            + one_if(busy(f)),
    decreases fibers.len(),
{
    let changed = fibers.update(who, f);
    if who == fibers.len() - 1 {
        assert(changed.drop_last() =~= fibers.drop_last());
    } else {
        lemma_mid_request_of_update(fibers.drop_last(), who, f);
        assert(changed.drop_last() =~= fibers.drop_last().update(who, f));
    }
}

/// No fiber at rest is in the middle of a request.
pub proof fn lemma_none_mid_request_at_rest(fibers: Seq<FiberView>)
    requires
        forall|i: int| 0 <= i < fibers.len() ==> !busy(#[trigger] fibers[i]),
    ensures
        mid_request(fibers) == 0,
    decreases fibers.len(),
{
    if fibers.len() > 0 {
        let head = fibers.drop_last();
        assert forall|i: int| 0 <= i < head.len() implies !busy(#[trigger] head[i]) by {
            assert(head[i] == fibers[i]);
        }
        lemma_none_mid_request_at_rest(head);
    }
}

/// Every request is counted exactly once, however often it was tried and however the fibers
/// interleave. At every point of a job, the requests begun are those left behind and those
/// that fibers are in the middle of; and what the reports have counted, together with what
/// the window holds, is exactly the requests left behind and those the breaker refused. An
/// attempt that is tried again adds nothing to any count, and no request counts as more
/// than one success. The window takes what a job counts as long as that fits its limit.
pub proof fn lemma_requests_are_counted_once(
    fibers: Seq<FiberView>,
    shared: Shared,
    events: Seq<JobEvent>,
)
    requires
        JobView::begun(fibers, shared).at_rest(),
        JobView::begun(fibers, shared).run(events).issued + JobView::begun(fibers, shared).run(
            events,
        ).refused <= MAX_WINDOW_COUNT,
    ensures
        ({
            let end = JobView::begun(fibers, shared).run(events);
            &&& end.issued == end.settled + mid_request(end.fibers)
            &&& end.reported + end.shared.window.count() == end.settled + end.refused
            &&& end.reported_success + end.shared.window.success <= end.settled
            &&& end.fibers.len() == fibers.len()
            &&& forall|i: int| 0 <= i < end.fibers.len() ==> (#[trigger] end.fibers[i]).wf()
        }),
    decreases events.len(),
{
    let start = JobView::begun(fibers, shared);
    if events.len() == 0 {
        assert forall|i: int| 0 <= i < fibers.len() implies !busy(#[trigger] fibers[i]) by {
            assert(start.fibers[i].wf());
        }
        lemma_none_mid_request_at_rest(fibers);
    } else {
        let before = start.run(events.drop_last());
        let end = before.after(events.last());
        assert(start.run(events) == end);
        assert(before.issued <= end.issued && before.refused <= end.refused);
        lemma_requests_are_counted_once(fibers, shared, events.drop_last());
        match events.last() {
            JobEvent::Fiber(who, e) => {
                if 0 <= who < before.fibers.len() {
                    let f = before.fibers[who];
                    lemma_step_keeps_the_books(f, before.shared, e);
                    lemma_mid_request_of_update(before.fibers, who, f.step(before.shared, e).0);
                    if settles(f, before.shared, e) {
                        assert(mid_request(before.fibers) >= 1);
                    }
                    assert forall|i: int| 0 <= i < end.fibers.len() implies (
                    #[trigger] end.fibers[i]).wf() by {
                        if i != who {
                            assert(end.fibers[i] == before.fibers[i]);
                        }
                    }
                }
            },
            JobEvent::Report => {},
        }
    }
}

/// Successes make batches of successes: while every attempt of a job is answered with a
/// success and its breaker began closed, the breaker stays closed and refuses nothing, no
/// fiber tries anything again, and neither the window nor any report counts an error.
pub proof fn lemma_successes_fill_every_batch(
    fibers: Seq<FiberView>,
    shared: Shared,
    events: Seq<JobEvent>,
)
    requires
        JobView::begun(fibers, shared).at_rest(),
        shared.breaker.state == State::Closed,
        forall|k: int|
            0 <= k < events.len() && (#[trigger] events[k]).answer() is Some ==> kind_is_success(
                events[k].answer()->0,
            ),
    ensures
        ({
            let end = JobView::begun(fibers, shared).run(events);
            &&& end.refused == 0
            &&& end.shared.window.error == 0
            &&& end.shared.window.count() == end.shared.window.success
            &&& end.reported == end.reported_success
            &&& end.shared.breaker.state == State::Closed
            &&& end.fibers.len() == fibers.len()
            &&& forall|i: int|
                0 <= i < end.fibers.len() ==> (#[trigger] end.fibers[i]).wf()
                    && end.fibers[i].phase != FiberPhase::BackingOff
        }),
    decreases events.len(),
{
    let start = JobView::begun(fibers, shared);
    if events.len() > 0 {
        let head = events.drop_last();
        let before = start.run(head);
        let end = before.after(events.last());
        assert(start.run(events) == end);
        assert forall|k: int|
            0 <= k < head.len() && (#[trigger] head[k]).answer() is Some implies kind_is_success(
            head[k].answer()->0,
        ) by {
            assert(head[k] == events[k]);
        }
        lemma_successes_fill_every_batch(fibers, shared, head);
        match events.last() {
            JobEvent::Fiber(who, e) => {
                if 0 <= who < before.fibers.len() {
                    let f = before.fibers[who];
                    assert(events[events.len() - 1].answer() is Some ==> kind_is_success(
                        events[events.len() - 1].answer()->0,
                    ));
                    lemma_step_keeps_the_books(f, before.shared, e);
                    assert forall|i: int| 0 <= i < end.fibers.len() implies (
                    #[trigger] end.fibers[i]).wf() && end.fibers[i].phase
                        != FiberPhase::BackingOff by {
                        if i != who {
                            assert(end.fibers[i] == before.fibers[i]);
                        }
                    }
                }
            },
            JobEvent::Report => {},
        }
    }
}

/// Failures make batches of errors: while no attempt of a job is answered with a success,
/// neither the window nor any report counts one, so every request that is counted, refused
/// ones among them, is counted as an error.
pub proof fn lemma_failures_fill_every_batch(
    fibers: Seq<FiberView>,
    shared: Shared,
    events: Seq<JobEvent>,
)
    requires
        JobView::begun(fibers, shared).at_rest(),
        forall|k: int|
            0 <= k < events.len() && (#[trigger] events[k]).answer() is Some ==> !kind_is_success(
                events[k].answer()->0,
            ),
    ensures
        ({
            let end = JobView::begun(fibers, shared).run(events);
            &&& end.shared.window.success == 0
            &&& end.shared.window.count() == end.shared.window.error
            &&& end.reported_success == 0
            &&& end.fibers.len() == fibers.len()
            &&& forall|i: int|
                0 <= i < end.fibers.len() ==> (#[trigger] end.fibers[i]).wf() && (
                end.fibers[i].phase == FiberPhase::BackingOff ==> !kind_is_success(
                    end.fibers[i].last_kind,
                ))
        }),
    decreases events.len(),
{
    let start = JobView::begun(fibers, shared);
    if events.len() > 0 {
        let head = events.drop_last();
        let before = start.run(head);
        let end = before.after(events.last());
        assert(start.run(events) == end);
        assert forall|k: int|
            0 <= k < head.len() && (#[trigger] head[k]).answer() is Some implies !kind_is_success(
            head[k].answer()->0,
        ) by {
            assert(head[k] == events[k]);
        }
        lemma_failures_fill_every_batch(fibers, shared, head);
        match events.last() {
            JobEvent::Fiber(who, e) => {
                if 0 <= who < before.fibers.len() {
                    let f = before.fibers[who];
                    assert(events[events.len() - 1].answer() is Some ==> !kind_is_success(
                        events[events.len() - 1].answer()->0,
                    ));
                    lemma_step_keeps_the_books(f, before.shared, e);
                    assert forall|i: int| 0 <= i < end.fibers.len() implies (
                    #[trigger] end.fibers[i]).wf() && (end.fibers[i].phase
                        == FiberPhase::BackingOff ==> !kind_is_success(
                        end.fibers[i].last_kind,
                    )) by {
                        if i != who {
                            assert(end.fibers[i] == before.fibers[i]);
                        }
                    }
                }
            },
            JobEvent::Report => {},
        }
    }
}

/// Failures open the breaker as soon as there are enough of them: while no attempt of a job
/// is answered with a success, a breaker that began fresh is closed exactly as long as fewer
/// requests have failed than its threshold, and until then it has counted every one of them.
/// Attempts that are tried again do not count: the breaker hears of a request once.
pub proof fn lemma_failures_open_the_breaker(
    fibers: Seq<FiberView>,
    shared: Shared,
    events: Seq<JobEvent>,
)
    requires
        JobView::begun(fibers, shared).at_rest(),
        shared.breaker == BreakerView::fresh(shared.breaker.config),
        forall|k: int|
            0 <= k < events.len() && (#[trigger] events[k]).answer() is Some ==> !kind_is_success(
                events[k].answer()->0,
            ),
    ensures
        ({
            let end = JobView::begun(fibers, shared).run(events);
            let breaker = end.shared.breaker;
            &&& breaker.config == shared.breaker.config
            &&& breaker.state == State::Closed <==> end.settled < breaker.config.trip_count()
            &&& breaker.state == State::Closed ==> breaker.consecutive_failures == end.settled
        }),
    decreases events.len(),
{
    let start = JobView::begun(fibers, shared);
    if events.len() > 0 {
        let head = events.drop_last();
        let before = start.run(head);
        let end = before.after(events.last());
        assert(start.run(events) == end);
        assert forall|k: int|
            0 <= k < head.len() && (#[trigger] head[k]).answer() is Some implies !kind_is_success(
            head[k].answer()->0,
        ) by {
            assert(head[k] == events[k]);
        }
        lemma_failures_open_the_breaker(fibers, shared, head);
        lemma_failures_fill_every_batch(fibers, shared, head);
        match events.last() {
            JobEvent::Fiber(who, e) => {
                if 0 <= who < before.fibers.len() {
                    let f = before.fibers[who];
                    assert(events[events.len() - 1].answer() is Some ==> !kind_is_success(
                        events[events.len() - 1].answer()->0,
                    ));
                    lemma_step_keeps_the_books(f, before.shared, e);
                }
            },
            JobEvent::Report => {},
        }
    }
}

/// An open breaker holds every request back: while the breaker of a job is open and its
/// timeout has not run out at any time a fiber asks, no request is begun, the breaker stays
/// as it is, and every token that the limiter grants ends as a refusal. Each refusal is one
/// error without a latency in the window, so nothing but errors is counted.
pub proof fn lemma_open_breaker_sends_nothing(
    fibers: Seq<FiberView>,
    shared: Shared,
    events: Seq<JobEvent>,
)
    requires
        JobView::begun(fibers, shared).at_rest(),
        shared.breaker.state == State::Open,
        forall|k: int|
            0 <= k < events.len() && (#[trigger] events[k]).wakes_at() is Some
                ==> !shared.breaker.admits(events[k].wakes_at()->0 / 1000),
    ensures
        ({
            let end = JobView::begun(fibers, shared).run(events);
            &&& end.issued == 0
            &&& end.settled == 0
            &&& end.shared.breaker == shared.breaker
            &&& end.shared.window.success == 0
            &&& end.reported_success == 0
            &&& end.fibers.len() == fibers.len()
            &&& forall|i: int|
                0 <= i < end.fibers.len() ==> (#[trigger] end.fibers[i]).wf() && !busy(
                    end.fibers[i],
                )
        }),
    decreases events.len(),
{
    let start = JobView::begun(fibers, shared);
    if events.len() == 0 {
        assert forall|i: int| 0 <= i < fibers.len() implies (#[trigger] fibers[i]).wf() && !busy(
            fibers[i],
        ) by {
            assert(start.fibers[i].wf());
        }
    } else {
        let head = events.drop_last();
        let before = start.run(head);
        let end = before.after(events.last());
        assert(start.run(events) == end);
        assert forall|k: int|
            0 <= k < head.len() && (#[trigger] head[k]).wakes_at() is Some
            implies !shared.breaker.admits(head[k].wakes_at()->0 / 1000) by {
            assert(head[k] == events[k]);
        }
        lemma_open_breaker_sends_nothing(fibers, shared, head);
        match events.last() {
            JobEvent::Fiber(who, e) => {
                if 0 <= who < before.fibers.len() {
                    let f = before.fibers[who];
                    assert(events[events.len() - 1].wakes_at() is Some ==> !shared.breaker.admits(
                        events[events.len() - 1].wakes_at()->0 / 1000,
                    ));
                    lemma_step_keeps_the_books(f, before.shared, e);
                    assert forall|i: int| 0 <= i < end.fibers.len() implies (
                    #[trigger] end.fibers[i]).wf() && !busy(end.fibers[i]) by {
                        if i != who {
                            assert(end.fibers[i] == before.fibers[i]);
                        }
                    }
                }
            },
            JobEvent::Report => {},
        }
    }
}

/// Once every fiber has been told of a shutdown, no request is begun any more, whatever
/// happens: the fibers stay stopped and the count of requests begun stands still.
pub proof fn lemma_nothing_begins_after_shutdown(job: JobView, events: Seq<JobEvent>)
    requires
        forall|i: int|
            0 <= i < job.fibers.len() ==> (#[trigger] job.fibers[i]).wf() && stopped(
                job.fibers[i],
            ),
    ensures
        job.run(events).issued == job.issued,
        job.run(events).refused == job.refused,
        job.run(events).shared.limiter == job.shared.limiter,
        job.run(events).fibers.len() == job.fibers.len(),
        forall|i: int|
            0 <= i < job.fibers.len() ==> (#[trigger] job.run(events).fibers[i]).wf() && stopped(
                job.run(events).fibers[i],
            ),
    decreases events.len(),
{
    if events.len() > 0 {
        let before = job.run(events.drop_last());
        let end = before.after(events.last());
        assert(job.run(events) == end);
        lemma_nothing_begins_after_shutdown(job, events.drop_last());
        match events.last() {
            JobEvent::Fiber(who, e) => {
                if 0 <= who < before.fibers.len() {
                    let f = before.fibers[who];
                    lemma_step_keeps_the_books(f, before.shared, e);
                    assert forall|i: int| 0 <= i < job.fibers.len() implies (
                    #[trigger] end.fibers[i]).wf() && stopped(end.fibers[i]) by {
                        if i != who {
                            assert(end.fibers[i] == before.fibers[i]);
                        }
                    }
                }
            },
            JobEvent::Report => {},
        }
    }
}

/// However many fibers a job has and in whatever order they ask, the tokens they take in a
/// span of time are at most the capacity of the bucket plus what its rate yields in that
/// span. Every request begun and every request refused by the breaker took one token, so
/// together they are at most `C + R * T`, stated in millionths:
/// `(issued + refused) * 10^6 <= C * 10^6 + R * T_us`.
pub proof fn lemma_job_takes_at_most(
    fibers: Seq<FiberView>,
    shared: Shared,
    events: Seq<JobEvent>,
    span_us: nat,
)
    requires
        JobView::begun(fibers, shared).at_rest(),
        shared.limiter.wf(),
        forall|k: int|
            0 <= k < events.len() && (#[trigger] events[k]).wakes_at() is Some
                ==> events[k].wakes_at()->0 <= shared.limiter.last_refill + span_us,
    ensures
        ({
            let end = JobView::begun(fibers, shared).run(events);
            let moved = end.shared.limiter.last_refill - shared.limiter.last_refill;
            &&& end.shared.limiter.wf()
            &&& end.shared.limiter.capacity == shared.limiter.capacity
            &&& end.shared.limiter.rate == shared.limiter.rate
            &&& 0 <= moved <= span_us
            &&& (end.issued + end.refused) * MICROS + end.shared.limiter.level
                <= shared.limiter.level + shared.limiter.rate * moved
            &&& (end.issued + end.refused) * MICROS <= shared.limiter.capacity * MICROS
                + shared.limiter.rate * span_us
            &&& end.fibers.len() == fibers.len()
            &&& forall|i: int| 0 <= i < end.fibers.len() ==> (#[trigger] end.fibers[i]).wf()
        }),
    decreases events.len(),
{
    let start = JobView::begun(fibers, shared);
    let rate = shared.limiter.rate as int;
    let first = shared.limiter.last_refill as int;
    if events.len() == 0 {
        assert(rate * 0 == 0) by (nonlinear_arith);
    } else {
        let head = events.drop_last();
        let before = start.run(head);
        let end = before.after(events.last());
        assert(start.run(events) == end);
        assert forall|k: int|
            0 <= k < head.len() && (#[trigger] head[k]).wakes_at() is Some
            implies head[k].wakes_at()->0 <= shared.limiter.last_refill + span_us by {
            assert(head[k] == events[k]);
        }
        lemma_job_takes_at_most(fibers, shared, head, span_us);
        match events.last() {
            JobEvent::Fiber(who, e) => {
                if 0 <= who < before.fibers.len() {
                    let f = before.fibers[who];
                    assert(events[events.len() - 1].wakes_at() is Some
                        ==> events[events.len() - 1].wakes_at()->0 <= first + span_us);
                    lemma_step_keeps_the_books(f, before.shared, e);
                    if end.shared.limiter != before.shared.limiter {
                        let now = e->Wake_0;
                        lemma_refill_adds(before.shared.limiter, now);
                        let at = before.shared.limiter.last_refill as int;
                        let to = end.shared.limiter.last_refill as int;
                        assert(rate * (at - first) + rate * (to - at) == rate * (to - first))
                            by (nonlinear_arith);
                    }
                    assert forall|i: int| 0 <= i < end.fibers.len() implies (
                    #[trigger] end.fibers[i]).wf() by {
                        if i != who {
                            assert(end.fibers[i] == before.fibers[i]);
                        }
                    }
                }
            },
            JobEvent::Report => {},
        }
    }
    let end = start.run(events);
    let moved = end.shared.limiter.last_refill - first;
    assert(rate * moved <= rate * span_us) by (nonlinear_arith)
        requires
            0 <= moved <= span_us,
            rate >= 0,
    ;
}

} // verus!
