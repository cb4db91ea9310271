use loadtest_worker::backoff::{BackoffConfig, RetryPolicy, DRAW_SCALE};
use loadtest_worker::circuit_breaker::{CircuitBreaker, State};
use loadtest_worker::engine::{
    EngineConfig, Fiber, FiberAction, FiberEvent, ReportClock, Reporter, ReporterAction,
};
use loadtest_worker::metrics::MetricsCollector;
use loadtest_worker::models::{OutcomeKind, WorkerResult};
use loadtest_worker::rate_limiter::{AdaptiveRate, TokenBucketRateLimiter};

const SECOND: u64 = 1_000_000;
const POLL: u64 = 50_000;
const WALL: u64 = 1_700_000_000_000;

#[derive(Clone, Copy, PartialEq)]
enum Due {
    Wake,
    Answer(OutcomeKind),
    Nothing,
}

struct Plan {
    rps: u32,
    duration_s: u64,
    fibers: usize,
    max_attempts: u32,
    stop_at_us: Option<u64>,
    /// How far the clock of a fiber may read behind the time of the run.
    skew_us: u64,
}

struct Told {
    batches: Vec<WorkerResult>,
    /// The time and the number of every attempt sent.
    sends: Vec<(u64, u32)>,
    ticks: u64,
    terminals: u64,
    end_us: u64,
}

impl Told {
    fn requests(&self) -> u64 {
        self.sends.iter().filter(|(_, attempt)| *attempt == 1).count() as u64
    }

    fn total(&self) -> u64 {
        self.batches.iter().map(|b| b.total_requests).sum()
    }

    fn successes(&self) -> u64 {
        self.batches.iter().map(|b| b.success_count).sum()
    }

    fn errors(&self) -> u64 {
        self.batches.iter().map(|b| b.error_count).sum()
    }
}

fn plan(rps: u32, duration_s: u64, fibers: usize) -> Plan {
    Plan { rps, duration_s, fibers, max_attempts: 1, stop_at_us: None, skew_us: 0 }
}

/// Runs a job in virtual time: the fibers and the report clock are asked what to do, and what
/// they say is done. The upstream says how an attempt ends and after how long.
fn drive(
    plan: &Plan,
    breaker: &mut CircuitBreaker,
    upstream: &mut dyn FnMut(u64, u32) -> (OutcomeKind, u64),
) -> Told {
    let engine = EngineConfig::default();
    let policy = RetryPolicy { max_attempts: plan.max_attempts, backoff: BackoffConfig::default() };
    let start = 3 * SECOND;
    let deadline = start + plan.duration_s * SECOND;
    let mut limiter = TokenBucketRateLimiter::new(plan.rps, start);
    let mut metrics = MetricsCollector::with_start(start);
    let mut rate = AdaptiveRate::new();
    let mut reporter = Reporter::new("job".to_string(), "worker".to_string(), WALL, 8);
    let mut clock = ReportClock::new(&engine, start, deadline);
    let mut fibers: Vec<Fiber> =
        (0..plan.fibers).map(|_| Fiber::new(&engine, policy, deadline)).collect();
    let mut due: Vec<(u64, Due)> = vec![(start, Due::Wake); plan.fibers];
    let mut report_at = start;
    let mut stop_at = plan.stop_at_us.map(|s| start + s);
    let mut stopping = false;
    let mut seed = 0x2545_F491_4F6C_DD1Du64;
    let mut told =
        Told { batches: Vec::new(), sends: Vec::new(), ticks: 0, terminals: 0, end_us: 0 };

    loop {
        let mut now = u64::MAX;
        let mut who: Option<usize> = None;
        for (i, (t, d)) in due.iter().enumerate() {
            if *d != Due::Nothing && *t < now {
                now = *t;
                who = Some(i);
            }
        }
        if let Some(s) = stop_at {
            if s <= now && s <= report_at {
                stop_at = None;
                stopping = true;
                for i in 0..plan.fibers {
                    let event = FiberEvent::Shutdown(s);
                    match fibers[i].step(&mut limiter, breaker, &mut metrics, &mut rate, event) {
                        FiberAction::Exit => due[i] = (s, Due::Nothing),
                        FiberAction::Await => {}
                        _ => panic!("a shutdown is answered by leaving or by awaiting the answer"),
                    }
                }
                continue;
            }
        }
        if report_at <= now {
            let at = report_at;
            let fibers_done = who.is_none();
            match clock.step(at, stopping, fibers_done, metrics.total_count()) {
                ReporterAction::Sleep(us) | ReporterAction::Drain(us) => {
                    assert!(us > 0);
                    report_at = at + us.min(POLL);
                }
                ReporterAction::Tick => {
                    told.ticks += 1;
                    reporter.tick(&mut metrics, WALL + (at - start) / 1000, at, false);
                }
                ReporterAction::Terminal => {
                    told.terminals += 1;
                    told.end_us = at - start;
                    assert!(reporter.tick(&mut metrics, WALL + (at - start) / 1000, at, true));
                }
                ReporterAction::Done => return told,
            }
            while let Some(batch) = reporter.next_batch() {
                told.batches.push(batch.clone());
                reporter.push_succeeded();
            }
            continue;
        }
        let i = who.expect("a fiber is due before the reporter");
        seed = seed.wrapping_mul(6364136223846793005).wrapping_add(1442695040888963407);
        let read = if plan.skew_us == 0 { now } else { now - (seed >> 33) % (plan.skew_us + 1) };
        let event = match due[i].1 {
            Due::Wake => FiberEvent::Wake(read),
            Due::Answer(kind) => FiberEvent::Response(kind, DRAW_SCALE / 2, read),
            Due::Nothing => unreachable!(),
        };
        match fibers[i].step(&mut limiter, breaker, &mut metrics, &mut rate, event) {
            FiberAction::Send(attempt) => {
                assert!(told.terminals == 0);
                told.sends.push((now - start, attempt));
                let (kind, latency) = upstream(now - start, attempt);
                due[i] = (now + latency, Due::Answer(kind));
            }
            FiberAction::Sleep(us) => due[i] = (now.saturating_add(us.max(1)), Due::Wake),
            FiberAction::Exit => due[i] = (now, Due::Nothing),
            FiberAction::Await | FiberAction::Stay => panic!("no event here leaves a fiber waiting"),
        }
    }
}

#[test]
fn steady_job_makes_one_batch_a_second_and_a_terminal_one() {
    let mut breaker = CircuitBreaker::new();
    let told = drive(&plan(100, 10, 10), &mut breaker, &mut |_, _| (OutcomeKind::HttpOk, 5_000));
    assert_eq!(told.ticks, 10);
    assert_eq!(told.terminals, 1);
    assert_eq!(told.batches.len(), 11);
    assert_eq!(told.batches.iter().filter(|b| b.terminal).count(), 1);
    assert!(told.batches.last().unwrap().terminal);
    for batch in &told.batches {
        assert_eq!(batch.success_count, batch.total_requests);
        assert_eq!(batch.error_count, 0);
    }
    for batch in told.batches.iter().filter(|b| !b.terminal) {
        assert!(batch.total_requests > 0);
        assert!(batch.p50_latency_us >= 4_000 && batch.p50_latency_us <= 10_000);
    }
    assert_eq!(told.total(), told.requests());
    assert!(told.total() >= 900 && told.total() <= 1100);
    assert!(told.end_us >= 10 * SECOND && told.end_us <= 12 * SECOND);
    assert_eq!(breaker.state(), State::Closed);
}

#[test]
fn fibers_together_take_no_more_than_the_bucket_gives() {
    for &(rps, duration_s, fibers) in
        &[(1u32, 5u64, 1usize), (1, 5, 7), (10, 3, 4), (50, 4, 50), (200, 2, 3), (7, 6, 100)]
    {
        let mut breaker = CircuitBreaker::new();
        let told = drive(&plan(rps, duration_s, fibers), &mut breaker, &mut |_, _| {
            (OutcomeKind::HttpOk, 0)
        });
        let rd = rps as u64 * duration_s;
        assert!(told.requests() <= rps as u64 + rd);
        assert!(told.requests() * 10 >= rd * 9);
        assert!(told.requests() * 10 <= rd * 11 + rps as u64 * 10);
        assert_eq!(told.total(), told.requests());
        assert_eq!(told.terminals, 1);
    }
}

#[test]
fn clocks_that_read_behind_do_not_raise_the_total() {
    for &(rps, duration_s, fibers, skew_us) in
        &[(10u32, 3u64, 4usize, 1_000u64), (50, 4, 20, 250_000), (200, 2, 8, 2_000_000)]
    {
        let mut breaker = CircuitBreaker::new();
        let mut p = plan(rps, duration_s, fibers);
        p.skew_us = skew_us;
        let told = drive(&p, &mut breaker, &mut |_, _| (OutcomeKind::HttpOk, 300));
        assert!(told.requests() <= rps as u64 + rps as u64 * duration_s);
        assert_eq!(told.total(), told.requests());
        assert_eq!(told.errors(), 0);
    }
}

#[test]
fn request_that_is_tried_three_times_counts_once() {
    let mut breaker = CircuitBreaker::new();
    let mut p = plan(1, 5, 3);
    p.max_attempts = 3;
    let told = drive(&p, &mut breaker, &mut |_, attempt| {
        if attempt < 3 {
            (OutcomeKind::Connect, 1_000)
        } else {
            (OutcomeKind::HttpOk, 1_000)
        }
    });
    assert_eq!(told.sends.len() as u64, 3 * told.requests());
    assert_eq!(told.total(), told.requests());
    assert_eq!(told.successes(), told.requests());
    assert_eq!(told.errors(), 0);
    assert!(told.requests() >= 5 && told.requests() <= 6);
    assert_eq!(breaker.state(), State::Closed);
}

#[test]
fn refused_connections_open_the_breaker_and_fill_the_batches_with_errors() {
    let mut breaker = CircuitBreaker::new();
    let told =
        drive(&plan(50, 10, 5), &mut breaker, &mut |_, _| (OutcomeKind::Connect, 20_000));
    assert_eq!(breaker.state(), State::Open);
    assert_eq!(told.requests(), 5);
    assert!(told.sends.iter().all(|(at, _)| *at <= 200_000));
    assert_eq!(told.successes(), 0);
    assert_eq!(told.errors(), told.total());
    assert!(told.total() > 5);
    for batch in &told.batches {
        assert_eq!(batch.error_count, batch.total_requests);
        assert!(!batch.success);
    }
    for batch in told.batches.iter().filter(|b| !b.terminal).skip(1) {
        assert!(batch.total_requests > 0);
        assert_eq!(batch.max_latency_us, 0);
    }
}

#[test]
fn shutdown_stops_the_sending_and_brings_the_terminal_batch() {
    let mut breaker = CircuitBreaker::new();
    let mut p = plan(20, 30, 6);
    p.stop_at_us = Some(5 * SECOND);
    let told = drive(&p, &mut breaker, &mut |_, _| (OutcomeKind::HttpOk, 30_000));
    assert!(told.sends.iter().all(|(at, _)| *at < 5 * SECOND));
    assert_eq!(told.ticks, 4);
    assert_eq!(told.terminals, 1);
    assert_eq!(told.batches.iter().filter(|b| b.terminal).count(), 1);
    assert!(told.batches.last().unwrap().terminal);
    assert!(told.end_us >= 5 * SECOND);
    assert!(told.end_us <= 5 * SECOND + 2 * SECOND);
    assert_eq!(told.total(), told.requests());
    assert_eq!(told.successes(), told.requests());
}

#[test]
fn upstream_that_never_answers_is_given_the_drain_window_and_no_more() {
    let mut breaker = CircuitBreaker::new();
    let mut p = plan(5, 2, 3);
    p.stop_at_us = Some(SECOND);
    let told = drive(&p, &mut breaker, &mut |_, _| (OutcomeKind::HttpOk, 3_600 * SECOND));
    assert_eq!(told.terminals, 1);
    assert_eq!(told.end_us, SECOND + 2 * SECOND);
    assert_eq!(told.batches.len(), 1);
    assert!(told.batches[0].terminal);
    assert_eq!(told.batches[0].total_requests, 0);
    assert_eq!(told.requests(), 3);
}
