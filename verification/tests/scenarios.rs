use loadtest_worker::backoff::{BackoffConfig, RetryPolicy, DRAW_SCALE};
use loadtest_worker::circuit_breaker::{CircuitBreaker, State};
use loadtest_worker::engine::{fiber_count, EngineConfig, Fiber, FiberAction, FiberEvent, Reporter};
use loadtest_worker::metrics::MetricsCollector;
use loadtest_worker::models::{OutcomeKind, WorkerResult};
use loadtest_worker::rate_limiter::{AdaptiveRate, TokenBucketRateLimiter};
use loadtest_worker::worker::{LeaseReply, Runtime, RuntimeAction};

const MID: u32 = DRAW_SCALE / 2;
const EPOCH_MS: u64 = 1_700_000_000_000;

struct Setup {
    rps: u32,
    duration_s: u64,
    policy: RetryPolicy,
    engine: EngineConfig,
    start_us: u64,
    shutdown_at_us: Option<u64>,
}

struct Run {
    batches: Vec<WorkerResult>,
    send_times: Vec<u64>,
    rates: Vec<(u64, u64)>,
    end_us: u64,
}

#[derive(Clone, Copy, PartialEq)]
enum Due {
    Wake,
    Response(OutcomeKind),
    Nothing,
}

fn run_job(
    setup: &Setup,
    breaker: &mut CircuitBreaker,
    rate: &mut AdaptiveRate,
    upstream: &mut dyn FnMut(u64, u64, u32) -> (OutcomeKind, u64),
) -> Run {
    let start = setup.start_us;
    let deadline = start + setup.duration_s * 1_000_000;
    let period = setup.engine.report_period_ms * 1000;
    let drain = setup.engine.drain_window_ms * 1000;
    let mut limiter = TokenBucketRateLimiter::new(setup.rps, start);
    let mut metrics = MetricsCollector::with_start(start);
    let mut reporter = Reporter::new("job".to_string(), "worker".to_string(), EPOCH_MS + start / 1000, 8);
    let n = fiber_count(&setup.engine, None, setup.rps) as usize;
    let mut fibers: Vec<Fiber> =
        (0..n).map(|_| Fiber::new(&setup.engine, setup.policy, deadline)).collect();
    let mut due: Vec<(u64, Due)> = vec![(start, Due::Wake); n];
    let mut request_no: Vec<u64> = vec![0; n];
    let mut next_request: u64 = 0;
    let mut next_tick = start + period;
    let mut shutdown_at = setup.shutdown_at_us;
    let mut stop_at = deadline;
    let mut last_event = start;
    let mut run = Run { batches: Vec::new(), send_times: Vec::new(), rates: Vec::new(), end_us: 0 };

    loop {
        let mut now = u64::MAX;
        let mut who: Option<usize> = None;
        for (i, (t, d)) in due.iter().enumerate() {
            if *d != Due::Nothing && *t < now {
                now = *t;
                who = Some(i);
            }
        }
        let all_done = who.is_none();
        if let Some(s) = shutdown_at {
            if s <= now && s <= next_tick {
                shutdown_at = None;
                stop_at = s;
                for i in 0..n {
                    let event = FiberEvent::Shutdown(s);
                    let action = fibers[i].step(&mut limiter, breaker, &mut metrics, rate, event);
                    match action {
                        FiberAction::Exit => due[i] = (s, Due::Nothing),
                        FiberAction::Await => {}
                        _ => panic!("a fiber answers a shutdown by leaving or by waiting for its response"),
                    }
                }
                continue;
            }
        }
        let last_tick_due = next_tick <= stop_at && next_tick <= now;
        if last_tick_due {
            reporter.tick(&mut metrics, EPOCH_MS + next_tick / 1000, next_tick, false);
            while let Some(b) = reporter.next_batch() {
                run.batches.push(b.clone());
                reporter.push_succeeded();
            }
            next_tick += period;
            continue;
        }
        if all_done || now > stop_at + drain {
            let end = if all_done && setup.shutdown_at_us.is_some() {
                stop_at.max(last_event)
            } else {
                stop_at + drain
            };
            reporter.tick(&mut metrics, EPOCH_MS + end / 1000, end, true);
            while let Some(b) = reporter.next_batch() {
                run.batches.push(b.clone());
                reporter.push_succeeded();
            }
            run.end_us = end;
            return run;
        }
        let i = who.unwrap();
        last_event = now;
        let event = match due[i].1 {
            Due::Wake => FiberEvent::Wake(now),
            Due::Response(kind) => FiberEvent::Response(kind, MID, now),
            Due::Nothing => unreachable!(),
        };
        let before = rate.current_rps();
        let action = fibers[i].step(&mut limiter, breaker, &mut metrics, rate, event);
        if rate.current_rps() != before {
            run.rates.push((before, rate.current_rps()));
        }
        match action {
            FiberAction::Send(attempt) => {
                if attempt == 1 {
                    request_no[i] = next_request;
                    next_request += 1;
                }
                run.send_times.push(now);
                let (kind, latency) = upstream(now, request_no[i], attempt);
                due[i] = (now + latency, Due::Response(kind));
            }
            FiberAction::Sleep(us) => due[i] = (now.saturating_add(us), Due::Wake),
            FiberAction::Exit => due[i] = (now, Due::Nothing),
            FiberAction::Await | FiberAction::Stay => panic!("no event of the run leaves a fiber waiting"),
        }
    }
}

fn setup(rps: u32, duration_s: u64) -> Setup {
    Setup {
        rps,
        duration_s,
        policy: RetryPolicy { max_attempts: 1, backoff: BackoffConfig::default() },
        engine: EngineConfig::default(),
        start_us: 0,
        shutdown_at_us: None,
    }
}

fn total(batches: &[WorkerResult]) -> u64 {
    batches.iter().map(|b| b.total_requests).sum()
}

#[test]
fn steady_state() {
    let mut breaker = CircuitBreaker::new();
    let mut rate = AdaptiveRate::starting_at(100);
    let mut echo = |_: u64, _: u64, _: u32| (OutcomeKind::HttpOk, 5_000);
    let run = run_job(&setup(100, 10), &mut breaker, &mut rate, &mut echo);
    let all = total(&run.batches);
    let successes: u64 = run.batches.iter().map(|b| b.success_count).sum();
    assert_eq!(successes, all);
    assert!(all >= 950);
    assert!(all <= 100 + 100 * 10);
    assert_eq!(all, run.send_times.len() as u64);
    let non_terminal: Vec<&WorkerResult> = run.batches.iter().filter(|b| !b.terminal).collect();
    assert_eq!(non_terminal.len(), 10);
    assert!(non_terminal.iter().all(|b| b.total_requests > 0));
    assert_eq!(run.batches.iter().filter(|b| b.terminal).count(), 1);
    assert!(run.batches.last().unwrap().terminal);
    for b in &non_terminal {
        assert!(b.p50_latency_us >= 4_000 && b.p50_latency_us <= 10_000);
        assert!(b.success);
        assert_eq!(b.error_count, 0);
    }
    for b in &non_terminal[1..] {
        assert!(b.actual_rps_milli >= 95_000 && b.actual_rps_milli <= 105_000);
    }
    assert_eq!(rate.current_rps(), 100);
    assert_eq!(breaker.state(), State::Closed);
}

#[test]
fn steady_state_total_is_near_rate_times_duration() {
    for &(rps, duration) in &[(1u32, 5u64), (10, 3), (50, 10), (200, 6), (1000, 2)] {
        let mut breaker = CircuitBreaker::new();
        let mut rate = AdaptiveRate::new();
        let mut instant = |_: u64, _: u64, _: u32| (OutcomeKind::HttpOk, 0);
        let run = run_job(&setup(rps, duration), &mut breaker, &mut rate, &mut instant);
        let all = total(&run.batches);
        let rd = rps as u64 * duration;
        assert!(all * 10 >= rd * 9, "{} requests at {} rps for {} s", all, rps, duration);
        assert!(all * 10 <= rd * 11 + rps as u64 * 10);
        assert!(all <= rps as u64 + rd);
    }
}

#[test]
fn windows_follow_one_another_without_a_gap() {
    let mut breaker = CircuitBreaker::new();
    let mut rate = AdaptiveRate::new();
    let run = run_job(&setup(20, 4), &mut breaker, &mut rate, &mut |_, _, _| (OutcomeKind::HttpOk, 1_000));
    assert_eq!(run.batches[0].window_start_ms, EPOCH_MS);
    for pair in run.batches.windows(2) {
        assert_eq!(pair[1].window_start_ms, pair[0].timestamp_ms);
        assert!(pair[1].timestamp_ms > pair[0].timestamp_ms);
    }
    assert_eq!(run.batches.last().unwrap().timestamp_ms, EPOCH_MS + 6_000);
}

#[test]
fn all_failures_trip_the_breaker() {
    let mut breaker = CircuitBreaker::new();
    let mut rate = AdaptiveRate::new();
    let run = run_job(&setup(50, 10), &mut breaker, &mut rate, &mut |_, _, _| (OutcomeKind::Connect, 200));
    assert_eq!(breaker.state(), State::Open);
    assert!(breaker.opened_at() <= 200);
    assert_eq!(run.send_times.len(), 9);
    assert!(run.send_times.iter().all(|&t| t <= 200_000));
    let all = total(&run.batches);
    let errors: u64 = run.batches.iter().map(|b| b.error_count).sum();
    assert_eq!(errors, all);
    assert!(all > 5);
    assert!(run.batches.iter().all(|b| !b.success));
    for b in run.batches.iter().filter(|b| !b.terminal).skip(1) {
        assert!(b.total_requests > 0);
        assert_eq!(b.max_latency_us, 0);
    }
}

#[test]
fn a_probe_goes_out_thirty_seconds_after_the_trip() {
    let mut breaker = CircuitBreaker::new();
    let mut rate = AdaptiveRate::new();
    let run = run_job(&setup(50, 40), &mut breaker, &mut rate, &mut |_, _, _| (OutcomeKind::Connect, 200));
    assert_eq!(run.send_times.len(), 10);
    assert!(run.send_times[..9].iter().all(|&t| t <= 200_000));
    let probe = run.send_times[9];
    assert!(probe / 1000 >= 30_000);
    assert!(probe / 1000 <= 30_000 + 20);
    assert_eq!(breaker.state(), State::Open);
    assert!(breaker.opened_at() >= 30_000);
}

#[test]
fn a_probe_that_succeeds_closes_the_breaker_again() {
    let mut breaker = CircuitBreaker::new();
    let mut rate = AdaptiveRate::new();
    let run = run_job(&setup(50, 40), &mut breaker, &mut rate, &mut |now, _, _| {
        if now < 20_000_000 {
            (OutcomeKind::Connect, 200)
        } else {
            (OutcomeKind::HttpOk, 1_000)
        }
    });
    assert_eq!(breaker.state(), State::Closed);
    let last = run.batches.iter().filter(|b| !b.terminal).last().unwrap();
    assert!(last.success);
    assert_eq!(last.error_count, 0);
    assert!(last.actual_rps_milli >= 45_000);
}

#[test]
fn retry_recovery() {
    let mut s = setup(1, 5);
    s.policy = RetryPolicy { max_attempts: 3, backoff: BackoffConfig::default() };
    let mut breaker = CircuitBreaker::new();
    let mut rate = AdaptiveRate::new();
    let run = run_job(&s, &mut breaker, &mut rate, &mut |_, _, attempt| {
        if attempt < 3 {
            (OutcomeKind::Connect, 1_000)
        } else {
            (OutcomeKind::HttpOk, 1_000)
        }
    });
    let successes: u64 = run.batches.iter().map(|b| b.success_count).sum();
    let errors: u64 = run.batches.iter().map(|b| b.error_count).sum();
    assert_eq!(successes, 5);
    assert_eq!(errors, 0);
    assert_eq!(run.send_times.len(), 15);
    for b in run.batches.iter().filter(|b| b.total_requests > 0) {
        assert!(b.avg_latency_us >= 300_000);
        assert!(b.avg_latency_us <= 304_000);
    }
    assert_eq!(breaker.state(), State::Closed);
    assert_eq!(breaker.consecutive_failures(), 0);
}

#[test]
fn rate_change_mid_flight() {
    let mut s = setup(200, 6);
    s.engine = EngineConfig { adaptive: true, ..EngineConfig::default() };
    let mut breaker = CircuitBreaker::new();
    let mut rate = AdaptiveRate::starting_at(200);
    let run = run_job(&s, &mut breaker, &mut rate, &mut |now, _, _| {
        if now < 2_000_000 {
            (OutcomeKind::HttpOk, 5_000)
        } else {
            (OutcomeKind::HttpOk, 1_200_000)
        }
    });
    let mut slow_run = 0u32;
    let mut at_start_of_run = 0u64;
    let mut longest = 0u32;
    for &(before, after) in &run.rates {
        if after < before {
            if slow_run == 0 {
                at_start_of_run = before;
            }
            slow_run += 1;
            let bound = at_start_of_run as f64 * 0.9f64.powi(slow_run as i32);
            assert!(after == 10 || after as f64 <= bound * 1.000001);
            longest = longest.max(slow_run);
        } else {
            assert_eq!(after, before + 10);
            slow_run = 0;
        }
    }
    assert!(longest >= 20);
    let early = &run.batches[0];
    let late = run.batches.iter().filter(|b| !b.terminal).last().unwrap();
    assert!(early.actual_rps_milli >= 200_000);
    assert!(late.actual_rps_milli <= 40_000);
    assert!(late.p50_latency_us >= 1_200_000);
}

#[test]
fn cooperative_shutdown() {
    let mut s = setup(100, 30);
    s.shutdown_at_us = Some(5_000_000);
    let mut breaker = CircuitBreaker::new();
    let mut rate = AdaptiveRate::new();
    let mut runtime = Runtime::new(1);
    assert_eq!(runtime.on_lease(LeaseReply::Leased, 0), RuntimeAction::Run);
    assert!(runtime.job_started());
    runtime.stop_accepting();
    let run = run_job(&s, &mut breaker, &mut rate, &mut |_, _, _| (OutcomeKind::HttpOk, 50_000));
    assert!(run.batches.last().unwrap().terminal);
    assert_eq!(run.batches.iter().filter(|b| b.terminal).count(), 1);
    assert!(run.end_us <= 5_000_000 + 2_000_000);
    assert!(run.send_times.iter().all(|&t| t <= 5_000_000));
    assert_eq!(total(&run.batches), run.send_times.len() as u64);
    assert!(total(&run.batches) >= 450);
    runtime.job_finished(total(&run.batches));
    assert_eq!(runtime.next_action(), RuntimeAction::Exit);
    assert!(!runtime.job_started());
}

#[test]
fn job_concurrency_cap() {
    let mut runtime = Runtime::new(1);
    let mut breaker = CircuitBreaker::new();
    let mut rate = AdaptiveRate::new();
    let mut queue = 2;
    let mut clock = 0u64;
    let mut runs: Vec<Run> = Vec::new();
    while queue > 0 {
        assert_eq!(runtime.next_action(), RuntimeAction::Lease);
        assert_eq!(runtime.on_lease(LeaseReply::Leased, MID), RuntimeAction::Run);
        assert!(runtime.job_started());
        queue -= 1;
        assert_eq!(runtime.next_action(), RuntimeAction::Hold);
        assert!(!runtime.job_started());
        let mut s = setup(10, 2);
        s.start_us = clock;
        let run = run_job(&s, &mut breaker, &mut rate, &mut |_, _, _| (OutcomeKind::HttpOk, 2_000));
        clock = run.end_us + 1_000;
        runtime.job_finished(total(&run.batches));
        runs.push(run);
    }
    assert_eq!(runtime.active_tasks(), 0);
    let first_terminal = runs[0].batches.last().unwrap();
    assert!(first_terminal.terminal);
    assert!(runs[1].batches[0].timestamp_ms > first_terminal.timestamp_ms);
    assert!(runs[1].batches[0].window_start_ms > first_terminal.timestamp_ms);
    assert_eq!(runtime.requests_processed(), total(&runs[0].batches) + total(&runs[1].batches));
    assert_eq!(runtime.on_lease(LeaseReply::Empty, MID), RuntimeAction::Sleep(750));
}

#[test]
fn one_eager_fiber_records_what_the_bucket_grants() {
    for &(rps, duration) in &[(1u32, 1u64), (1, 4), (3, 5), (25, 3), (400, 2)] {
        let mut s = setup(rps, duration);
        s.engine = EngineConfig { default_concurrency: 1, ..EngineConfig::default() };
        let mut breaker = CircuitBreaker::new();
        let mut rate = AdaptiveRate::new();
        let mut instant = |_: u64, _: u64, _: u32| (OutcomeKind::HttpOk, 0);
        let run = run_job(&s, &mut breaker, &mut rate, &mut instant);
        let all = total(&run.batches);
        let successes: u64 = run.batches.iter().map(|b| b.success_count).sum();
        let rd = rps as u64 * duration;
        assert_eq!(all, run.send_times.len() as u64);
        assert_eq!(successes, all);
        assert!(all >= rd);
        assert!(all <= rps as u64 + rd);
    }
}
