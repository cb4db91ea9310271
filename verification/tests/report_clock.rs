use loadtest_worker::engine::{EngineConfig, ReportClock, ReporterAction};

const SECOND: u64 = 1_000_000;

fn settings(period_ms: u64, drain_ms: u64, batch: u64) -> EngineConfig {
    EngineConfig {
        report_period_ms: period_ms,
        drain_window_ms: drain_ms,
        report_batch_size: batch,
        ..EngineConfig::default()
    }
}

#[test]
fn job_of_three_periods_ticks_three_times_then_drains_then_ends() {
    let start = 5 * SECOND;
    let deadline = 8 * SECOND;
    let mut clock = ReportClock::new(&EngineConfig::default(), start, deadline);
    assert_eq!(clock.step(start, false, false, 0), ReporterAction::Sleep(SECOND));
    assert_eq!(clock.step(start + 400_000, false, false, 7), ReporterAction::Sleep(600_000));
    assert_eq!(clock.step(6 * SECOND, false, false, 7), ReporterAction::Tick);
    assert_eq!(clock.step(6 * SECOND + 1, false, false, 0), ReporterAction::Sleep(SECOND - 1));
    assert_eq!(clock.step(7 * SECOND, false, false, 3), ReporterAction::Tick);
    assert_eq!(clock.step(7 * SECOND + 10, false, false, 0), ReporterAction::Sleep(SECOND - 10));
    assert_eq!(clock.step(8 * SECOND, false, false, 3), ReporterAction::Tick);
    assert_eq!(clock.step(8 * SECOND, false, false, 0), ReporterAction::Drain(2 * SECOND));
    assert_eq!(clock.step(9 * SECOND, false, false, 1), ReporterAction::Drain(SECOND));
    assert_eq!(clock.step(10 * SECOND, false, false, 1), ReporterAction::Terminal);
    assert_eq!(clock.step(10 * SECOND, false, false, 0), ReporterAction::Done);
    assert_eq!(clock.step(11 * SECOND, true, true, 9), ReporterAction::Done);
}

#[test]
fn number_of_ticks_is_the_number_of_whole_periods() {
    for periods in 0u64..12 {
        for extra in [0u64, 1, 999_999] {
            let start = 123u64;
            let deadline = start + periods * SECOND + extra;
            let mut clock = ReportClock::new(&settings(1000, 50, 0), start, deadline);
            let mut now = start;
            let mut ticks = 0u64;
            let mut terminals = 0u64;
            loop {
                match clock.step(now, false, false, 0) {
                    ReporterAction::Sleep(us) | ReporterAction::Drain(us) => {
                        assert!(us > 0);
                        now += us;
                    }
                    ReporterAction::Tick => {
                        assert_eq!((now - start) % SECOND, 0);
                        assert!(now <= deadline);
                        ticks += 1;
                    }
                    ReporterAction::Terminal => {
                        assert_eq!(now, deadline + 50_000);
                        terminals += 1;
                    }
                    ReporterAction::Done => break,
                }
            }
            assert_eq!(ticks, periods);
            assert_eq!(terminals, 1);
        }
    }
}

#[test]
fn late_reporter_catches_up_on_the_grid() {
    let mut clock = ReportClock::new(&EngineConfig::default(), 0, 10 * SECOND);
    assert_eq!(clock.step(2 * SECOND + 500_000, false, false, 4), ReporterAction::Tick);
    assert_eq!(clock.step(2 * SECOND + 500_001, false, false, 0), ReporterAction::Tick);
    assert_eq!(
        clock.step(2 * SECOND + 500_002, false, false, 0),
        ReporterAction::Sleep(499_998)
    );
    assert_eq!(clock.step(3 * SECOND, false, false, 0), ReporterAction::Tick);
}

#[test]
fn deadline_between_two_ticks_is_slept_to() {
    let mut clock = ReportClock::new(&EngineConfig::default(), 0, 2 * SECOND + 500_000);
    assert_eq!(clock.step(SECOND, false, false, 0), ReporterAction::Tick);
    assert_eq!(clock.step(2 * SECOND, false, false, 0), ReporterAction::Tick);
    assert_eq!(clock.step(2 * SECOND, false, false, 0), ReporterAction::Sleep(500_000));
    assert_eq!(
        clock.step(2 * SECOND + 500_000, false, false, 0),
        ReporterAction::Drain(2 * SECOND)
    );
}

#[test]
fn drain_ends_as_soon_as_nothing_is_in_flight() {
    let mut clock = ReportClock::new(&EngineConfig::default(), 0, SECOND / 2);
    assert_eq!(clock.step(SECOND / 2, false, false, 0), ReporterAction::Drain(2 * SECOND));
    assert_eq!(clock.step(SECOND / 2 + 10, false, true, 0), ReporterAction::Terminal);
    assert_eq!(clock.step(SECOND / 2 + 20, false, true, 0), ReporterAction::Done);
}

#[test]
fn job_without_fibers_in_flight_at_its_end_reports_at_once() {
    let mut clock = ReportClock::new(&EngineConfig::default(), 0, SECOND / 2);
    assert_eq!(clock.step(SECOND / 2, false, true, 0), ReporterAction::Terminal);
    assert_eq!(clock.step(SECOND / 2, false, true, 0), ReporterAction::Done);
}

#[test]
fn shutdown_skips_the_ticks_and_drains() {
    let mut clock = ReportClock::new(&EngineConfig::default(), 0, 30 * SECOND);
    assert_eq!(clock.step(SECOND, false, false, 5), ReporterAction::Tick);
    assert_eq!(clock.step(5 * SECOND, true, false, 5), ReporterAction::Drain(2 * SECOND));
    assert_eq!(clock.step(6 * SECOND, true, false, 5), ReporterAction::Drain(SECOND));
    assert_eq!(clock.step(6 * SECOND + 1, false, false, 5), ReporterAction::Drain(SECOND - 1));
    assert_eq!(clock.step(7 * SECOND, true, false, 5), ReporterAction::Terminal);
    assert_eq!(clock.step(8 * SECOND, true, false, 5), ReporterAction::Done);
}

#[test]
fn shutdown_with_a_tick_due_does_not_tick() {
    let mut clock = ReportClock::new(&EngineConfig::default(), 0, 30 * SECOND);
    assert_eq!(clock.step(3 * SECOND, true, true, 5), ReporterAction::Terminal);
    assert_eq!(clock.step(3 * SECOND, true, true, 5), ReporterAction::Done);
}

#[test]
fn window_beyond_a_batch_is_reported_early() {
    let mut clock = ReportClock::new(&settings(1000, 2000, 100), 0, 10 * SECOND);
    assert_eq!(clock.step(10, false, false, 100), ReporterAction::Sleep(SECOND - 10));
    assert_eq!(clock.step(20, false, false, 101), ReporterAction::Tick);
    assert_eq!(clock.step(30, false, false, 0), ReporterAction::Sleep(SECOND - 30));
    assert_eq!(clock.step(SECOND, false, false, 0), ReporterAction::Tick);
    assert_eq!(clock.step(SECOND, false, false, 5000), ReporterAction::Tick);
    assert_eq!(clock.step(SECOND, false, false, 0), ReporterAction::Sleep(SECOND));
}

#[test]
fn batch_of_zero_never_reports_early() {
    let mut clock = ReportClock::new(&settings(1000, 2000, 0), 0, 10 * SECOND);
    assert_eq!(clock.step(10, false, false, u64::MAX), ReporterAction::Sleep(SECOND - 10));
}

#[test]
fn period_of_nothing_is_one_microsecond() {
    let mut clock = ReportClock::new(&settings(0, 0, 0), 0, 3);
    assert_eq!(clock.step(0, false, false, 0), ReporterAction::Sleep(1));
    assert_eq!(clock.step(1, false, false, 0), ReporterAction::Tick);
    assert_eq!(clock.step(2, false, false, 0), ReporterAction::Tick);
    assert_eq!(clock.step(3, false, false, 0), ReporterAction::Tick);
    assert_eq!(clock.step(3, false, false, 0), ReporterAction::Terminal);
    assert_eq!(clock.step(3, false, false, 0), ReporterAction::Done);
}

#[test]
fn times_at_the_end_of_the_range_do_not_wrap() {
    let mut clock = ReportClock::new(&settings(u64::MAX, u64::MAX, 0), u64::MAX - 5, u64::MAX);
    assert_eq!(clock.step(u64::MAX - 5, false, false, 0), ReporterAction::Sleep(5));
    assert_eq!(clock.step(u64::MAX - 1, true, false, 0), ReporterAction::Drain(1));
    assert_eq!(clock.step(u64::MAX, true, false, 0), ReporterAction::Terminal);
}
