use loadtest_worker::backoff::{BackoffConfig, RetryPolicy};
use loadtest_worker::circuit_breaker::CircuitBreakerConfig;
use loadtest_worker::config::{
    read_flag, read_text, read_u32, read_u32_strict, read_u64, read_u64_strict, read_usize,
    read_usize_strict, Config, ConfigError, ConfigValues,
};
use loadtest_worker::engine::EngineConfig;

fn text(s: &str) -> Option<String> {
    Some(s.to_string())
}

#[test]
fn defaults_when_nothing_is_given() {
    let cfg = Config::from_values(ConfigValues::none()).unwrap();
    assert_eq!(cfg.worker_id, None);
    assert_eq!(cfg.redis_url, "redis://127.0.0.1:6379");
    assert_eq!(cfg.task_queue, "loadtest:tasks");
    assert_eq!(cfg.result_queue, "loadtest:results");
    assert_eq!(cfg.heartbeat_key, "loadtest:heartbeat");
    assert_eq!(cfg.heartbeat_interval_secs, 5);
    assert_eq!(cfg.batch_report_size, 100);
    assert_eq!(cfg.max_concurrent_requests, 1000);
    assert_eq!(cfg.max_concurrent_tasks, 1);
    assert_eq!(cfg.request_timeout_secs, 30);
    assert_eq!(cfg.connection_timeout_secs, 10);
    assert_eq!(cfg.pool_max_idle_per_host, 100);
    assert!(!cfg.retry_enabled);
    assert_eq!(cfg.retry_max_attempts, 3);
    assert_eq!(cfg.retry_delay_ms, 100);
    assert_eq!(cfg.retry_multiplier_permille, 2000);
    assert_eq!(cfg.backoff(), BackoffConfig::default());
    assert_eq!(cfg.retry_cap_ms, 5000);
    assert_eq!(cfg.retry_jitter_permille, 100);
    assert_eq!(cfg.breaker_failure_threshold, 5);
    assert_eq!(cfg.breaker_reset_timeout_secs, 30);
    assert_eq!(cfg.breaker_half_open_max_inflight, 1);
    assert_eq!(cfg.report_period_ms, 1000);
    assert!(cfg.enable_compression);
    assert!(cfg.enable_http2);
}

#[test]
fn given_values_are_taken() {
    let mut v = ConfigValues::none();
    v.worker_id = text("w-1");
    v.redis_url = text("redis://queue:6380");
    v.task_queue = text("t");
    v.result_queue = text("r");
    v.heartbeat_key = text("hb");
    v.heartbeat_interval_secs = text("9");
    v.batch_report_size = text("250");
    v.max_concurrent_requests = text("64");
    v.max_concurrent_tasks = text("4");
    v.request_timeout_secs = text("2");
    v.connection_timeout_secs = text("1");
    v.pool_max_idle_per_host = text("8");
    v.retry_enabled = text("true");
    v.retry_max_attempts = text("7");
    v.retry_delay_ms = text("100");
    v.retry_multiplier_permille = text("1500");
    v.retry_cap_ms = text("8000");
    v.retry_jitter_permille = text("200");
    v.breaker_failure_threshold = text("3");
    v.breaker_reset_timeout_secs = text("12");
    v.breaker_half_open_max_inflight = text("2");
    v.report_period_ms = text("500");
    v.enable_compression = text("false");
    v.enable_http2 = text("false");
    let cfg = Config::from_values(v).unwrap();
    assert_eq!(cfg.worker_id.as_deref(), Some("w-1"));
    assert_eq!(cfg.redis_url, "redis://queue:6380");
    assert_eq!(cfg.task_queue, "t");
    assert_eq!(cfg.result_queue, "r");
    assert_eq!(cfg.heartbeat_key, "hb");
    assert_eq!(cfg.heartbeat_interval_secs, 9);
    assert_eq!(cfg.batch_report_size, 250);
    assert_eq!(cfg.max_concurrent_requests, 64);
    assert_eq!(cfg.max_concurrent_tasks, 4);
    assert_eq!(cfg.request_timeout_secs, 2);
    assert_eq!(cfg.connection_timeout_secs, 1);
    assert_eq!(cfg.pool_max_idle_per_host, 8);
    assert!(cfg.retry_enabled);
    assert_eq!(cfg.retry_max_attempts, 7);
    assert_eq!(cfg.retry_delay_ms, 100);
    assert_eq!(cfg.retry_multiplier_permille, 1500);
    assert_eq!(cfg.retry_cap_ms, 8000);
    assert_eq!(cfg.retry_jitter_permille, 200);
    assert_eq!(cfg.breaker_failure_threshold, 3);
    assert_eq!(cfg.breaker_reset_timeout_secs, 12);
    assert_eq!(cfg.breaker_half_open_max_inflight, 2);
    assert_eq!(cfg.report_period_ms, 500);
    assert!(!cfg.enable_compression);
    assert!(!cfg.enable_http2);
}

#[test]
fn invalid_heartbeat_interval_is_an_error() {
    let mut v = ConfigValues::none();
    v.heartbeat_interval_secs = text("soon");
    assert_eq!(Config::from_values(v).err(), Some(ConfigError::InvalidHeartbeatInterval));
}

#[test]
fn invalid_batch_report_size_is_an_error() {
    let mut v = ConfigValues::none();
    v.batch_report_size = text("4294967296");
    assert_eq!(Config::from_values(v).err(), Some(ConfigError::InvalidBatchReportSize));
}

#[test]
fn invalid_max_concurrent_requests_is_an_error() {
    let mut v = ConfigValues::none();
    v.max_concurrent_requests = text("-1");
    assert_eq!(Config::from_values(v).err(), Some(ConfigError::InvalidMaxConcurrentRequests));
}

#[test]
fn invalid_request_timeout_is_an_error() {
    let mut v = ConfigValues::none();
    v.request_timeout_secs = text("");
    assert_eq!(Config::from_values(v).err(), Some(ConfigError::InvalidRequestTimeout));
}

#[test]
fn invalid_connection_timeout_is_an_error() {
    let mut v = ConfigValues::none();
    v.connection_timeout_secs = text("1.5");
    assert_eq!(Config::from_values(v).err(), Some(ConfigError::InvalidConnectionTimeout));
}

#[test]
fn invalid_pool_max_idle_is_an_error() {
    let mut v = ConfigValues::none();
    v.pool_max_idle_per_host = text("many");
    assert_eq!(Config::from_values(v).err(), Some(ConfigError::InvalidPoolMaxIdle));
}

#[test]
fn the_first_fault_in_field_order_is_reported() {
    let mut v = ConfigValues::none();
    v.pool_max_idle_per_host = text("x");
    v.request_timeout_secs = text("x");
    v.batch_report_size = text("x");
    assert_eq!(Config::from_values(v).err(), Some(ConfigError::InvalidBatchReportSize));
    let mut w = ConfigValues::none();
    w.pool_max_idle_per_host = text("x");
    w.connection_timeout_secs = text("x");
    assert_eq!(Config::from_values(w).err(), Some(ConfigError::InvalidConnectionTimeout));
}

#[test]
fn other_unreadable_values_take_their_default() {
    let mut v = ConfigValues::none();
    v.retry_enabled = text("yes");
    v.retry_max_attempts = text("three");
    v.retry_delay_ms = text("-5");
    v.enable_compression = text("0");
    v.enable_http2 = text("TRUE");
    v.max_concurrent_tasks = text("");
    v.report_period_ms = text("1s");
    v.breaker_failure_threshold = text("99999999999");
    let cfg = Config::from_values(v).unwrap();
    assert!(!cfg.retry_enabled);
    assert_eq!(cfg.retry_max_attempts, 3);
    assert_eq!(cfg.retry_delay_ms, 100);
    assert!(cfg.enable_compression);
    assert!(cfg.enable_http2);
    assert_eq!(cfg.max_concurrent_tasks, 1);
    assert_eq!(cfg.report_period_ms, 1000);
    assert_eq!(cfg.breaker_failure_threshold, 5);
}

#[test]
fn readers() {
    assert_eq!(read_u64_strict(&None, 5), Some(5));
    assert_eq!(read_u64_strict(&text("12"), 5), Some(12));
    assert_eq!(read_u64_strict(&text("x"), 5), None);
    assert_eq!(read_u32_strict(&text("4294967296"), 5), None);
    assert_eq!(read_u32_strict(&text("+3"), 5), Some(3));
    assert_eq!(read_usize_strict(&None, 8), Some(8));
    assert_eq!(read_usize_strict(&text("9"), 8), Some(9));
    assert_eq!(read_usize_strict(&text("9 "), 8), None);
    assert_eq!(read_u64(&text("x"), 5), 5);
    assert_eq!(read_u64(&text("6"), 5), 6);
    assert_eq!(read_u32(&None, 5), 5);
    assert_eq!(read_u32(&text("66"), 5), 66);
    assert_eq!(read_usize(&text("?"), 5), 5);
    assert_eq!(read_usize(&text("0"), 5), 0);
    assert!(read_flag(&None, true));
    assert!(!read_flag(&None, false));
    assert!(read_flag(&text("true"), false));
    assert!(!read_flag(&text("false"), true));
    assert!(read_flag(&text("nope"), true));
    assert_eq!(read_text(None, "dflt"), "dflt");
    assert_eq!(read_text(text("given"), "dflt"), "given");
    assert_eq!(read_text(text(""), "dflt"), "");
}

#[test]
fn derived_settings() {
    let mut v = ConfigValues::none();
    v.retry_enabled = text("true");
    v.retry_max_attempts = text("4");
    v.retry_delay_ms = text("250");
    v.max_concurrent_requests = text("64");
    v.breaker_reset_timeout_secs = text("7");
    v.report_period_ms = text("250");
    v.batch_report_size = text("40");
    let cfg = Config::from_values(v).unwrap();
    let backoff = BackoffConfig {
        initial_delay_ms: 250,
        max_delay_ms: 5000,
        multiplier_permille: 2000,
        jitter_permille: 100,
    };
    assert_eq!(cfg.backoff(), backoff);
    assert_eq!(cfg.retry_policy(), RetryPolicy { max_attempts: 4, backoff });
    assert_eq!(
        cfg.breaker(),
        CircuitBreakerConfig { failure_threshold: 5, reset_timeout_ms: 7000, half_open_max_inflight: 1 }
    );
    let e = cfg.engine(EngineConfig::default());
    assert_eq!(e.report_period_ms, 250);
    assert_eq!(e.report_batch_size, 40);
    assert_eq!(e.fiber_ceiling, 64);
    assert_eq!(e.drain_window_ms, 2000);
    assert_eq!(e.default_concurrency, 50);
}

#[test]
fn a_sender_tries_once_even_where_no_attempt_is_configured() {
    let mut v = ConfigValues::none();
    v.retry_enabled = text("true");
    v.retry_max_attempts = text("0");
    let cfg = Config::from_values(v).unwrap();
    assert_eq!(cfg.retry_max_attempts, 0);
    assert_eq!(cfg.retry_policy().max_attempts, 1);
}

#[test]
fn retries_off_by_default_mean_one_attempt() {
    let cfg = Config::from_values(ConfigValues::none()).unwrap();
    assert_eq!(cfg.retry_policy().max_attempts, 1);
    assert_eq!(cfg.breaker(), CircuitBreakerConfig::default());
}

#[test]
fn breaker_timeout_stops_at_the_largest_u64() {
    let mut v = ConfigValues::none();
    v.breaker_reset_timeout_secs = text("18446744073709551615");
    let cfg = Config::from_values(v).unwrap();
    assert_eq!(cfg.breaker().reset_timeout_ms, u64::MAX);
}
