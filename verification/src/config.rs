//! The worker's settings, read from named values.
//!
//! The caller collects the values (from the environment, as a rule) and hands them over as
//! text; this module applies the defaults, reads the numbers and flags, and says which value
//! is at fault where one cannot be read.

use crate::backoff::{BackoffConfig, RetryPolicy};
use crate::circuit_breaker::CircuitBreakerConfig;
use crate::engine::EngineConfig;
use crate::arith::{saturating_mul, saturating_product};
use crate::text::{
    parse_bool, parse_u32, parse_u64, parse_usize, parsed_flag, parsed_unsigned,
};
use vstd::prelude::*;
use vstd::string::StringExecFns;
use vstd::utf8::encode_utf8;

verus! {

/// The settings of a worker.
#[derive(Clone, Debug)]
pub struct Config {
    /// The worker's identity, where one is configured.
    pub worker_id: Option<String>,
    pub redis_url: String,
    pub task_queue: String,
    pub result_queue: String,
    pub heartbeat_key: String,
    pub heartbeat_interval_secs: u64,
    pub batch_report_size: u32,
    pub max_concurrent_requests: usize,
    pub max_concurrent_tasks: usize,
    pub request_timeout_secs: u64,
    pub connection_timeout_secs: u64,
    pub pool_max_idle_per_host: usize,
    pub retry_enabled: bool,
    pub retry_max_attempts: u32,
    pub retry_delay_ms: u64,
    pub retry_multiplier_permille: u64,
    pub retry_cap_ms: u64,
    pub retry_jitter_permille: u64,
    pub breaker_failure_threshold: u32,
    pub breaker_reset_timeout_secs: u64,
    pub breaker_half_open_max_inflight: u32,
    pub report_period_ms: u64,
    pub enable_compression: bool,
    pub enable_http2: bool,
}

/// The values a configuration is read from, each as the text it was given in, or absent.
#[derive(Clone, Debug)]
pub struct ConfigValues {
    pub worker_id: Option<String>,
    pub redis_url: Option<String>,
    pub task_queue: Option<String>,
    pub result_queue: Option<String>,
    pub heartbeat_key: Option<String>,
    pub heartbeat_interval_secs: Option<String>,
    pub batch_report_size: Option<String>,
    pub max_concurrent_requests: Option<String>,
    pub max_concurrent_tasks: Option<String>,
    pub request_timeout_secs: Option<String>,
    pub connection_timeout_secs: Option<String>,
    pub pool_max_idle_per_host: Option<String>,
    pub retry_enabled: Option<String>,
    pub retry_max_attempts: Option<String>,
    pub retry_delay_ms: Option<String>,
    pub retry_multiplier_permille: Option<String>,
    pub retry_cap_ms: Option<String>,
    pub retry_jitter_permille: Option<String>,
    pub breaker_failure_threshold: Option<String>,
    pub breaker_reset_timeout_secs: Option<String>,
    pub breaker_half_open_max_inflight: Option<String>,
    pub report_period_ms: Option<String>,
    pub enable_compression: Option<String>,
    pub enable_http2: Option<String>,
}

/// The value that cannot be read.
#[derive(Clone, Copy, Debug, PartialEq, Eq, Structural)]
pub enum ConfigError {
    InvalidHeartbeatInterval,
    InvalidBatchReportSize,
    InvalidMaxConcurrentRequests,
    InvalidRequestTimeout,
    InvalidConnectionTimeout,
    InvalidPoolMaxIdle,
}

/// The number a value stands for where it must be readable: the default where the value is
/// absent, nothing where it is there and is no number of at most `max`.
pub open spec fn strict_number(value: Option<String>, default: nat, max: nat) -> Option<nat> {
    match value {
        None => Some(default),
        Some(text) => parsed_unsigned(encode_utf8(text@), max),
    }
}

/// The number a value stands for where a default will do: the default where the value is
/// absent or is no number of at most `max`.
pub open spec fn lenient_number(value: Option<String>, default: nat, max: nat) -> nat {
    match strict_number(value, default, max) {
        Some(n) => n,
        None => default,
    }
}

/// The flag a value stands for: the default where the value is absent or is neither `true`
/// nor `false`.
pub open spec fn lenient_flag(value: Option<String>, default: bool) -> bool {
    match value {
        None => default,
        Some(text) => match parsed_flag(encode_utf8(text@)) {
            Some(flag) => flag,
            None => default,
        },
    }
}

/// The text a value stands for: the default where the value is absent.
pub open spec fn text_or(value: Option<String>, default: Seq<char>) -> Seq<char> {
    match value {
        None => default,
        Some(text) => text@,
    }
}

/// Reads a `u64` that must be readable.
pub fn read_u64_strict(value: &Option<String>, default: u64) -> (n: Option<u64>)
    ensures
        (match n {
            Some(v) => Some(v as nat),
            None => None::<nat>,
        }) == strict_number(*value, default as nat, u64::MAX as nat),
{
    match value {
        None => Some(default),
        Some(text) => parse_u64(text.as_str()),
    }
}

/// Reads a `u32` that must be readable.
pub fn read_u32_strict(value: &Option<String>, default: u32) -> (n: Option<u32>)
    ensures
        (match n {
            Some(v) => Some(v as nat),
            None => None::<nat>,
        }) == strict_number(*value, default as nat, u32::MAX as nat),
{
    match value {
        None => Some(default),
        Some(text) => parse_u32(text.as_str()),
    }
}

/// Reads a `usize` that must be readable.
pub fn read_usize_strict(value: &Option<String>, default: usize) -> (n: Option<usize>)
    ensures
        (match n {
            Some(v) => Some(v as nat),
            None => None::<nat>,
        }) == strict_number(*value, default as nat, usize::MAX as nat),
{
    match value {
        None => Some(default),
        Some(text) => parse_usize(text.as_str()),
    }
}

/// Reads a `u64` for which a default will do.
pub fn read_u64(value: &Option<String>, default: u64) -> (n: u64)
    ensures
        n == lenient_number(*value, default as nat, u64::MAX as nat),
{
    match read_u64_strict(value, default) {
        Some(v) => v,
        None => default,
    }
}

/// Reads a `u32` for which a default will do.
pub fn read_u32(value: &Option<String>, default: u32) -> (n: u32)
    ensures
        n == lenient_number(*value, default as nat, u32::MAX as nat),
{
    match read_u32_strict(value, default) {
        Some(v) => v,
        None => default,
    }
}

/// Reads a `usize` for which a default will do.
pub fn read_usize(value: &Option<String>, default: usize) -> (n: usize)
    ensures
        n == lenient_number(*value, default as nat, usize::MAX as nat),
{
    match read_usize_strict(value, default) {
        Some(v) => v,
        None => default,
    }
}

/// Reads a flag.
pub fn read_flag(value: &Option<String>, default: bool) -> (flag: bool)
    ensures
        flag == lenient_flag(*value, default),
{
    match value {
        None => default,
        Some(text) => match parse_bool(text.as_str()) {
            Some(flag) => flag,
            None => default,
        },
    }
}

/// Takes a text, or the default where there is none.
pub fn read_text(value: Option<String>, default: &str) -> (text: String)
    ensures
        text@ == text_or(value, default@),
{
    match value {
        None => String::from_str(default),
        Some(text) => text,
    }
}

/// The value that is at fault, the first found in the order of the fields; nothing where
/// every value that must be readable is.
pub open spec fn config_fault(v: ConfigValues) -> Option<ConfigError> {
    if strict_number(v.heartbeat_interval_secs, 5, u64::MAX as nat) is None {
        Some(ConfigError::InvalidHeartbeatInterval)
    } else if strict_number(v.batch_report_size, 100, u32::MAX as nat) is None {
        Some(ConfigError::InvalidBatchReportSize)
    } else if strict_number(v.max_concurrent_requests, 1000, usize::MAX as nat) is None {
        Some(ConfigError::InvalidMaxConcurrentRequests)
    } else if strict_number(v.request_timeout_secs, 30, u64::MAX as nat) is None {
        Some(ConfigError::InvalidRequestTimeout)
    } else if strict_number(v.connection_timeout_secs, 10, u64::MAX as nat) is None {
        Some(ConfigError::InvalidConnectionTimeout)
    } else if strict_number(v.pool_max_idle_per_host, 100, usize::MAX as nat) is None {
        Some(ConfigError::InvalidPoolMaxIdle)
    } else {
        None
    }
}

/// Whether `cfg` is what the values say, with the defaults where they say nothing.
pub open spec fn config_reads(cfg: Config, v: ConfigValues) -> bool {
    &&& cfg.worker_id == v.worker_id
    &&& cfg.redis_url@ == text_or(v.redis_url, "redis://127.0.0.1:6379"@)
    &&& cfg.task_queue@ == text_or(v.task_queue, "loadtest:tasks"@)
    &&& cfg.result_queue@ == text_or(v.result_queue, "loadtest:results"@)
    &&& cfg.heartbeat_key@ == text_or(v.heartbeat_key, "loadtest:heartbeat"@)
    &&& Some(cfg.heartbeat_interval_secs as nat) == strict_number(
        v.heartbeat_interval_secs,
        5,
        u64::MAX as nat,
    )
    &&& Some(cfg.batch_report_size as nat) == strict_number(
        v.batch_report_size,
        100,
        u32::MAX as nat,
    )
    &&& Some(cfg.max_concurrent_requests as nat) == strict_number(
        v.max_concurrent_requests,
        1000,
        usize::MAX as nat,
    )
    &&& cfg.max_concurrent_tasks == lenient_number(v.max_concurrent_tasks, 1, usize::MAX as nat)
    &&& Some(cfg.request_timeout_secs as nat) == strict_number(
        v.request_timeout_secs,
        30,
        u64::MAX as nat,
    )
    &&& Some(cfg.connection_timeout_secs as nat) == strict_number(
        v.connection_timeout_secs,
        10,
        u64::MAX as nat,
    )
    &&& Some(cfg.pool_max_idle_per_host as nat) == strict_number(
        v.pool_max_idle_per_host,
        100,
        usize::MAX as nat,
    )
    &&& cfg.retry_enabled == lenient_flag(v.retry_enabled, false)
    &&& cfg.retry_max_attempts == lenient_number(v.retry_max_attempts, 3, u32::MAX as nat)
    &&& cfg.retry_delay_ms == lenient_number(v.retry_delay_ms, 100, u64::MAX as nat)
    &&& cfg.retry_multiplier_permille == lenient_number(
        v.retry_multiplier_permille,
        2000,
        u64::MAX as nat,
    )
    &&& cfg.retry_cap_ms == lenient_number(v.retry_cap_ms, 5000, u64::MAX as nat)
    &&& cfg.retry_jitter_permille == lenient_number(v.retry_jitter_permille, 100, u64::MAX as nat)
    &&& cfg.breaker_failure_threshold == lenient_number(
        v.breaker_failure_threshold,
        5,
        u32::MAX as nat,
    )
    &&& cfg.breaker_reset_timeout_secs == lenient_number(
        v.breaker_reset_timeout_secs,
        30,
        u64::MAX as nat,
    )
    &&& cfg.breaker_half_open_max_inflight == lenient_number(
        v.breaker_half_open_max_inflight,
        1,
        u32::MAX as nat,
    )
    &&& cfg.report_period_ms == lenient_number(v.report_period_ms, 1000, u64::MAX as nat)
    &&& cfg.enable_compression == lenient_flag(v.enable_compression, true)
    &&& cfg.enable_http2 == lenient_flag(v.enable_http2, true)
}

impl ConfigValues {
    /// No value given: every setting takes its default.
    pub fn none() -> (v: ConfigValues)
        ensures
            v.worker_id is None,
            v.redis_url is None,
            v.task_queue is None,
            v.result_queue is None,
            v.heartbeat_key is None,
            v.heartbeat_interval_secs is None,
            v.batch_report_size is None,
            v.max_concurrent_requests is None,
            v.max_concurrent_tasks is None,
            v.request_timeout_secs is None,
            v.connection_timeout_secs is None,
            v.pool_max_idle_per_host is None,
            v.retry_enabled is None,
            v.retry_max_attempts is None,
            v.retry_delay_ms is None,
            v.retry_multiplier_permille is None,
            v.retry_cap_ms is None,
            v.retry_jitter_permille is None,
            v.breaker_failure_threshold is None,
            v.breaker_reset_timeout_secs is None,
            v.breaker_half_open_max_inflight is None,
            v.report_period_ms is None,
            v.enable_compression is None,
            v.enable_http2 is None,
            config_fault(v) is None,
    {
        ConfigValues {
            worker_id: None,
            redis_url: None,
            task_queue: None,
            result_queue: None,
            heartbeat_key: None,
            heartbeat_interval_secs: None,
            batch_report_size: None,
            max_concurrent_requests: None,
            max_concurrent_tasks: None,
            request_timeout_secs: None,
            connection_timeout_secs: None,
            pool_max_idle_per_host: None,
            retry_enabled: None,
            retry_max_attempts: None,
            retry_delay_ms: None,
            retry_multiplier_permille: None,
            retry_cap_ms: None,
            retry_jitter_permille: None,
            breaker_failure_threshold: None,
            breaker_reset_timeout_secs: None,
            breaker_half_open_max_inflight: None,
            report_period_ms: None,
            enable_compression: None,
            enable_http2: None,
        }
    }
}

impl Config {
    /// Reads the settings from the given values. A value that must be a number and is not
    /// is an error, the first such value in the order of the fields; every other value that
    /// cannot be read takes its default.
    pub fn from_values(values: ConfigValues) -> (read: Result<Config, ConfigError>)
        ensures
            match read {
                Ok(cfg) => config_fault(values) is None && config_reads(cfg, values),
                Err(fault) => config_fault(values) == Some(fault),
            },
    {
        let heartbeat_interval_secs = match read_u64_strict(&values.heartbeat_interval_secs, 5) {
            Some(n) => n,
            None => {
                return Err(ConfigError::InvalidHeartbeatInterval);
            },
        };
        let batch_report_size = match read_u32_strict(&values.batch_report_size, 100) {
            Some(n) => n,
            None => {
                return Err(ConfigError::InvalidBatchReportSize);
            },
        };
        let max_concurrent_requests = match read_usize_strict(
            &values.max_concurrent_requests,
            1000,
        ) {
            Some(n) => n,
            None => {
                return Err(ConfigError::InvalidMaxConcurrentRequests);
            },
        };
        let request_timeout_secs = match read_u64_strict(&values.request_timeout_secs, 30) {
            Some(n) => n,
            None => {
                return Err(ConfigError::InvalidRequestTimeout);
            },
        };
        let connection_timeout_secs = match read_u64_strict(&values.connection_timeout_secs, 10) {
            Some(n) => n,
            None => {
                return Err(ConfigError::InvalidConnectionTimeout);
            },
        };
        let pool_max_idle_per_host = match read_usize_strict(&values.pool_max_idle_per_host, 100) {
            Some(n) => n,
            None => {
                return Err(ConfigError::InvalidPoolMaxIdle);
            },
        };
        let max_concurrent_tasks = read_usize(&values.max_concurrent_tasks, 1);
        let retry_enabled = read_flag(&values.retry_enabled, false);
        let retry_max_attempts = read_u32(&values.retry_max_attempts, 3);
        let retry_delay_ms = read_u64(&values.retry_delay_ms, 100);
        let retry_multiplier_permille = read_u64(&values.retry_multiplier_permille, 2000);
        let retry_cap_ms = read_u64(&values.retry_cap_ms, 5000);
        let retry_jitter_permille = read_u64(&values.retry_jitter_permille, 100);
        let breaker_failure_threshold = read_u32(&values.breaker_failure_threshold, 5);
        let breaker_reset_timeout_secs = read_u64(&values.breaker_reset_timeout_secs, 30);
        let breaker_half_open_max_inflight = read_u32(&values.breaker_half_open_max_inflight, 1);
        let report_period_ms = read_u64(&values.report_period_ms, 1000);
        let enable_compression = read_flag(&values.enable_compression, true);
        let enable_http2 = read_flag(&values.enable_http2, true);
        Ok(
            Config {
                worker_id: values.worker_id,
                redis_url: read_text(values.redis_url, "redis://127.0.0.1:6379"),
                task_queue: read_text(values.task_queue, "loadtest:tasks"),
                result_queue: read_text(values.result_queue, "loadtest:results"),
                heartbeat_key: read_text(values.heartbeat_key, "loadtest:heartbeat"),
                heartbeat_interval_secs,
                batch_report_size,
                max_concurrent_requests,
                max_concurrent_tasks,
                request_timeout_secs,
                connection_timeout_secs,
                pool_max_idle_per_host,
                retry_enabled,
                retry_max_attempts,
                retry_delay_ms,
                retry_multiplier_permille,
                retry_cap_ms,
                retry_jitter_permille,
                breaker_failure_threshold,
                breaker_reset_timeout_secs,
                breaker_half_open_max_inflight,
                report_period_ms,
                enable_compression,
                enable_http2,
            },
        )
    }

    /// The delay schedule the settings describe.
    pub fn backoff(&self) -> (b: BackoffConfig)
        ensures
            b == (BackoffConfig {
                initial_delay_ms: self.retry_delay_ms,
                max_delay_ms: self.retry_cap_ms,
                multiplier_permille: self.retry_multiplier_permille,
                jitter_permille: self.retry_jitter_permille,
            }),
    {
        BackoffConfig {
            initial_delay_ms: self.retry_delay_ms,
            max_delay_ms: self.retry_cap_ms,
            multiplier_permille: self.retry_multiplier_permille,
            jitter_permille: self.retry_jitter_permille,
        }
    }

    /// The retry policy of the sender that the settings describe: one attempt where retries
    /// are off, and one where they are on with no attempt allowed.
    pub fn retry_policy(&self) -> (p: RetryPolicy)
        ensures
            p == RetryPolicy::of_settings(
                self.retry_enabled,
                self.retry_max_attempts,
                BackoffConfig {
                    initial_delay_ms: self.retry_delay_ms,
                    max_delay_ms: self.retry_cap_ms,
                    multiplier_permille: self.retry_multiplier_permille,
                    jitter_permille: self.retry_jitter_permille,
                },
            ),
    {
        RetryPolicy::from_settings(self.retry_enabled, self.retry_max_attempts, self.backoff())
    }

    /// The breaker parameters the settings describe, the timeout in milliseconds.
    pub fn breaker(&self) -> (b: CircuitBreakerConfig)
        ensures
            b == (CircuitBreakerConfig {
                failure_threshold: self.breaker_failure_threshold,
                reset_timeout_ms: saturating_product(self.breaker_reset_timeout_secs, 1000),
                half_open_max_inflight: self.breaker_half_open_max_inflight,
            }),
    {
        CircuitBreakerConfig {
            failure_threshold: self.breaker_failure_threshold,
            reset_timeout_ms: saturating_mul(self.breaker_reset_timeout_secs, 1000),
            half_open_max_inflight: self.breaker_half_open_max_inflight,
        }
    }

    /// The engine settings the configuration describes: the most requests in flight is the
    /// most fibers, as far as `u32` goes; what the configuration does not name keeps the value
    /// of `base`.
    pub fn engine(&self, base: EngineConfig) -> (e: EngineConfig)
        ensures
            e == (EngineConfig {
                fiber_ceiling: if self.max_concurrent_requests > u32::MAX {
                    u32::MAX
                } else {
                    self.max_concurrent_requests as u32
                },
                report_period_ms: self.report_period_ms,
                report_batch_size: self.batch_report_size as u64,
                ..base
            }),
    {
        EngineConfig {
            fiber_ceiling: if self.max_concurrent_requests > u32::MAX as usize {
                u32::MAX
            } else {
                self.max_concurrent_requests as u32
            },
            report_period_ms: self.report_period_ms,
            report_batch_size: self.batch_report_size as u64,
            ..base
        }
    }
}

} // verus!
