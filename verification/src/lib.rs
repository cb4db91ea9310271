//! The core of a load-test worker, with its behaviour stated in contracts and proved.
//!
//! A worker leases jobs, drives requests at a target at a set rate, and reports what it
//! measured. Everything the worker decides is decided here: when a request may go out
//! ([`rate_limiter`], [`circuit_breaker`], [`upstream`]), whether it is tried again and after
//! how long ([`backoff`]), what its outcome means ([`http_client`], [`metrics`]), what each
//! fiber and the reporter of a job do next ([`engine`]), what holds of a whole job however
//! its fibers interleave ([`job`]), and when the worker takes its next job ([`worker`],
//! [`registry`], [`config`]).
//!
//! Nothing here sleeps, sends or reads a clock. Callers pass in the time and the outcome of
//! what they did, and are told what to do next.

pub mod arith;
pub mod backoff;
pub mod circuit_breaker;
pub mod config;
pub mod engine;
pub mod growth;
pub mod histogram;
pub mod http_client;
pub mod ids;
pub mod job;
pub mod metrics;
pub mod metrics_event;
pub mod models;
pub mod percentile;
pub mod rate_limiter;
pub mod registry;
pub mod tenant;
pub mod text;
pub mod upstream;
pub mod worker;
