//! What the sender concludes from a response or a failure: the outcome, its name for
//! reports, whether another attempt is worth making, and the record of the request.

use crate::backoff::AttemptResult;
use crate::metrics::Recording;
use crate::models::{Outcome, OutcomeKind, RequestMetric};
use crate::arith::{saturating_mul, saturating_product};
use crate::text::{bytes_contain, occurs_in, push_decimal, decimal_text};
use vstd::prelude::*;
use vstd::string::StringExecFns;
use vstd::string::StringSliceAdditionalSpecFns;
use vstd::utf8::encode_utf8;

verus! {

/// How a request failed without a response.
#[derive(Clone, Copy, Debug, PartialEq, Eq, Structural)]
pub enum TransportFailure {
    Timeout,
    Connect,
    Tls,
    Dns,
    Other,
}

/// The kind of outcome that a response with the given status is: a success from 200 to 399,
/// an error with any other status.
pub open spec fn kind_of_status(status: u16) -> OutcomeKind {
    if 200 <= status <= 399 {
        OutcomeKind::HttpOk
    } else {
        OutcomeKind::HttpError(status)
    }
}

/// The kind of outcome that a failure of the transport is.
pub open spec fn kind_of_failure(failure: TransportFailure) -> OutcomeKind {
    match failure {
        TransportFailure::Timeout => OutcomeKind::Timeout,
        TransportFailure::Connect => OutcomeKind::Connect,
        TransportFailure::Tls => OutcomeKind::Tls,
        TransportFailure::Dns => OutcomeKind::Dns,
        TransportFailure::Other => OutcomeKind::Other,
    }
}

/// Whether the outcome is a success.
pub open spec fn kind_is_success(kind: OutcomeKind) -> bool {
    kind == OutcomeKind::HttpOk
}

/// Whether another attempt may mend the outcome: any failure of the transport and any
/// status from 500 to 599, never another status.
pub open spec fn kind_is_retryable(kind: OutcomeKind) -> bool {
    match kind {
        OutcomeKind::HttpOk => false,
        OutcomeKind::HttpError(status) => 500 <= status <= 599,
        _ => true,
    }
}

/// What an outcome means for the retry loop.
pub open spec fn attempt_result_of(kind: OutcomeKind) -> AttemptResult {
    if kind_is_success(kind) {
        AttemptResult::Success
    } else if kind_is_retryable(kind) {
        AttemptResult::Retryable
    } else {
        AttemptResult::Final
    }
}

impl Outcome {
    /// The outcome of a request that was answered with `status` after `latency_us`.
    pub fn from_response(status: u16, latency_us: u64, observed_at: u64) -> (o: Outcome)
        ensures
            o == (Outcome {
                kind: kind_of_status(status),
                status: Some(status),
                latency_us,
                observed_at,
            }),
    {
        let kind = if 200 <= status && status <= 399 {
            OutcomeKind::HttpOk
        } else {
            OutcomeKind::HttpError(status)
        };
        Outcome { kind, status: Some(status), latency_us, observed_at }
    }

    /// The outcome of a request that failed without a response after `latency_us`.
    pub fn from_failure(failure: TransportFailure, latency_us: u64, observed_at: u64) -> (o:
        Outcome)
        ensures
            o == (Outcome {
                kind: kind_of_failure(failure),
                status: None,
                latency_us,
                observed_at,
            }),
    {
        let kind = match failure {
            TransportFailure::Timeout => OutcomeKind::Timeout,
            TransportFailure::Connect => OutcomeKind::Connect,
            TransportFailure::Tls => OutcomeKind::Tls,
            TransportFailure::Dns => OutcomeKind::Dns,
            TransportFailure::Other => OutcomeKind::Other,
        };
        Outcome { kind, status: None, latency_us, observed_at }
    }

    /// Whether the request succeeded.
    pub fn is_success(&self) -> (yes: bool)
        ensures
            yes == kind_is_success(self.kind),
    {
        match self.kind {
            OutcomeKind::HttpOk => true,
            _ => false,
        }
    }

    /// Whether another attempt may mend the outcome.
    pub fn is_retryable(&self) -> (yes: bool)
        ensures
            yes == kind_is_retryable(self.kind),
    {
        match self.kind {
            OutcomeKind::HttpOk => false,
            OutcomeKind::HttpError(status) => 500 <= status && status <= 599,
            _ => true,
        }
    }

    /// What the outcome means for the retry loop.
    pub fn attempt_result(&self) -> (r: AttemptResult)
        ensures
            r == attempt_result_of(self.kind),
    {
        if self.is_success() {
            AttemptResult::Success
        } else if self.is_retryable() {
            AttemptResult::Retryable
        } else {
            AttemptResult::Final
        }
    }

    /// The latency in whole milliseconds.
    pub fn latency_ms(&self) -> (ms: u64)
        ensures
            ms == self.latency_us / 1000,
    {
        self.latency_us / 1000
    }
}

/// The name under which a status is reported as an error: every status from 400 to 499 is
/// a client error, every status from 500 on a server error, and a status below 400 is no
/// error that has a name.
pub open spec fn status_error_name(status: u16) -> Seq<char> {
    if status < 400 {
        "UNKNOWN"@
    } else if status < 500 {
        "CLIENT_ERROR"@
    } else {
        "SERVER_ERROR"@
    }
}

/// The name under which a status is reported as an error.
pub fn classify_error_type(status_code: u16) -> (name: String)
    ensures
        name@ == status_error_name(status_code),
{
    let name: &'static str = if status_code < 400 {
        "UNKNOWN"
    } else if status_code < 500 {
        "CLIENT_ERROR"
    } else {
        "SERVER_ERROR"
    };
    String::from_str(name)
}

/// Whether the message holds the word.
pub open spec fn mentions(message: Seq<char>, word: Seq<char>) -> bool {
    occurs_in(encode_utf8(word), encode_utf8(message))
}

/// The failure of the transport that an error message speaks of, going by the first of
/// these words it holds: timeout, connection, DNS or dns, TLS or SSL.
pub open spec fn failure_in_message(message: Seq<char>) -> TransportFailure {
    if mentions(message, "timeout"@) {
        TransportFailure::Timeout
    } else if mentions(message, "connection"@) {
        TransportFailure::Connect
    } else if mentions(message, "DNS"@) || mentions(message, "dns"@) {
        TransportFailure::Dns
    } else if mentions(message, "TLS"@) || mentions(message, "SSL"@) {
        TransportFailure::Tls
    } else {
        TransportFailure::Other
    }
}

/// The name under which a failure of the transport is reported.
pub open spec fn failure_name(failure: TransportFailure) -> Seq<char> {
    match failure {
        TransportFailure::Timeout => "TIMEOUT"@,
        TransportFailure::Connect => "CONNECTION_ERROR"@,
        TransportFailure::Dns => "DNS_ERROR"@,
        TransportFailure::Tls => "TLS_ERROR"@,
        TransportFailure::Other => "NETWORK_ERROR"@,
    }
}

/// The failure of the transport that an error message speaks of.
pub fn failure_from_message(message: &str) -> (failure: TransportFailure)
    ensures
        failure == failure_in_message(message@),
{
    let m = message.as_bytes();
    if bytes_contain(m, "timeout".as_bytes()) {
        TransportFailure::Timeout
    } else if bytes_contain(m, "connection".as_bytes()) {
        TransportFailure::Connect
    } else if bytes_contain(m, "DNS".as_bytes()) || bytes_contain(m, "dns".as_bytes()) {
        TransportFailure::Dns
    } else if bytes_contain(m, "TLS".as_bytes()) || bytes_contain(m, "SSL".as_bytes()) {
        TransportFailure::Tls
    } else {
        TransportFailure::Other
    }
}

/// The failure of the transport that an error is, going by what the client says of it and,
/// where that leaves it open, by its message: a timeout is a timeout; a failure to connect is
/// one of name resolution or of TLS where the message speaks of that, a refused connection
/// otherwise; anything else goes by its message alone.
pub open spec fn failure_of_error(
    timed_out: bool,
    connecting: bool,
    message: Seq<char>,
) -> TransportFailure {
    if timed_out {
        TransportFailure::Timeout
    } else if connecting {
        match failure_in_message(message) {
            TransportFailure::Dns => TransportFailure::Dns,
            TransportFailure::Tls => TransportFailure::Tls,
            _ => TransportFailure::Connect,
        }
    } else {
        failure_in_message(message)
    }
}

/// The failure of the transport that an error is, given whether the client calls it a
/// timeout, whether it calls it a failure to connect, and its message.
pub fn transport_failure(timed_out: bool, connecting: bool, message: &str) -> (failure:
    TransportFailure)
    ensures
        failure == failure_of_error(timed_out, connecting, message@),
{
    if timed_out {
        TransportFailure::Timeout
    } else if connecting {
        match failure_from_message(message) {
            TransportFailure::Dns => TransportFailure::Dns,
            TransportFailure::Tls => TransportFailure::Tls,
            _ => TransportFailure::Connect,
        }
    } else {
        failure_from_message(message)
    }
}

/// The name under which a failure of the transport is reported.
pub fn failure_type_name(failure: TransportFailure) -> (name: String)
    ensures
        name@ == failure_name(failure),
{
    let name: &'static str = match failure {
        TransportFailure::Timeout => "TIMEOUT",
        TransportFailure::Connect => "CONNECTION_ERROR",
        TransportFailure::Dns => "DNS_ERROR",
        TransportFailure::Tls => "TLS_ERROR",
        TransportFailure::Other => "NETWORK_ERROR",
    };
    String::from_str(name)
}

/// The name under which the failure that an error message speaks of is reported.
pub fn classify_error_from_message(message: &str) -> (name: String)
    ensures
        name@ == failure_name(failure_in_message(message@)),
{
    failure_type_name(failure_from_message(message))
}

/// The error text of a response with an error status: `HTTP` and the status.
pub open spec fn status_error_text(status: u16) -> Seq<char> {
    "HTTP "@ + decimal_text(status as nat)
}

impl RequestMetric {
    /// The record of a request that was answered with `status_code` after `latency_ms`. A
    /// status from 200 to 399 is a success; any other carries its error text and name.
    pub fn from_response(status_code: u16, latency_ms: u64, timestamp_ms: u64) -> (m:
        RequestMetric)
        ensures
            m.timestamp_ms == timestamp_ms,
            m.latency_ms == latency_ms,
            m.ttfb_ms == latency_ms,
            m.dns_lookup_ms == 0 && m.tcp_connection_ms == 0 && m.tls_handshake_ms == 0,
            m.status_code == status_code,
            m.success == kind_is_success(kind_of_status(status_code)),
            m.success ==> m.error is None && m.error_type is None,
            !m.success ==> {
                &&& m.error matches Some(text) && text@ == status_error_text(status_code)
                &&& m.error_type matches Some(name) && name@ == status_error_name(status_code)
            },
    {
        let success = 200 <= status_code && status_code <= 399;
        let (error, error_type) = if success {
            (None, None)
        } else {
            let mut text = String::from_str("HTTP ");
            push_decimal(&mut text, status_code as u64);
            (Some(text), Some(classify_error_type(status_code)))
        };
        RequestMetric {
            timestamp_ms,
            latency_ms,
            dns_lookup_ms: 0,
            tcp_connection_ms: 0,
            tls_handshake_ms: 0,
            ttfb_ms: latency_ms,
            status_code,
            success,
            error,
            error_type,
        }
    }

    /// What the request adds to a metrics window: a success with its latency, an error
    /// response with its latency, a failure without a response without one. The latency is
    /// taken to microseconds, as far as `u64` goes.
    pub open spec fn recording_of(self) -> Recording {
        if self.success {
            Recording::Success(saturating_product(self.latency_ms, 1000))
        } else if self.status_code != 0 {
            Recording::Error(Some(saturating_product(self.latency_ms, 1000)))
        } else {
            Recording::Error(None)
        }
    }

    /// What the request adds to a metrics window.
    pub fn recording(&self) -> (r: Recording)
        ensures
            r == self.recording_of(),
    {
        if self.success {
            Recording::Success(saturating_mul(self.latency_ms, 1000))
        } else if self.status_code != 0 {
            Recording::Error(Some(saturating_mul(self.latency_ms, 1000)))
        } else {
            Recording::Error(None)
        }
    }

    /// The record of a request that failed without a response after `latency_ms`, with the
    /// message of the failure; the failure is named by what the message speaks of.
    pub fn from_failure(message: String, latency_ms: u64, timestamp_ms: u64) -> (m: RequestMetric)
        ensures
            m.timestamp_ms == timestamp_ms,
            m.latency_ms == latency_ms,
            m.ttfb_ms == 0,
            m.dns_lookup_ms == 0 && m.tcp_connection_ms == 0 && m.tls_handshake_ms == 0,
            m.status_code == 0,
            !m.success,
            m.error == Some(message),
            m.error_type matches Some(name) && name@ == failure_name(failure_in_message(message@)),
    {
        let name = classify_error_from_message(message.as_str());
        RequestMetric {
            timestamp_ms,
            latency_ms,
            dns_lookup_ms: 0,
            tcp_connection_ms: 0,
            tls_handshake_ms: 0,
            ttfb_ms: 0,
            status_code: 0,
            success: false,
            error: Some(message),
            error_type: Some(name),
        }
    }
}

} // verus!
