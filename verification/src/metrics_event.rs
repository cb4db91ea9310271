//! The event that reports one request to whoever listens for single requests.

use vstd::prelude::*;

verus! {

/// One request, as reported on its own.
#[derive(Clone, Debug)]
pub struct MetricEvent {
    pub trace_id: String,
    pub latency_ms: u64,
    pub status: u16,
    pub org: String,
}

impl MetricEvent {
    /// The event of one request under the given trace identifier.
    pub fn with_trace_id(trace_id: String, latency: u64, status: u16, org: String) -> (event:
        MetricEvent)
        ensures
            event.trace_id == trace_id,
            event.latency_ms == latency,
            event.status == status,
            event.org == org,
    {
        MetricEvent { trace_id, latency_ms: latency, status, org }
    }
}

} // verus!
