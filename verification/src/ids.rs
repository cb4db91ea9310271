//! Fresh identifiers, drawn by the `uuid` crate.

use crate::metrics_event::MetricEvent;
use vstd::prelude::*;

verus! {

/// Characters in the text of an identifier: 32 hexadecimal digits and 4 hyphens.
pub const ID_LENGTH: usize = 36;

/// `Uuid::new_v4().to_string()`: a random identifier in its hyphenated lower-case form,
/// which is always `ID_LENGTH` characters long. Nothing else is claimed of it, and two calls
/// need not agree. Not proved.
#[verifier::external_body]
pub(crate) fn random_id() -> (id: String)
    ensures
        id@.len() == ID_LENGTH,
{
    uuid::Uuid::new_v4().to_string()
}

/// The identity a worker runs under, given what is configured and a fresh identifier: the
/// configured one where there is one.
pub fn worker_id_from(configured: Option<String>, fresh: String) -> (id: String)
    ensures
        id == (match configured {
            Some(given) => given,
            None => fresh,
        }),
{
    match configured {
        Some(given) => given,
        None => fresh,
    }
}

/// The identity a worker runs under: the configured one, or a fresh random identifier where
/// none is configured.
pub fn resolve_worker_id(configured: Option<String>) -> (id: String)
    ensures
        configured matches Some(given) ==> id == given,
        configured is None ==> id@.len() == ID_LENGTH,
{
    match configured {
        Some(given) => given,
        None => random_id(),
    }
}

/// The event that reports one request under a fresh trace identifier.
pub fn new_metric(latency: u64, status: u16, org: String) -> (event: MetricEvent)
    ensures
        event.trace_id@.len() == ID_LENGTH,
        event.latency_ms == latency,
        event.status == status,
        event.org == org,
{
    MetricEvent::with_trace_id(random_id(), latency, status, org)
}

} // verus!
