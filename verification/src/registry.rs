//! Registration with the controller: what the worker says of itself, and what it does after
//! each answer.

use crate::models::WorkerRegistration;
use vstd::prelude::*;
use vstd::string::StringExecFns;

verus! {

/// Attempts to register before the worker gives up.
pub const MAX_REGISTRATION_ATTEMPTS: u32 = 5;

/// How the controller answered an attempt to register.
#[derive(Clone, Copy, Debug, PartialEq, Eq, Structural)]
pub enum RegistrationReply {
    /// A status from 200 to 299.
    Accepted,
    /// Any other status.
    Rejected(u16),
    /// No answer.
    Unreachable,
}

/// What the worker does after an attempt to register.
#[derive(Clone, Copy, Debug, PartialEq, Eq, Structural)]
pub enum RegistrationStep {
    /// Done: the worker is registered.
    Registered,
    /// Stop: the controller does not accept the worker's credentials.
    Unauthorized,
    /// Stop: every attempt failed.
    GiveUp,
    /// Try again after this many seconds.
    RetryAfter(u64),
}

/// The answer that a status is.
pub open spec fn reply_of(status: u16) -> RegistrationReply {
    if 200 <= status <= 299 {
        RegistrationReply::Accepted
    } else {
        RegistrationReply::Rejected(status)
    }
}

/// `2^k`.
pub open spec fn pow2(k: nat) -> nat
    decreases k,
{
    if k == 0 {
        1
    } else {
        2 * pow2((k - 1) as nat)
    }
}

/// What follows attempt number `attempt`, counting from 1, given its answer: success ends
/// the loop, a refusal of the credentials (401 or 403) ends it without another try, anything
/// else is tried again after `2^attempt` seconds until the last attempt has failed. An
/// attempt numbered 0 counts as the first.
pub open spec fn step_after(attempt: u32, reply: RegistrationReply) -> RegistrationStep {
    match reply {
        RegistrationReply::Accepted => RegistrationStep::Registered,
        RegistrationReply::Rejected(401) => RegistrationStep::Unauthorized,
        RegistrationReply::Rejected(403) => RegistrationStep::Unauthorized,
        _ => if attempt >= MAX_REGISTRATION_ATTEMPTS {
            RegistrationStep::GiveUp
        } else if attempt == 0 {
            RegistrationStep::RetryAfter(2)
        } else {
            RegistrationStep::RetryAfter(pow2(attempt as nat) as u64)
        },
    }
}

/// The answer that a status is.
pub fn reply_of_status(status: u16) -> (reply: RegistrationReply)
    ensures
        reply == reply_of(status),
{
    if 200 <= status && status <= 299 {
        RegistrationReply::Accepted
    } else {
        RegistrationReply::Rejected(status)
    }
}

/// What the worker does after attempt number `attempt` was answered with `reply`.
pub fn after_attempt(attempt: u32, reply: RegistrationReply) -> (step: RegistrationStep)
    ensures
        step == step_after(attempt, reply),
{
    match reply {
        RegistrationReply::Accepted => RegistrationStep::Registered,
        RegistrationReply::Rejected(401) => RegistrationStep::Unauthorized,
        RegistrationReply::Rejected(403) => RegistrationStep::Unauthorized,
        _ => {
            if attempt >= MAX_REGISTRATION_ATTEMPTS {
                RegistrationStep::GiveUp
            } else {
                proof {
                    reveal_with_fuel(pow2, 5);
                }
                let delay: u64 = if attempt <= 1 {
                    2
                } else if attempt == 2 {
                    4
                } else if attempt == 3 {
                    8
                } else {
                    16
                };
                RegistrationStep::RetryAfter(delay)
            }
        },
    }
}

/// The registration loop stops by its fifth attempt at the latest, and the waits before
/// then are 2, 4, 8 and 16 seconds.
pub proof fn lemma_registration_schedule(reply: RegistrationReply)
    requires
        reply != RegistrationReply::Accepted,
        reply != RegistrationReply::Rejected(401),
        reply != RegistrationReply::Rejected(403),
    ensures
        step_after(1, reply) == RegistrationStep::RetryAfter(2),
        step_after(2, reply) == RegistrationStep::RetryAfter(4),
        step_after(3, reply) == RegistrationStep::RetryAfter(8),
        step_after(4, reply) == RegistrationStep::RetryAfter(16),
        forall|attempt: u32|
            attempt >= MAX_REGISTRATION_ATTEMPTS ==> step_after(attempt, reply)
                == RegistrationStep::GiveUp,
{
    reveal_with_fuel(pow2, 5);
}

/// The most requests per second a worker announces for the given number of requests it may
/// have in flight: that number, as far as `u32` goes.
pub open spec fn announced_rps(max_concurrent_requests: usize) -> u32 {
    if max_concurrent_requests > u32::MAX {
        u32::MAX
    } else {
        max_concurrent_requests as u32
    }
}

/// What the worker says of itself when it registers: its identity and version, how many
/// tasks it takes at once, the rate it can reach, and that it speaks `http`, `https` and
/// `http2`.
pub fn registration(
    worker_id: &str,
    version: &str,
    capacity: usize,
    max_concurrent_requests: usize,
) -> (r: WorkerRegistration)
    ensures
        r.worker_id@ == worker_id@,
        r.version@ == version@,
        r.capacity == capacity,
        r.max_rps == announced_rps(max_concurrent_requests),
        r.capabilities@.len() == 3,
        r.capabilities@[0]@ == "http"@,
        r.capabilities@[1]@ == "https"@,
        r.capabilities@[2]@ == "http2"@,
{
    let mut capabilities: Vec<String> = Vec::new();
    capabilities.push(String::from_str("http"));
    capabilities.push(String::from_str("https"));
    capabilities.push(String::from_str("http2"));
    let max_rps: u32 = if max_concurrent_requests > u32::MAX as usize {
        u32::MAX
    } else {
        max_concurrent_requests as u32
    };
    WorkerRegistration {
        worker_id: String::from_str(worker_id),
        version: String::from_str(version),
        capacity,
        capabilities,
        max_rps,
    }
}

/// The value of the authorization header: `Bearer`, a space, and the token, which is empty
/// where the worker has none.
pub fn bearer(token: &Option<String>) -> (header: String)
    ensures
        header@ == "Bearer "@ + (match *token {
            Some(t) => t@,
            None => Seq::<char>::empty(),
        }),
{
    let mut header = String::from_str("Bearer ");
    match token {
        Some(t) => {
            header.append(t.as_str());
        },
        None => {
            assert(header@ =~= "Bearer "@ + Seq::<char>::empty());
        },
    }
    header
}

} // verus!
