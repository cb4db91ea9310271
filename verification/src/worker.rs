//! The task runtime: when the worker asks the queue for a job, how long it sleeps when
//! there is none, how many jobs it runs at once, and what its heartbeat says.

use crate::models::{WorkerHeartbeat, WorkerStatus};
use crate::backoff::DRAW_SCALE;
use vstd::prelude::*;
use vstd::string::StringExecFns;

verus! {

/// Shortest sleep after the queue was found empty, in milliseconds.
pub const POLL_MIN_MS: u64 = 500;

/// Longest sleep after the queue was found empty, in milliseconds.
pub const POLL_MAX_MS: u64 = 1000;

/// Sleep after the queue could not be reached, in milliseconds.
pub const QUEUE_ERROR_SLEEP_MS: u64 = 5000;

/// Time a heartbeat stays valid, in seconds.
pub const HEARTBEAT_TTL_SECS: u64 = 60;

/// How the queue answered a request for a job.
#[derive(Clone, Copy, Debug, PartialEq, Eq, Structural)]
pub enum LeaseReply {
    /// The queue is empty.
    Empty,
    /// The queue could not be reached.
    Failed,
    /// A job was handed out.
    Leased,
}

/// What the runtime does next.
#[derive(Clone, Copy, Debug, PartialEq, Eq, Structural)]
pub enum RuntimeAction {
    /// Ask the queue for a job.
    Lease,
    /// Run the job that was handed out.
    Run,
    /// Sleep this many milliseconds, then look again.
    Sleep(u64),
    /// Wait for a running job to finish, then look again.
    Hold,
    /// Stop: the worker is draining and nothing runs any more.
    Exit,
}

/// The runtime as mathematics.
pub struct RuntimeView {
    pub accepting: bool,
    pub active_tasks: nat,
    pub max_concurrent_tasks: usize,
    pub requests_processed: u64,
}

impl RuntimeView {
    /// The jobs that may run at once: the configured number, at least one.
    pub open spec fn limit(self) -> nat {
        if self.max_concurrent_tasks == 0 {
            1
        } else {
            self.max_concurrent_tasks as nat
        }
    }

    /// Never more jobs than the limit.
    pub open spec fn wf(self) -> bool {
        self.active_tasks <= self.limit()
    }

    /// What the runtime does when it looks for work: a draining worker waits for its jobs
    /// and then stops, a worker at its limit waits for a job to finish, any other asks the
    /// queue.
    pub open spec fn next(self) -> RuntimeAction {
        if !self.accepting {
            if self.active_tasks == 0 {
                RuntimeAction::Exit
            } else {
                RuntimeAction::Hold
            }
        } else if self.active_tasks >= self.limit() {
            RuntimeAction::Hold
        } else {
            RuntimeAction::Lease
        }
    }

    /// What the worker is doing, as its heartbeat tells it.
    pub open spec fn status(self) -> WorkerStatus {
        if !self.accepting {
            if self.active_tasks == 0 {
                WorkerStatus::Offline
            } else {
                WorkerStatus::Draining
            }
        } else if self.active_tasks > 0 {
            WorkerStatus::Busy
        } else {
            WorkerStatus::Idle
        }
    }
}

/// The sleep after the queue was found empty: between the shortest and the longest poll
/// interval, at the point the draw picks.
pub open spec fn poll_sleep_ms(draw: u32) -> u64 {
    let d = if draw > DRAW_SCALE {
        DRAW_SCALE
    } else {
        draw
    };
    (POLL_MIN_MS + ((POLL_MAX_MS - POLL_MIN_MS) * d) / (DRAW_SCALE as int)) as u64
}

/// What follows an answer of the queue: run the job, or sleep, longer when the queue could
/// not be reached. A job that arrives while the worker drains or is at its limit is not run.
pub open spec fn after_lease(r: RuntimeView, reply: LeaseReply, draw: u32) -> RuntimeAction {
    match reply {
        LeaseReply::Empty => RuntimeAction::Sleep(poll_sleep_ms(draw)),
        LeaseReply::Failed => RuntimeAction::Sleep(QUEUE_ERROR_SLEEP_MS),
        LeaseReply::Leased => if r.next() == RuntimeAction::Lease {
            RuntimeAction::Run
        } else {
            r.next()
        },
    }
}

/// The lifecycle of the worker's jobs.
#[derive(Clone, Copy, Debug)]
pub struct Runtime {
    accepting: bool,
    active_tasks: usize,
    max_concurrent_tasks: usize,
    requests_processed: u64,
}

impl View for Runtime {
    type V = RuntimeView;

    closed spec fn view(&self) -> RuntimeView {
        RuntimeView {
            accepting: self.accepting,
            active_tasks: self.active_tasks as nat,
            max_concurrent_tasks: self.max_concurrent_tasks,
            requests_processed: self.requests_processed,
        }
    }
}

impl Runtime {
    #[verifier::type_invariant]
    spec fn well_formed(self) -> bool {
        self@.wf()
    }

    /// A runtime that accepts jobs and runs none.
    pub fn new(max_concurrent_tasks: usize) -> (r: Runtime)
        ensures
            r@ == (RuntimeView {
                accepting: true,
                active_tasks: 0,
                max_concurrent_tasks,
                requests_processed: 0,
            }),
            r@.wf(),
    {
        Runtime { accepting: true, active_tasks: 0, max_concurrent_tasks, requests_processed: 0 }
    }

    /// What to do next.
    pub fn next_action(&self) -> (action: RuntimeAction)
        ensures
            action == self@.next(),
            self@.wf(),
    {
        proof {
            use_type_invariant(self);
        }
        let limit: usize = if self.max_concurrent_tasks == 0 {
            1
        } else {
            self.max_concurrent_tasks
        };
        if !self.accepting {
            if self.active_tasks == 0 {
                RuntimeAction::Exit
            } else {
                RuntimeAction::Hold
            }
        } else if self.active_tasks >= limit {
            RuntimeAction::Hold
        } else {
            RuntimeAction::Lease
        }
    }

    /// What to do after the queue answered.
    pub fn on_lease(&self, reply: LeaseReply, draw: u32) -> (action: RuntimeAction)
        ensures
            action == after_lease(self@, reply, draw),
    {
        match reply {
            LeaseReply::Empty => {
                let d: u64 = if draw > DRAW_SCALE {
                    DRAW_SCALE as u64
                } else {
                    draw as u64
                };
                let spread: u64 = ((POLL_MAX_MS - POLL_MIN_MS) * d) / (DRAW_SCALE as u64);
                RuntimeAction::Sleep(POLL_MIN_MS + spread)
            },
            LeaseReply::Failed => RuntimeAction::Sleep(QUEUE_ERROR_SLEEP_MS),
            LeaseReply::Leased => {
                let next = self.next_action();
                match next {
                    RuntimeAction::Lease => RuntimeAction::Run,
                    _ => next,
                }
            },
        }
    }

    /// Notes that a job begins. Returns whether there was room for it; where there was none
    /// nothing changes.
    pub fn job_started(&mut self) -> (started: bool)
        ensures
            started == (old(self)@.next() == RuntimeAction::Lease),
            final(self)@ == (if started {
                RuntimeView { active_tasks: old(self)@.active_tasks + 1, ..old(self)@ }
            } else {
                old(self)@
            }),
            final(self)@.wf(),
    {
        proof {
            use_type_invariant(&*self);
        }
        match self.next_action() {
            RuntimeAction::Lease => {
                self.active_tasks = self.active_tasks + 1;
                true
            },
            _ => false,
        }
    }

    /// Notes that a job has ended after issuing `requests` requests.
    pub fn job_finished(&mut self, requests: u64)
        ensures
            final(self)@ == (RuntimeView {
                active_tasks: if old(self)@.active_tasks > 0 {
                    (old(self)@.active_tasks - 1) as nat
                } else {
                    0
                },
                requests_processed: if old(self)@.requests_processed + requests > u64::MAX {
                    u64::MAX
                } else {
                    (old(self)@.requests_processed + requests) as u64
                },
                ..old(self)@
            }),
            final(self)@.wf(),
    {
        proof {
            use_type_invariant(&*self);
        }
        if self.active_tasks > 0 {
            self.active_tasks = self.active_tasks - 1;
        }
        self.requests_processed = match self.requests_processed.checked_add(requests) {
            Some(sum) => sum,
            None => u64::MAX,
        };
    }

    /// Stops taking new jobs. Jobs that run are left to finish.
    pub fn stop_accepting(&mut self)
        ensures
            final(self)@ == (RuntimeView { accepting: false, ..old(self)@ }),
            final(self)@.wf(),
    {
        proof {
            use_type_invariant(&*self);
        }
        self.accepting = false;
    }

    /// Jobs that run now.
    pub fn active_tasks(&self) -> (n: usize)
        ensures
            n == self@.active_tasks,
            n <= self@.limit(),
    {
        proof {
            use_type_invariant(self);
        }
        self.active_tasks
    }

    /// Requests issued by the jobs that have ended.
    pub fn requests_processed(&self) -> (n: u64)
        ensures
            n == self@.requests_processed,
    {
        self.requests_processed
    }

    /// What the worker is doing.
    pub fn status(&self) -> (s: WorkerStatus)
        ensures
            s == self@.status(),
    {
        if !self.accepting {
            if self.active_tasks == 0 {
                WorkerStatus::Offline
            } else {
                WorkerStatus::Draining
            }
        } else if self.active_tasks > 0 {
            WorkerStatus::Busy
        } else {
            WorkerStatus::Idle
        }
    }

    /// The heartbeat of this moment. The share of the processor is given in thousandths,
    /// the memory in use in KiB.
    pub fn heartbeat(
        &self,
        worker_id: &str,
        now_ms: u64,
        current_task_id: Option<String>,
        cpu_permille: u32,
        used_memory_kib: u64,
    ) -> (hb: WorkerHeartbeat)
        ensures
            hb.worker_id@ == worker_id@,
            hb.timestamp_ms == now_ms,
            hb.status == self@.status(),
            hb.current_task_id == current_task_id,
            hb.requests_processed == self@.requests_processed,
            hb.cpu_permille == cpu_permille,
            hb.memory_mb == used_memory_kib / 1024,
            hb.active_tasks == self@.active_tasks,
    {
        WorkerHeartbeat {
            worker_id: String::from_str(worker_id),
            timestamp_ms: now_ms,
            status: self.status(),
            current_task_id,
            requests_processed: self.requests_processed,
            cpu_permille,
            memory_mb: used_memory_kib / 1024,
            active_tasks: self.active_tasks,
        }
    }
}

/// The key a heartbeat is written under: the prefix, a colon, and the worker's identity.
pub fn heartbeat_key(prefix: &str, worker_id: &str) -> (key: String)
    ensures
        key@ == prefix@ + ":"@ + worker_id@,
{
    let mut key = String::from_str(prefix);
    key.append(":");
    key.append(worker_id);
    key
}

/// The worker never runs more jobs than its limit: a job starts only when the runtime
/// would ask the queue, which it does only below the limit, and never while it drains.
pub proof fn lemma_jobs_bounded(r: RuntimeView)
    requires
        r.wf(),
    ensures
        r.next() == RuntimeAction::Lease ==> r.accepting && r.active_tasks < r.limit(),
        r.max_concurrent_tasks <= 1 && r.active_tasks >= 1 ==> r.next() != RuntimeAction::Lease,
        !r.accepting ==> r.next() != RuntimeAction::Lease,
        forall|reply: LeaseReply, draw: u32|
            after_lease(r, reply, draw) == RuntimeAction::Run ==> r.active_tasks < r.limit()
                && r.accepting,
{
}

/// A worker that was told to stop takes no further job and exits as soon as no job runs:
/// while jobs run it holds, and when the last of them has finished it exits.
pub proof fn lemma_stopped_worker_exits(r: RuntimeView, reply: LeaseReply, draw: u32)
    requires
        r.wf(),
        !r.accepting,
    ensures
        r.next() != RuntimeAction::Lease,
        after_lease(r, reply, draw) != RuntimeAction::Run,
        r.active_tasks == 0 ==> r.next() == RuntimeAction::Exit,
        r.active_tasks > 0 ==> r.next() == RuntimeAction::Hold,
        r.active_tasks == 1 ==> (RuntimeView { active_tasks: 0, ..r }).next()
            == RuntimeAction::Exit,
{
}

/// The sleep after an empty queue stays between the shortest and the longest poll interval.
pub proof fn lemma_poll_sleep_bounded(draw: u32)
    ensures
        POLL_MIN_MS <= poll_sleep_ms(draw) <= POLL_MAX_MS,
{
}

} // verus!
