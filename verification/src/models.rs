//! The records that pass between the worker, its queue and its controller, and the job a
//! worker runs.
//!
//! Times of day are milliseconds since the Unix epoch, latencies microseconds unless a field
//! says otherwise, and shares that the wire format carries as fractions are in thousandths.

use vstd::prelude::*;

verus! {

/// The request methods a job may use.
#[derive(Clone, Copy, Debug, PartialEq, Eq, Structural)]
pub enum HttpMethod {
    GET,
    POST,
    PUT,
    DELETE,
    PATCH,
    HEAD,
    OPTIONS,
}

/// A task as the queue hands it out.
#[derive(Clone, Debug)]
pub struct WorkerTask {
    pub task_id: String,
    pub execution_id: String,
    pub target_url: String,
    pub method: HttpMethod,
    /// Header names and values. No name may occur twice.
    pub headers: Option<Vec<(String, String)>>,
    pub body: Option<String>,
    pub rps: u32,
    pub duration_seconds: u32,
    pub org_id: String,
    /// Older name of `org_id`; not read.
    pub org: String,
}

/// Why a task cannot be run.
#[derive(Clone, Copy, Debug, PartialEq, Eq, Structural)]
pub enum JobError {
    /// The target rate is 0.
    ZeroRate,
    /// The duration is 0 seconds.
    ZeroDuration,
    /// A header name occurs twice.
    DuplicateHeader,
}

/// The request a job sends.
#[derive(Clone, Debug)]
pub struct Target {
    pub url: String,
    pub method: HttpMethod,
    pub headers: Vec<(String, String)>,
    pub body: Option<String>,
}

/// A job leased by this worker. It does not change while it runs.
#[derive(Clone, Debug)]
pub struct Job {
    pub job_id: String,
    pub tenant_id: String,
    pub target: Target,
    /// Requests per second to issue; at least 1.
    pub target_rps: u32,
    /// Seconds to run; at least 1.
    pub duration_seconds: u32,
    /// Requests the job would like in flight at once, where it says; at least 1.
    pub concurrency_hint: Option<u32>,
}

/// Whether no header name occurs twice.
pub open spec fn distinct_names(headers: Seq<(String, String)>) -> bool {
    forall|i: int, j: int| 0 <= i < j < headers.len() ==> headers[i].0@ != headers[j].0@
}

/// The headers a task carries; none where it names none.
pub open spec fn task_headers(task: WorkerTask) -> Seq<(String, String)> {
    match task.headers {
        Some(h) => h@,
        None => Seq::empty(),
    }
}

/// What is wrong with a task, the first thing found; nothing for a task that can run.
pub open spec fn task_fault(task: WorkerTask) -> Option<JobError> {
    if task.rps == 0 {
        Some(JobError::ZeroRate)
    } else if task.duration_seconds == 0 {
        Some(JobError::ZeroDuration)
    } else if !distinct_names(task_headers(task)) {
        Some(JobError::DuplicateHeader)
    } else {
        None
    }
}

impl Job {
    /// What holds of every job: a positive rate, a positive duration, a positive hint where
    /// there is one, and no header twice.
    pub open spec fn wf(self) -> bool {
        &&& self.target_rps >= 1
        &&& self.duration_seconds >= 1
        &&& self.concurrency_hint matches Some(hint) ==> hint >= 1
        &&& distinct_names(self.target.headers@)
    }

    /// Makes a job of a task, or says what is wrong with the task.
    pub fn from_task(task: WorkerTask) -> (made: Result<Job, JobError>)
        ensures
            match made {
                Ok(job) => {
                    &&& task_fault(task) is None
                    &&& job.wf()
                    &&& job.job_id == task.task_id
                    &&& job.tenant_id == task.org_id
                    &&& job.target.url == task.target_url
                    &&& job.target.method == task.method
                    &&& job.target.headers@ == task_headers(task)
                    &&& job.target.body == task.body
                    &&& job.target_rps == task.rps
                    &&& job.duration_seconds == task.duration_seconds
                    &&& job.concurrency_hint is None
                },
                Err(fault) => task_fault(task) == Some(fault),
            },
    {
        if task.rps == 0 {
            return Err(JobError::ZeroRate);
        }
        if task.duration_seconds == 0 {
            return Err(JobError::ZeroDuration);
        }
        let ghost given = task;
        let WorkerTask {
            task_id,
            execution_id: _,
            target_url,
            method,
            headers,
            body,
            rps,
            duration_seconds,
            org_id,
            org: _,
        } = task;
        let headers: Vec<(String, String)> = match headers {
            Some(h) => h,
            None => Vec::new(),
        };
        assert(headers@ =~= task_headers(given));
        if !names_distinct(&headers) {
            return Err(JobError::DuplicateHeader);
        }
        Ok(
            Job {
                job_id: task_id,
                tenant_id: org_id,
                target: Target { url: target_url, method, headers, body },
                target_rps: rps,
                duration_seconds,
                concurrency_hint: None,
            },
        )
    }

    /// The job with the given number of requests wanted in flight. A hint of 0 is no hint.
    pub fn with_concurrency_hint(self, hint: u32) -> (job: Job)
        ensures
            self.wf() ==> job.wf(),
            job.concurrency_hint == (if hint == 0 {
                None
            } else {
                Some(hint)
            }),
            job.job_id == self.job_id,
            job.tenant_id == self.tenant_id,
            job.target == self.target,
            job.target_rps == self.target_rps,
            job.duration_seconds == self.duration_seconds,
    {
        let mut job = self;
        job.concurrency_hint = if hint == 0 {
            None
        } else {
            Some(hint)
        };
        job
    }

    /// The time the job runs, in microseconds.
    pub fn duration_us(&self) -> (us: u64)
        ensures
            us == self.duration_seconds * 1_000_000,
    {
        self.duration_seconds as u64 * 1_000_000
    }
}

/// Whether no header name occurs twice.
pub fn names_distinct(headers: &Vec<(String, String)>) -> (distinct: bool)
    ensures
        distinct == distinct_names(headers@),
{
    let n = headers.len();
    let mut j: usize = 0;
    while j < n
        invariant
            n == headers@.len(),
            j <= n,
            forall|a: int, b: int| 0 <= a < b < j ==> headers@[a].0@ != headers@[b].0@,
        decreases n - j,
    {
        let mut i: usize = 0;
        while i < j
            invariant
                n == headers@.len(),
                i <= j < n,
                forall|a: int| 0 <= a < i ==> headers@[a].0@ != headers@[j as int].0@,
            decreases j - i,
        {
            if headers[i].0 == headers[j].0 {
                assert(headers@[i as int].0@ == headers@[j as int].0@);
                return false;
            }
            i = i + 1;
        }
        j = j + 1;
    }
    true
}

/// How one attempted request ended.
#[derive(Clone, Copy, Debug, PartialEq, Eq, Structural)]
pub enum OutcomeKind {
    /// A response with a status from 200 to 399.
    HttpOk,
    /// A response with any other status.
    HttpError(u16),
    /// No response in time.
    Timeout,
    /// The connection could not be made.
    Connect,
    /// The TLS handshake failed.
    Tls,
    /// The host name did not resolve.
    Dns,
    /// Any other failure of the transport.
    Other,
}

/// The outcome of one attempted request.
#[derive(Clone, Copy, Debug, PartialEq, Eq, Structural)]
pub struct Outcome {
    pub kind: OutcomeKind,
    /// The status of the response, where there was one.
    pub status: Option<u16>,
    /// Time from sending to the response, or to the failure.
    pub latency_us: u64,
    /// Monotonic time at which the outcome was seen, in microseconds.
    pub observed_at: u64,
}

/// The detailed record of one request, as reported on request.
#[derive(Clone, Debug)]
pub struct RequestMetric {
    pub timestamp_ms: u64,
    pub latency_ms: u64,
    pub dns_lookup_ms: u64,
    pub tcp_connection_ms: u64,
    pub tls_handshake_ms: u64,
    pub ttfb_ms: u64,
    /// The status of the response; 0 where there was none.
    pub status_code: u16,
    pub success: bool,
    pub error: Option<String>,
    pub error_type: Option<String>,
}

impl RequestMetric {
    /// The record of a request that failed before any response, seen at `timestamp_ms`.
    pub fn new_error(error_message: String, error_type: String, timestamp_ms: u64) -> (m:
        RequestMetric)
        ensures
            m.timestamp_ms == timestamp_ms,
            m.latency_ms == 0,
            m.dns_lookup_ms == 0,
            m.tcp_connection_ms == 0,
            m.tls_handshake_ms == 0,
            m.ttfb_ms == 0,
            m.status_code == 0,
            !m.success,
            m.error == Some(error_message),
            m.error_type == Some(error_type),
    {
        RequestMetric {
            timestamp_ms,
            latency_ms: 0,
            dns_lookup_ms: 0,
            tcp_connection_ms: 0,
            tls_handshake_ms: 0,
            ttfb_ms: 0,
            status_code: 0,
            success: false,
            error: Some(error_message),
            error_type: Some(error_type),
        }
    }
}

/// The summary of one reporting window, as pushed to the result queue.
#[derive(Clone, Debug)]
pub struct WorkerResult {
    pub task_id: String,
    pub worker_id: String,
    /// Time of day at which the window began.
    pub window_start_ms: u64,
    /// Time of day at which the window ended; the timestamp of the batch.
    pub timestamp_ms: u64,
    /// Whether any request of the window succeeded.
    pub success: bool,
    pub total_requests: u64,
    pub success_count: u64,
    pub error_count: u64,
    pub avg_latency_us: u64,
    pub p50_latency_us: u64,
    pub p90_latency_us: u64,
    pub p95_latency_us: u64,
    pub p99_latency_us: u64,
    pub max_latency_us: u64,
    /// Requests per second over the window, in thousandths.
    pub actual_rps_milli: u64,
    /// Whether this is the last batch of its job.
    pub terminal: bool,
    pub error_msg: Option<String>,
}

/// What a worker is doing.
#[derive(Clone, Copy, Debug, PartialEq, Eq, Structural)]
pub enum WorkerStatus {
    Idle,
    Busy,
    Draining,
    Offline,
}

/// What a worker tells the controller when it registers.
#[derive(Clone, Debug)]
pub struct WorkerRegistration {
    pub worker_id: String,
    pub version: String,
    pub capacity: usize,
    pub capabilities: Vec<String>,
    pub max_rps: u32,
}

/// A sign of life.
#[derive(Clone, Debug)]
pub struct WorkerHeartbeat {
    pub worker_id: String,
    pub timestamp_ms: u64,
    pub status: WorkerStatus,
    pub current_task_id: Option<String>,
    pub requests_processed: u64,
    /// Share of the processor in use, in thousandths.
    pub cpu_permille: u32,
    /// Resident memory in MiB.
    pub memory_mb: u64,
    pub active_tasks: usize,
}

} // verus!
