use loadtest_worker::models::{names_distinct, HttpMethod, Job, JobError, WorkerTask};

fn task(rps: u32, duration: u32, headers: Option<Vec<(String, String)>>) -> WorkerTask {
    WorkerTask {
        task_id: "task-1".to_string(),
        execution_id: "exec-1".to_string(),
        target_url: "http://target/echo".to_string(),
        method: HttpMethod::POST,
        headers,
        body: Some("{}".to_string()),
        rps,
        duration_seconds: duration,
        org_id: "org-9".to_string(),
        org: String::new(),
    }
}

fn pair(k: &str, v: &str) -> (String, String) {
    (k.to_string(), v.to_string())
}

#[test]
fn a_sound_task_becomes_a_job() {
    let job = Job::from_task(task(100, 10, Some(vec![pair("a", "1"), pair("b", "2")]))).unwrap();
    assert_eq!(job.job_id, "task-1");
    assert_eq!(job.tenant_id, "org-9");
    assert_eq!(job.target.url, "http://target/echo");
    assert_eq!(job.target.method, HttpMethod::POST);
    assert_eq!(job.target.headers, vec![pair("a", "1"), pair("b", "2")]);
    assert_eq!(job.target.body.as_deref(), Some("{}"));
    assert_eq!(job.target_rps, 100);
    assert_eq!(job.duration_seconds, 10);
    assert_eq!(job.concurrency_hint, None);
    assert_eq!(job.duration_us(), 10_000_000);
}

#[test]
fn a_task_without_headers_has_none() {
    let job = Job::from_task(task(1, 1, None)).unwrap();
    assert!(job.target.headers.is_empty());
}

#[test]
fn zero_rate_is_refused() {
    assert_eq!(Job::from_task(task(0, 10, None)).err(), Some(JobError::ZeroRate));
}

#[test]
fn zero_duration_is_refused() {
    assert_eq!(Job::from_task(task(10, 0, None)).err(), Some(JobError::ZeroDuration));
}

#[test]
fn zero_rate_is_found_before_zero_duration() {
    assert_eq!(
        Job::from_task(task(0, 0, Some(vec![pair("a", "1"), pair("a", "2")]))).err(),
        Some(JobError::ZeroRate)
    );
    assert_eq!(
        Job::from_task(task(1, 0, Some(vec![pair("a", "1"), pair("a", "2")]))).err(),
        Some(JobError::ZeroDuration)
    );
}

#[test]
fn a_header_given_twice_is_refused() {
    let h = vec![pair("accept", "*/*"), pair("x", "1"), pair("accept", "text/html")];
    assert_eq!(Job::from_task(task(10, 10, Some(h))).err(), Some(JobError::DuplicateHeader));
}

#[test]
fn names_distinct_looks_at_names_only() {
    assert!(names_distinct(&vec![]));
    assert!(names_distinct(&vec![pair("a", "1")]));
    assert!(names_distinct(&vec![pair("a", "1"), pair("b", "1"), pair("A", "1")]));
    assert!(!names_distinct(&vec![pair("a", "1"), pair("b", "1"), pair("a", "2")]));
    assert!(!names_distinct(&vec![pair("b", "1"), pair("b", "1")]));
    assert!(!names_distinct(&vec![pair("", "1"), pair("c", "1"), pair("d", "1"), pair("", "1")]));
}

#[test]
fn longest_duration_in_microseconds() {
    let job = Job::from_task(task(1, u32::MAX, None)).unwrap();
    assert_eq!(job.duration_us(), 4_294_967_295_000_000);
}

#[test]
fn concurrency_hint_of_zero_is_no_hint() {
    let job = Job::from_task(task(5, 5, None)).unwrap();
    let hinted = job.with_concurrency_hint(12);
    assert_eq!(hinted.concurrency_hint, Some(12));
    assert_eq!(hinted.job_id, "task-1");
    assert_eq!(hinted.target_rps, 5);
    let cleared = hinted.with_concurrency_hint(0);
    assert_eq!(cleared.concurrency_hint, None);
    assert_eq!(cleared.duration_seconds, 5);
}
