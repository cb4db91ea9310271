use loadtest_worker::ids::{new_metric, resolve_worker_id, worker_id_from, ID_LENGTH};
use loadtest_worker::metrics_event::MetricEvent;
use loadtest_worker::tenant::TenantContext;

fn looks_like_an_id(id: &str) -> bool {
    id.len() == 36
        && id.chars().enumerate().all(|(i, c)| {
            if i == 8 || i == 13 || i == 18 || i == 23 {
                c == '-'
            } else {
                c.is_ascii_hexdigit() && !c.is_ascii_uppercase()
            }
        })
}

#[test]
fn configured_identity_wins() {
    assert_eq!(resolve_worker_id(Some("worker-a".to_string())), "worker-a");
    assert_eq!(resolve_worker_id(Some(String::new())), "");
    assert_eq!(worker_id_from(Some("x".to_string()), "fresh".to_string()), "x");
    assert_eq!(worker_id_from(None, "fresh".to_string()), "fresh");
}

#[test]
fn missing_identity_is_drawn_afresh() {
    assert_eq!(ID_LENGTH, 36);
    let a = resolve_worker_id(None);
    let b = resolve_worker_id(None);
    assert!(looks_like_an_id(&a));
    assert!(looks_like_an_id(&b));
    assert_ne!(a, b);
}

#[test]
fn metric_event_gets_a_fresh_trace_id() {
    let e = new_metric(12, 200, "org-1".to_string());
    let f = new_metric(12, 200, "org-1".to_string());
    assert_eq!(e.latency_ms, 12);
    assert_eq!(e.status, 200);
    assert_eq!(e.org, "org-1");
    assert!(looks_like_an_id(&e.trace_id));
    assert_ne!(e.trace_id, f.trace_id);
    assert_ne!(e.trace_id, "org-1");
}

#[test]
fn metric_event_with_a_given_trace_id() {
    let e = MetricEvent::with_trace_id("t".to_string(), 7, 503, "o".to_string());
    assert_eq!(e.trace_id, "t");
    assert_eq!(e.latency_ms, 7);
    assert_eq!(e.status, 503);
    assert_eq!(e.org, "o");
}

#[test]
fn tenant_context_holds_the_last_tenant_set() {
    let mut ctx = TenantContext::new();
    assert_eq!(ctx.get_org(), None);
    ctx.set_org("org-1".to_string());
    assert_eq!(ctx.get_org().as_deref(), Some("org-1"));
    ctx.set_org("org-2".to_string());
    assert_eq!(ctx.get_org().as_deref(), Some("org-2"));
    assert_eq!(ctx.get_org().as_deref(), Some("org-2"));
    ctx.clear();
    assert_eq!(ctx.get_org(), None);
}
