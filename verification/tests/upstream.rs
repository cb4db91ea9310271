use loadtest_worker::circuit_breaker::{CircuitBreaker, CircuitBreakerConfig, State};
use loadtest_worker::upstream::{upstream_key, BreakerRegistry};

#[test]
fn key_is_scheme_host_and_port() {
    assert_eq!(upstream_key("http://example.com/path?x=1#top"), "http://example.com");
    assert_eq!(upstream_key("https://example.com:8443/a/b"), "https://example.com:8443");
    assert_eq!(upstream_key("http://example.com"), "http://example.com");
    assert_eq!(upstream_key("http://example.com?x=/y"), "http://example.com");
    assert_eq!(upstream_key("http://example.com#frag"), "http://example.com");
    assert_eq!(upstream_key("http://user@host:1/"), "http://user@host:1");
    assert_eq!(upstream_key("http://[::1]:80/x"), "http://[::1]:80");
}

#[test]
fn key_of_a_url_without_a_scheme() {
    assert_eq!(upstream_key("example.com/path"), "example.com");
    assert_eq!(upstream_key("example.com:80"), "example.com:80");
    assert_eq!(upstream_key("/only/a/path"), "");
    assert_eq!(upstream_key(""), "");
    assert_eq!(upstream_key("?q"), "");
}

#[test]
fn key_of_odd_urls() {
    assert_eq!(upstream_key("://host/x"), "://host");
    assert_eq!(upstream_key("a://"), "a://");
    assert_eq!(upstream_key("a:///x"), "a://");
    assert_eq!(upstream_key("a:/b"), "a:");
    assert_eq!(upstream_key("a:b"), "a:b");
    assert_eq!(upstream_key("x/y://z"), "x");
    assert_eq!(upstream_key("host/x://y"), "host");
    assert_eq!(upstream_key("http:/x"), "http:");
    assert_eq!(upstream_key("http://"), "http://");
    assert_eq!(upstream_key("http://?q"), "http://");
    assert_eq!(upstream_key("http://a://b/c"), "http://a:");
    assert_eq!(upstream_key("::"), "::");
    assert_eq!(upstream_key(":/"), ":");
}

#[test]
fn urls_beyond_ascii_have_keys_like_any_other() {
    assert_eq!(upstream_key("http://exämple.com/path"), "http://exämple.com");
    assert_eq!(upstream_key("http://exämple.com:8080/päth?q=ü#é"), "http://exämple.com:8080");
    assert_eq!(upstream_key("http://exämple.com"), "http://exämple.com");
    assert_eq!(upstream_key("exämple.com/päth"), "exämple.com");
    assert_eq!(upstream_key("é"), "é");
    assert_eq!(upstream_key("é/"), "é");
    assert_eq!(upstream_key("日本://host/道"), "日本://host");
    assert_eq!(upstream_key("/é"), "");
}

#[test]
fn urls_beyond_ascii_share_the_breaker_of_their_upstream() {
    let a = upstream_key("http://exämple.com/one");
    let b = upstream_key("http://exämple.com/two?x=ü");
    assert_eq!(a, b);
    let mut r = BreakerRegistry::new(config());
    let mut breaker = r.get(&a);
    breaker.record_failure(1);
    breaker.record_failure(2);
    r.set(&a, breaker);
    assert_eq!(r.get(&b).state(), State::Open);
    assert_eq!(r.len(), 1);
}

#[test]
fn what_follows_the_key_does_not_change_it() {
    for url in ["http://h:1/a/b", "https://exämple.com?x", "h/x", "a:/b", "", "://h#f"] {
        let key = upstream_key(url);
        for rest in ["", "/", "/x/y", "?q=1", "#top", "/a://b", "/é"] {
            let mut other = key.clone();
            other.push_str(rest);
            assert_eq!(upstream_key(&other), key, "{:?} then {:?}", key, rest);
        }
    }
}

#[test]
fn same_upstream_same_key() {
    assert_eq!(upstream_key("http://h:1/a"), upstream_key("http://h:1/b?c"));
    assert_ne!(upstream_key("http://h:1/a"), upstream_key("http://h:2/a"));
    assert_ne!(upstream_key("http://h/a"), upstream_key("https://h/a"));
}

fn config() -> CircuitBreakerConfig {
    CircuitBreakerConfig { failure_threshold: 2, reset_timeout_ms: 100, half_open_max_inflight: 1 }
}

#[test]
fn unknown_upstream_has_a_fresh_breaker() {
    let r = BreakerRegistry::new(config());
    assert_eq!(r.len(), 0);
    let b = r.get(&"http://a".to_string());
    assert_eq!(b.state(), State::Closed);
    assert_eq!(b.config(), config());
    assert_eq!(b.consecutive_failures(), 0);
    assert_eq!(r.len(), 0);
}

#[test]
fn stored_breaker_is_found_again() {
    let mut r = BreakerRegistry::new(config());
    let a = "http://a".to_string();
    let mut b = r.get(&a);
    b.record_failure(5);
    r.set(&a, b);
    assert_eq!(r.len(), 1);
    assert_eq!(r.get(&a).consecutive_failures(), 1);
    let mut again = r.get(&a);
    again.record_failure(9);
    r.set(&a, again);
    assert_eq!(r.len(), 1);
    assert_eq!(r.get(&a).state(), State::Open);
    assert_eq!(r.get(&a).opened_at(), 9);
}

#[test]
fn upstreams_do_not_share_a_breaker() {
    let mut r = BreakerRegistry::new(config());
    let a = "http://a".to_string();
    let b = "http://b".to_string();
    let c = "http://c".to_string();
    let mut ba = r.get(&a);
    ba.record_failure(1);
    ba.record_failure(2);
    r.set(&a, ba);
    let mut bb = r.get(&b);
    bb.record_failure(3);
    r.set(&b, bb);
    assert_eq!(r.len(), 2);
    assert_eq!(r.get(&a).state(), State::Open);
    assert_eq!(r.get(&b).state(), State::Closed);
    assert_eq!(r.get(&b).consecutive_failures(), 1);
    assert_eq!(r.get(&c).consecutive_failures(), 0);
    let mut healed = r.get(&a);
    assert!(healed.allow(200));
    healed.record_success();
    r.set(&a, healed);
    assert_eq!(r.get(&a).state(), State::Closed);
    assert_eq!(r.get(&b).consecutive_failures(), 1);
    assert_eq!(r.len(), 2);
}

#[test]
fn a_breaker_with_another_configuration_can_be_stored() {
    let mut r = BreakerRegistry::new(config());
    let a = "a".to_string();
    r.set(&a, CircuitBreaker::new());
    assert_eq!(r.get(&a).config(), CircuitBreakerConfig::default());
    assert_eq!(r.get(&"b".to_string()).config(), config());
}
