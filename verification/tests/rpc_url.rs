use blockchain_data::{ProbeOutcome, RequestStatus, RpcUrl, Scheme, Transport};
use std::cmp::Ordering;

fn endpoint(url: &str, scheme: &str) -> RpcUrl {
    RpcUrl::from_parts(url.to_string(), scheme.to_string())
}

fn measured(url: &str, height: u64, latency: u128) -> RpcUrl {
    endpoint(url, "http")
        .after_check(ProbeOutcome::Answered { height: Some(height), latency_nanos: latency }, 7).unwrap()
}

fn failed(url: &str) -> RpcUrl {
    endpoint(url, "http")
        .after_check(ProbeOutcome::Answered { height: None, latency_nanos: 5 }, 7).unwrap()
}

fn timed_out(url: &str) -> RpcUrl {
    endpoint(url, "http").after_check(ProbeOutcome::TimedOut, 7).unwrap()
}

#[test]
fn from_parts_starts_unprobed() {
    let u = endpoint("http://localhost:8545/", "http");
    assert_eq!(u.url(), "http://localhost:8545/");
    assert_eq!(u.scheme(), Scheme::Http);
    assert_eq!(u.height(), None);
    assert_eq!(u.latency_nanos(), None);
    assert_eq!(u.request_time(), None);
    assert_eq!(u.request_status(), None);
}

#[test]
fn schemes_are_classified() {
    assert_eq!(endpoint("a", "http").scheme(), Scheme::Http);
    assert_eq!(endpoint("a", "https").scheme(), Scheme::Https);
    assert_eq!(endpoint("a", "ws").scheme(), Scheme::Ws);
    assert_eq!(endpoint("a", "wss").scheme(), Scheme::Wss);
    assert_eq!(endpoint("a", "ftp").scheme(), Scheme::Other);
    assert_eq!(endpoint("a", "httpss").scheme(), Scheme::Other);
    assert_eq!(endpoint("a", "").scheme(), Scheme::Other);
}

#[test]
fn probe_transport_follows_scheme() {
    assert_eq!(endpoint("a", "https").probe_transport(), Some(Transport::Http));
    assert_eq!(endpoint("a", "http").probe_transport(), Some(Transport::Http));
    assert_eq!(endpoint("a", "wss").probe_transport(), Some(Transport::Ws));
    assert_eq!(endpoint("a", "ws").probe_transport(), Some(Transport::Ws));
    assert_eq!(endpoint("a", "file").probe_transport(), None);
}

#[test]
fn answered_probe_with_height_succeeds() {
    let u = measured("http://a/", 100, 2_000_000);
    assert_eq!(u.url(), "http://a/");
    assert_eq!(u.height(), Some(100));
    assert_eq!(u.latency_nanos(), Some(2_000_000));
    assert_eq!(u.request_time(), Some(7));
    assert_eq!(u.request_status(), Some(RequestStatus::Success));
}

#[test]
fn answered_probe_without_height_fails() {
    let before = measured("http://a/", 100, 2);
    let u = before
        .after_check(ProbeOutcome::Answered { height: None, latency_nanos: 9 }, 11).unwrap();
    assert_eq!(u.height(), None);
    assert_eq!(u.latency_nanos(), Some(9));
    assert_eq!(u.request_time(), Some(11));
    assert_eq!(u.request_status(), Some(RequestStatus::Failure));
}

#[test]
fn timed_out_probe_keeps_height() {
    let before = measured("http://a/", 100, 2);
    let u = before.after_check(ProbeOutcome::TimedOut, 12).unwrap();
    assert_eq!(u.height(), Some(100));
    assert_eq!(u.latency_nanos(), None);
    assert_eq!(u.request_time(), Some(12));
    assert_eq!(u.request_status(), Some(RequestStatus::Timeout));
}

#[test]
fn failed_connection_reports_nothing() {
    let before = measured("ws://a/", 100, 2);
    assert!(before.after_check(ProbeOutcome::ConnectFailed, 12).is_none());
}

#[test]
fn skipped_probe_fails_with_zero_latency() {
    let before = endpoint("ftp://a/", "ftp");
    let u = before.after_check(ProbeOutcome::Skipped, 3).unwrap();
    assert_eq!(u.height(), None);
    assert_eq!(u.latency_nanos(), Some(0));
    assert_eq!(u.request_time(), Some(3));
    assert_eq!(u.request_status(), Some(RequestStatus::Failure));
    assert_eq!(u.scheme(), Scheme::Other);
}

#[test]
fn report_fills_blanks() {
    let r = endpoint("http://a/", "http").report();
    assert_eq!(r.url, "http://a/");
    assert_eq!(r.height, 0);
    assert_eq!(r.latency_nanos, 0);
    assert_eq!(r.request_time, 0);
    assert_eq!(r.request_status, RequestStatus::Unknown);
    let r = measured("http://b/", 42, 17).report();
    assert_eq!(r.url, "http://b/");
    assert_eq!(r.height, 42);
    assert_eq!(r.latency_nanos, 17);
    assert_eq!(r.request_time, 7);
    assert_eq!(r.request_status, RequestStatus::Success);
}

#[test]
fn clone_keeps_every_field() {
    let u = measured("http://a/", 5, 6);
    let c = u.clone();
    assert_eq!(c.url(), "http://a/");
    assert_eq!(c.height(), Some(5));
    assert_eq!(c.latency_nanos(), Some(6));
    assert_eq!(c.request_time(), Some(7));
    assert_eq!(c.request_status(), Some(RequestStatus::Success));
}

#[test]
fn down_endpoint_ranks_lowest() {
    let down = failed("http://a/");
    let late = timed_out("http://b/");
    let fresh = endpoint("http://c/", "http");
    let good = measured("http://d/", 1, 1);
    assert_eq!(down.cmp(&good), Ordering::Less);
    assert_eq!(good.cmp(&down), Ordering::Greater);
    assert_eq!(down.cmp(&fresh), Ordering::Less);
    assert_eq!(fresh.cmp(&down), Ordering::Greater);
    assert_eq!(late.cmp(&fresh), Ordering::Less);
    assert_eq!(fresh.cmp(&late), Ordering::Greater);
}

#[test]
fn same_low_tier_compares_less_both_ways() {
    let a = failed("http://a/");
    let b = timed_out("http://b/");
    assert_eq!(a.cmp(&b), Ordering::Less);
    assert_eq!(b.cmp(&a), Ordering::Less);
    let c = endpoint("http://c/", "http");
    let d = endpoint("http://d/", "http");
    assert_eq!(c.cmp(&d), Ordering::Less);
    assert_eq!(d.cmp(&c), Ordering::Less);
    assert_eq!(c.cmp(&c), Ordering::Less);
}

#[test]
fn unknown_height_ranks_below_unknown_latency() {
    let no_height = endpoint("http://a/", "http");
    let no_latency = measured("http://b/", 10, 1).after_check(ProbeOutcome::TimedOut, 8).unwrap();
    // a timed-out probe is down, so it ranks below an endpoint never probed
    assert_eq!(no_latency.cmp(&no_height), Ordering::Less);
    assert_eq!(no_height.cmp(&measured("http://c/", 0, 0)), Ordering::Less);
}

#[test]
fn higher_block_wins() {
    let a = measured("http://a/", 101, 900);
    let b = measured("http://b/", 100, 1);
    assert_eq!(a.cmp(&b), Ordering::Greater);
    assert_eq!(b.cmp(&a), Ordering::Less);
}

#[test]
fn lower_latency_wins_at_equal_height() {
    let a = measured("http://a/", 100, 5);
    let b = measured("http://b/", 100, 6);
    assert_eq!(a.cmp(&b), Ordering::Greater);
    assert_eq!(b.cmp(&a), Ordering::Less);
    let c = measured("http://c/", 100, 5);
    assert_eq!(a.cmp(&c), Ordering::Equal);
    assert_eq!(a.partial_cmp(&c), Some(Ordering::Equal));
    assert_eq!(a.partial_cmp(&b), Some(Ordering::Greater));
}

#[test]
fn strict_preference_is_transitive() {
    let a = measured("http://a/", 102, 9);
    let b = measured("http://b/", 101, 1);
    let c = measured("http://c/", 101, 2);
    assert!(a.outranks(&b));
    assert!(b.outranks(&c));
    assert!(a.outranks(&c));
    assert!(!c.outranks(&a));
}
