use blockchain_data::{ProbeOutcome, RequestStatus, RpcUrl, RpcUrlList, Scheme};
use std::time::Duration;
use url::Url;

fn endpoint(url: &str, scheme: &str) -> RpcUrl {
    RpcUrl::from_parts(url.to_string(), scheme.to_string())
}

fn measured(url: &str, scheme: &str, height: u64, latency: u128) -> RpcUrl {
    endpoint(url, scheme)
        .after_check(ProbeOutcome::Answered { height: Some(height), latency_nanos: latency }, 1).unwrap()
}

fn urls_of(list: &RpcUrlList) -> Vec<String> {
    list.all_rpc_urls().iter().map(|u| u.url().to_string()).collect()
}

fn parse(s: &str) -> Url {
    s.parse().unwrap()
}

#[test]
fn new_keeps_web_schemes_once_in_order() {
    let list = RpcUrlList::new(
        vec![
            parse("https://api.securerpc.com/v1"),
            parse("wss://ethereum-rpc.publicnode.com"),
            parse("ftp://files.example.com/"),
            parse("wss://eth.drpc.org"),
            parse("https://api.securerpc.com/v1"),
            parse("http://localhost:8545"),
        ],
        Duration::from_secs(3),
        Duration::from_secs(2),
    );
    assert_eq!(
        urls_of(&list),
        vec![
            "https://api.securerpc.com/v1".to_string(),
            "wss://ethereum-rpc.publicnode.com/".to_string(),
            "wss://eth.drpc.org/".to_string(),
            "http://localhost:8545/".to_string(),
        ]
    );
    assert_eq!(list.len(), 4);
    assert_eq!(list.buffer_size(), 4);
    assert_eq!(list.duration(), Duration::from_secs(3));
    assert_eq!(list.timeout(), Duration::from_secs(2));
    let all = list.all_rpc_urls();
    assert_eq!(all[0].scheme(), Scheme::Https);
    assert_eq!(all[1].scheme(), Scheme::Wss);
    assert_eq!(all[3].scheme(), Scheme::Http);
    for u in &all {
        assert_eq!(u.height(), None);
        assert_eq!(u.request_status(), None);
    }
}

#[test]
fn new_with_nothing_usable_is_empty() {
    let list = RpcUrlList::new(
        vec![parse("ftp://a.example/"), parse("mailto:someone@example.com")],
        Duration::from_secs(1),
        Duration::from_secs(1),
    );
    assert_eq!(list.len(), 0);
    assert_eq!(list.buffer_size(), 0);
    assert!(list.rpc_url().is_none());
    assert!(list.ws_url().is_none());
}

#[test]
fn from_rpc_urls_ranks_candidates() {
    let list = RpcUrlList::from_rpc_urls(
        vec![
            measured("http://a/", "http", 10, 5),
            measured("http://b/", "http", 12, 5),
            endpoint("http://c/", "http"),
            measured("http://d/", "http", 12, 1),
            measured("http://b/", "http", 99, 1),
            endpoint("gopher://e/", "gopher"),
        ],
        Duration::from_secs(1),
        Duration::from_secs(1),
    );
    assert_eq!(urls_of(&list), vec!["http://d/", "http://b/", "http://a/", "http://c/"]);
    assert_eq!(list.buffer_size(), 4);
}

#[test]
fn rpc_url_and_ws_url_pick_best_of_their_transport() {
    let list = RpcUrlList::from_rpc_urls(
        vec![
            measured("wss://w1/", "wss", 50, 1),
            measured("http://h1/", "http", 40, 1),
            measured("https://h2/", "https", 45, 3),
            measured("ws://w2/", "ws", 51, 9),
        ],
        Duration::from_secs(1),
        Duration::from_secs(1),
    );
    assert_eq!(list.rpc_url().unwrap().url(), "https://h2/");
    assert_eq!(list.ws_url().unwrap().url(), "ws://w2/");
}

#[test]
fn ws_url_is_none_without_websocket_endpoints() {
    let list = RpcUrlList::from_rpc_urls(
        vec![endpoint("http://h/", "http")],
        Duration::from_secs(1),
        Duration::from_secs(1),
    );
    assert!(list.ws_url().is_none());
    assert_eq!(list.rpc_url().unwrap().url(), "http://h/");
}

#[test]
fn get_url_finds_by_url() {
    let list = RpcUrlList::new(
        vec![parse("http://localhost:8545"), parse("ws://localhost:8546")],
        Duration::from_secs(1),
        Duration::from_secs(1),
    );
    let found = list.get_url(parse("ws://localhost:8546")).unwrap();
    assert_eq!(found.url(), "ws://localhost:8546/");
    assert!(list.get_url(parse("ws://localhost:9999")).is_none());
    assert!(list.find_by_url("http://localhost:8545/").is_some());
    assert!(list.find_by_url("http://localhost:8545").is_none());
}

#[test]
fn update_replaces_and_reranks() {
    let mut list = RpcUrlList::from_rpc_urls(
        vec![
            endpoint("http://a/", "http"),
            endpoint("http://b/", "http"),
            endpoint("http://c/", "http"),
        ],
        Duration::from_secs(1),
        Duration::from_secs(1),
    );
    let b = list.find_by_url("http://b/").unwrap();
    list.update(b.after_check(ProbeOutcome::Answered { height: Some(7), latency_nanos: 3 }, 4).unwrap());
    assert_eq!(urls_of(&list), vec!["http://b/", "http://a/", "http://c/"]);
    let read = list.find_by_url("http://b/").unwrap();
    assert_eq!(read.height(), Some(7));
    assert_eq!(read.request_time(), Some(4));
    assert_eq!(read.request_status(), Some(RequestStatus::Success));
    assert_eq!(list.rpc_url().unwrap().url(), "http://b/");

    let c = list.find_by_url("http://c/").unwrap();
    list.update(c.after_check(ProbeOutcome::Answered { height: Some(8), latency_nanos: 3 }, 5).unwrap());
    assert_eq!(urls_of(&list), vec!["http://c/", "http://b/", "http://a/"]);

    let c = list.find_by_url("http://c/").unwrap();
    list.update(c.after_check(ProbeOutcome::TimedOut, 6).unwrap());
    assert_eq!(urls_of(&list), vec!["http://b/", "http://a/", "http://c/"]);
    assert_eq!(list.find_by_url("http://c/").unwrap().request_status(), Some(RequestStatus::Timeout));
    assert_eq!(list.find_by_url("http://a/").unwrap().height(), None);
    assert_eq!(list.len(), 3);
    assert_eq!(list.buffer_size(), 3);
}

#[test]
fn update_with_unknown_url_adds_it() {
    let mut list = RpcUrlList::from_rpc_urls(
        vec![endpoint("http://a/", "http")],
        Duration::from_secs(1),
        Duration::from_secs(1),
    );
    list.update(measured("http://z/", "http", 3, 3));
    assert_eq!(urls_of(&list), vec!["http://z/", "http://a/"]);
    assert_eq!(list.buffer_size(), 1);
}

#[test]
fn probe_round_keeps_urls_and_length() {
    let mut list = RpcUrlList::new(
        vec![parse("http://a.example"), parse("wss://b.example"), parse("https://c.example")],
        Duration::from_secs(1),
        Duration::from_secs(1),
    );
    let before = urls_of(&list);
    let outcomes = [
        ProbeOutcome::Answered { height: Some(9), latency_nanos: 4 },
        ProbeOutcome::ConnectFailed,
        ProbeOutcome::TimedOut,
    ];
    for (rpc_url, outcome) in list.all_rpc_urls().into_iter().zip(outcomes) {
        if let Some(next) = rpc_url.after_check(outcome, 30) {
            list.update(next);
        }
    }
    let mut after = urls_of(&list);
    let mut sorted_before = before.clone();
    after.sort();
    sorted_before.sort();
    assert_eq!(after, sorted_before);
    assert_eq!(list.len(), 3);
    assert_eq!(list.buffer_size(), 3);
    assert_eq!(list.rpc_url().unwrap().url(), "http://a.example/");
    assert_eq!(list.find_by_url("wss://b.example/").unwrap().request_status(), None);
    assert_eq!(
        list.find_by_url("https://c.example/").unwrap().request_status(),
        Some(RequestStatus::Timeout)
    );
    list.prove_well_formed();
}
