use std::sync::Arc;
use ttyd::auth::Authenticator;
use ttyd::cli::{AuthMode, Config};
use ttyd::headers::{header, Header};
use ttyd::state::AppState;
use ttyd::ws::query::unescape;
use ttyd::ws::{
    handle_upgrade, normalize_origin, origin_matches_host, parse_url_args, ws_token_required,
    ClientSlot, Upgrade,
};

fn headers(pairs: &[(&str, &str)]) -> Vec<Header> {
    pairs.iter().map(|(k, v)| header(k, v)).collect()
}

fn state(mutate: impl FnOnce(&mut Config)) -> AppState {
    let mut cfg = Config {
        argv: vec!["bash".into()],
        command: "bash".into(),
        ..Default::default()
    };
    mutate(&mut cfg);
    let auth = Authenticator::new(AuthMode::Disabled);
    AppState::new(Arc::new(cfg), auth)
}

#[test]
fn url_args_are_percent_decoded() {
    assert_eq!(
        parse_url_args(Some("arg=hello%20world&arg=a%2Bb&arg=caf%C3%A9")),
        vec!["hello world", "a+b", "café"]
    );
    assert_eq!(parse_url_args(Some("arg=one+two")), vec!["one two"]);
}

#[test]
fn a_malformed_escape_is_left_alone() {
    assert_eq!(parse_url_args(Some("arg=100%zz")), vec!["100%zz"]);
    assert_eq!(parse_url_args(Some("arg=trailing%")), vec!["trailing%"]);
}

#[test]
fn url_args_are_collected_in_order() {
    assert_eq!(
        parse_url_args(Some("arg=foo&arg=bar&other=x")),
        vec!["foo", "bar"]
    );
    assert_eq!(parse_url_args(Some("other=x")), Vec::<String>::new());
    assert_eq!(parse_url_args(None), Vec::<String>::new());
}

#[test]
fn default_ports_are_dropped_from_the_origin() {
    assert_eq!(
        normalize_origin("http://example.com").unwrap(),
        "example.com"
    );
    assert_eq!(
        normalize_origin("http://example.com:80").unwrap(),
        "example.com"
    );
    assert_eq!(
        normalize_origin("https://example.com:443").unwrap(),
        "example.com"
    );
    assert_eq!(
        normalize_origin("http://example.com:8080").unwrap(),
        "example.com:8080"
    );
}

#[test]
fn origin_must_match_host() {
    let same = headers(&[
        ("origin", "http://localhost:7681"),
        ("host", "localhost:7681"),
    ]);
    assert!(origin_matches_host(&same));

    let different = headers(&[("origin", "http://evil.test"), ("host", "localhost:7681")]);
    assert!(!origin_matches_host(&different));
}

#[test]
fn missing_origin_fails_the_check() {
    let only_host = headers(&[("host", "localhost:7681")]);
    assert!(!origin_matches_host(&only_host));
}

#[test]
fn ipv6_origins_keep_their_brackets() {
    assert_eq!(normalize_origin("http://[::1]:7681").unwrap(), "[::1]:7681");
    assert_eq!(normalize_origin("http://[::1]").unwrap(), "[::1]");
}

#[test]
fn an_origin_carrying_the_other_schemes_default_port_is_accepted() {
    for (origin, expected) in [
        ("http://127.0.0.1", true),
        ("http://127.0.0.1:80", true),
        ("https://127.0.0.1:443", true),
        ("https://127.0.0.1:80", true),
        ("http://127.0.0.1:443", true),
        ("http://127.0.0.1:8080", false),
    ] {
        let request = headers(&[("Origin", origin), ("Host", "127.0.0.1")]);
        assert_eq!(
            origin_matches_host(&request),
            expected,
            "origin {origin} against Host: 127.0.0.1"
        );
    }
}

#[test]
fn an_origin_with_an_unrecognised_scheme_is_refused() {
    for origin in ["ftp://127.0.0.1", "HTTP://127.0.0.1", "127.0.0.1", "null"] {
        let request = headers(&[("Origin", origin), ("Host", "127.0.0.1")]);
        assert!(!origin_matches_host(&request), "origin {origin} must be refused");
    }
}

#[test]
fn the_host_of_an_origin_ends_where_its_path_begins() {
    assert_eq!(normalize_origin("ws://a.b/c:9").unwrap(), "a.b");
    assert_eq!(normalize_origin("wss://a.b?c").unwrap(), "a.b");
    assert_eq!(normalize_origin("https://a.b#c").unwrap(), "a.b");
    assert_eq!(normalize_origin("http://"), None);
    assert_eq!(normalize_origin("http:///path"), None);
    assert_eq!(normalize_origin("http://a:65536"), None);
    assert_eq!(normalize_origin("http://a:0080").unwrap(), "a");
    assert_eq!(normalize_origin("http://a:08081").unwrap(), "a:8081");
    assert_eq!(normalize_origin("http://a:").unwrap(), "a:");
    assert_eq!(normalize_origin("http://a:b").unwrap(), "a:b");
}

#[test]
fn escapes_are_bytes_and_everything_else_stays() {
    assert_eq!(unescape(b"%41%62+%"), b"Ab %");
    assert_eq!(unescape(b"%+1%4"), b"% 1%4");
    let all: Vec<u8> = (0..=255).collect();
    let mut escaped = Vec::new();
    for b in &all {
        escaped.extend_from_slice(format!("%{b:02X}").as_bytes());
    }
    assert_eq!(unescape(&escaped), all);
    assert_eq!(parse_url_args(Some("arg=%FF")), vec!["\u{fffd}"]);
    assert_eq!(parse_url_args(Some("arg=é%é")), vec!["é%é"]);
    assert_eq!(parse_url_args(Some("arg=&ARG=x&&arg=b")), vec!["", "b"]);
}

#[test]
fn an_upgrade_is_checked_for_its_origin_before_it_takes_a_slot() {
    let mut s = state(|c| {
        c.check_origin = true;
        c.max_clients = 1;
    });
    let foreign = headers(&[("origin", "http://evil.test"), ("host", "me")]);
    let refused = handle_upgrade(&mut s, &foreign, None);
    assert!(matches!(refused, Upgrade::Forbidden));
    assert_eq!(refused.refusal(), Some(403));
    assert_eq!(s.client_count(), 0);

    let own = headers(&[("origin", "http://ME"), ("host", "me")]);
    assert_eq!(handle_upgrade(&mut s, &own, None).refusal(), None);
    assert_eq!(s.client_count(), 1);
    let full = handle_upgrade(&mut s, &own, None);
    assert!(matches!(full, Upgrade::Full));
    assert_eq!(full.refusal(), Some(503));
    assert_eq!(s.client_count(), 1);
}

#[test]
fn url_arguments_count_only_when_allowed() {
    let mut without = state(|_| {});
    match handle_upgrade(&mut without, &[], Some("arg=x")) {
        Upgrade::Accepted { args, .. } => assert!(args.is_empty()),
        other => panic!("{other:?}"),
    }
    let mut with = state(|c| c.url_arg = true);
    match handle_upgrade(&mut with, &[], Some("arg=x&arg=y%20z")) {
        Upgrade::Accepted { args, .. } => assert_eq!(args, vec!["x", "y z"]),
        other => panic!("{other:?}"),
    }
}

#[test]
fn only_basic_authentication_needs_a_token() {
    assert!(ws_token_required(&AuthMode::Basic {
        credential: "x".into()
    }));
    assert!(!ws_token_required(&AuthMode::Disabled));
    assert!(!ws_token_required(&AuthMode::TrustedHeader {
        header: "x".into()
    }));
}

#[test]
fn a_slot_is_given_back_once() {
    let mut s = state(|c| c.once = true);
    let mut slot = ClientSlot::acquire(&mut s).unwrap();
    assert!(ClientSlot::acquire(&mut s).is_none());
    assert_eq!(s.client_count(), 1);
    assert_eq!(slot.release(&mut s), 0);
    assert_eq!(slot.release(&mut s), 0);
    assert_eq!(s.client_count(), 0);
    assert!(ClientSlot::acquire(&mut s).is_some());
}

#[test]
fn default_ports_are_dropped_behind_a_bracketed_address_too() {
    assert_eq!(normalize_origin("http://[::1]:80").unwrap(), "[::1]");
    assert_eq!(normalize_origin("https://[::1]:443").unwrap(), "[::1]");
    assert_eq!(normalize_origin("https://[::1]:80").unwrap(), "[::1]");
    assert_eq!(normalize_origin("http://[::1]:8080").unwrap(), "[::1]:8080");
    let request = headers(&[("origin", "http://[::1]:80"), ("host", "[::1]")]);
    assert!(origin_matches_host(&request));
}
