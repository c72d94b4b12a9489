use std::sync::Arc;
use ttyd::auth::Authenticator;
use ttyd::cli::{AuthMode, Config};
use ttyd::state::{AppState, ConnInfo};

fn state(mutate: impl FnOnce(&mut Config)) -> AppState {
    let mut cfg = Config {
        argv: vec!["bash".into()],
        command: "bash".into(),
        ..Default::default()
    };
    mutate(&mut cfg);
    let auth = Authenticator::new(AuthMode::Disabled);
    AppState::new(Arc::new(cfg), auth)
}

#[test]
fn unlimited_by_default() {
    let mut s = state(|_| {});
    for _ in 0..100 {
        assert!(s.try_acquire_client());
    }
    assert_eq!(s.client_count(), 100);
}

#[test]
fn max_clients_is_enforced() {
    let mut s = state(|c| c.max_clients = 2);
    assert!(s.try_acquire_client());
    assert!(s.try_acquire_client());
    assert!(!s.try_acquire_client());
    assert_eq!(s.release_client(), 1);
    assert!(s.try_acquire_client());
}

#[test]
fn a_limit_beyond_any_count_lets_everybody_in() {
    let mut s = state(|c| c.max_clients = usize::MAX);
    assert!(s.try_acquire_client());
    assert!(s.try_acquire_client());
    assert_eq!(s.client_count(), 2);
}

#[test]
fn once_allows_a_single_concurrent_client() {
    let mut s = state(|c| c.once = true);
    assert!(s.try_acquire_client());
    assert!(!s.try_acquire_client());
}

#[test]
fn shutdown_is_remembered() {
    let mut s = state(|_| {});
    assert!(!s.is_shutting_down());
    s.begin_shutdown();
    assert!(s.is_shutting_down());
}

#[test]
fn running_children_are_known_once_each() {
    let mut s = state(|_| {});
    s.register_child(10);
    s.register_child(20);
    s.register_child(10);
    let mut pids = s.child_pids();
    pids.sort();
    assert_eq!(pids, vec![10, 20]);
    s.unregister_child(10);
    s.unregister_child(99);
    assert_eq!(s.child_pids(), vec![20]);
}

#[test]
fn a_peer_without_an_address_is_a_unix_socket() {
    assert_eq!(ConnInfo::default().peer_display(), "unix");
    let conn = ConnInfo {
        peer: Some("127.0.0.1".to_string()),
        tls: true,
    };
    assert_eq!(conn.peer_display(), "127.0.0.1");
}
