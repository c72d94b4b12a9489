use ttyd::cli::{config_summary, Config};
use ttyd::logging::{log_level, LogLevel};
use ttyd::serve::{
    bind_plan, browser_url, handling, listening_line, privilege_steps, resolve_bind_address,
    socket_steps, startup_lines, tls_files, BindPlan, Handling, InterfaceAddress, PrivilegeStep, SocketStep,
};

fn cfg(mutate: impl FnOnce(&mut Config)) -> Config {
    let mut c = Config {
        argv: vec!["bash".into()],
        command: "bash".into(),
        ..Default::default()
    };
    mutate(&mut c);
    c
}

fn entry(name: &str, v4: Option<&str>, v6: Option<&str>) -> InterfaceAddress {
    InterfaceAddress {
        name: name.to_string(),
        v4: v4.map(|a| a.to_string()),
        v6: v6.map(|a| a.to_string()),
    }
}

fn machine() -> Vec<InterfaceAddress> {
    vec![
        entry("lo", None, None),
        entry("lo", Some("127.0.0.1"), None),
        entry("eth0", Some("10.0.0.2"), None),
        entry("eth1", Some("10.0.0.3"), None),
        entry("eth1", None, Some("fe80::1")),
        entry("eth1", None, Some("fe80::2")),
    ]
}

#[test]
fn no_interface_binds_all_ipv4_addresses() {
    assert!(matches!(
        bind_plan(&cfg(|_| {})),
        BindPlan::Any { ipv6: false }
    ));
}

#[test]
fn the_ipv6_flag_binds_the_unspecified_v6_address() {
    assert!(matches!(
        bind_plan(&cfg(|c| c.ipv6 = true)),
        BindPlan::Any { ipv6: true }
    ));
}

#[test]
fn a_literal_address_is_used_as_given() {
    let address = resolve_bind_address(Some("127.0.0.1".into()), &[], "127.0.0.1", false);
    assert_eq!(address, Ok("127.0.0.1".to_string()));
}

#[test]
fn an_interface_name_resolves_to_its_address() {
    match bind_plan(&cfg(|c| c.iface = Some("lo".into()))) {
        BindPlan::Named { iface, ipv6 } => {
            let address = resolve_bind_address(None, &machine(), &iface, ipv6);
            assert_eq!(address, Ok("127.0.0.1".to_string()));
        }
        other => panic!("{other:?}"),
    }
    assert_eq!(
        resolve_bind_address(None, &machine(), "eth1", true),
        Ok("fe80::1".to_string())
    );
}

#[test]
fn an_interface_without_ipv6_is_an_error_not_a_silent_v4_fallback() {
    match resolve_bind_address(None, &machine(), "eth0", true) {
        Ok(address) => panic!("-6 -i eth0 resolved to {address}, ignoring -6"),
        Err(e) => assert!(e.contains("no IPv6 address"), "unhelpful error: {e}"),
    }
}

#[test]
fn an_unknown_interface_is_an_error_rather_than_a_silent_wildcard() {
    let result = resolve_bind_address(None, &machine(), "nosuchdev0", false);
    assert_eq!(
        result,
        Err("no address found for interface nosuchdev0".to_string())
    );
}

#[test]
fn a_socket_path_is_bound_as_a_socket() {
    match bind_plan(&cfg(|c| c.iface = Some("/run/t.sock".into()))) {
        BindPlan::Unix { path } => assert_eq!(path, "/run/t.sock"),
        other => panic!("{other:?}"),
    }
}

#[test]
fn a_socket_goes_to_its_owner_and_always_gets_its_mode() {
    let steps = socket_steps(&cfg(|c| {
        c.uid = Some(5);
        c.socket_owner = Some("web:adm".into());
    }));
    assert_eq!(steps.len(), 3);
    assert!(matches!(
        steps[0],
        SocketStep::Chown {
            uid: Some(5),
            gid: None
        }
    ));
    match &steps[1] {
        SocketStep::Owner { user, group } => {
            assert_eq!((user.as_str(), group.as_deref()), ("web", Some("adm")))
        }
        other => panic!("{other:?}"),
    }
    assert!(matches!(steps[2], SocketStep::Chmod { mode: 0o660 }));
    assert_eq!(socket_steps(&cfg(|_| {})).len(), 1);
    match &socket_steps(&cfg(|c| c.socket_owner = Some("web:".into())))[0] {
        SocketStep::Owner { user, group } => {
            assert_eq!((user.as_str(), group.as_deref()), ("web", None))
        }
        other => panic!("{other:?}"),
    }
}

#[test]
fn privileges_are_given_up_in_order() {
    assert!(privilege_steps(&cfg(|_| {}), 7, None).is_empty());
    let both = privilege_steps(
        &cfg(|c| {
            c.uid = Some(1);
            c.gid = Some(2);
        }),
        7,
        Some("nobody".into()),
    );
    match &both[0] {
        PrivilegeStep::InitGroups { user, gid } => {
            assert_eq!((user.as_str(), *gid), ("nobody", 2))
        }
        other => panic!("{other:?}"),
    }
    assert!(matches!(both[1], PrivilegeStep::SetGid { gid: 2 }));
    assert!(matches!(both[2], PrivilegeStep::SetUid { uid: 1 }));
    assert_eq!(both.len(), 3);

    let user = privilege_steps(&cfg(|c| c.uid = Some(1)), 7, Some("nobody".into()));
    assert!(matches!(&user[0], PrivilegeStep::InitGroups { gid: 7, .. }));
    assert!(matches!(user[1], PrivilegeStep::SetUid { uid: 1 }));

    let group = privilege_steps(&cfg(|c| c.gid = Some(2)), 7, None);
    assert!(matches!(group[0], PrivilegeStep::ClearGroups));
    assert!(matches!(group[1], PrivilegeStep::SetGid { gid: 2 }));
    assert_eq!(group.len(), 2);
}

#[test]
fn tls_needs_a_certificate_and_a_key() {
    assert_eq!(
        tls_files(&cfg(|_| {})).unwrap_err(),
        "--ssl requires --ssl-cert"
    );
    assert_eq!(
        tls_files(&cfg(|c| c.ssl_cert = Some("c".into()))).unwrap_err(),
        "--ssl requires --ssl-key"
    );
    let files = tls_files(&cfg(|c| {
        c.ssl_cert = Some("c".into());
        c.ssl_key = Some("k".into());
        c.ssl_ca = Some("a".into());
    }))
    .unwrap();
    assert_eq!((files.cert.as_str(), files.key.as_str()), ("c", "k"));
    assert_eq!(files.ca.as_deref(), Some("a"));
}

#[test]
fn the_first_byte_tells_a_handshake_from_plain_http() {
    assert_eq!(handling(false, None), Handling::Plain);
    assert_eq!(handling(true, Some(0x16)), Handling::Tls);
    assert_eq!(handling(true, Some(b'G')), Handling::RedirectToHttps);
    assert_eq!(handling(true, None), Handling::Drop);
}

#[test]
fn the_browser_opens_the_bound_port() {
    assert_eq!(browser_url(false, 7681), "http://localhost:7681");
    assert_eq!(browser_url(true, 0), "https://localhost:0");
}

#[test]
fn the_highest_bit_sets_the_log_level() {
    assert_eq!(log_level(7), Some(LogLevel::Info));
    assert_eq!(log_level(0), None);
    assert_eq!(log_level(1), Some(LogLevel::Error));
    assert_eq!(log_level(2), Some(LogLevel::Warn));
    assert_eq!(log_level(8), Some(LogLevel::Debug));
    assert_eq!(log_level(31), Some(LogLevel::Trace));
    assert_eq!(log_level(32), None);
}

#[test]
fn more_bits_never_log_less() {
    fn rank(level: Option<LogLevel>) -> usize {
        match level {
            None => 0,
            Some(LogLevel::Error) => 1,
            Some(LogLevel::Warn) => 2,
            Some(LogLevel::Info) => 3,
            Some(LogLevel::Debug) => 4,
            Some(LogLevel::Trace) => 5,
        }
    }
    for level in 0..64 {
        assert_eq!(log_level(level), log_level(level & 31));
        for more in 0..64 {
            assert!(rank(log_level(level | more)) >= rank(log_level(level)));
        }
    }
}

#[test]
fn the_start_is_logged() {
    let c = cfg(|_| {});
    let lines = startup_lines(&c, "2.0.1-abc1234");
    assert_eq!(lines[0], "ttyd 2.0.1-abc1234 (rust)");
    assert_eq!(lines[1..], config_summary(&c)[..]);
    assert_eq!(listening_line(&c, 7681), " Listening on port: 7681");
    let socket = cfg(|c| c.iface = Some("/run/ttyd.sock".into()));
    assert_eq!(
        listening_line(&socket, 0),
        " Listening on unix socket: /run/ttyd.sock"
    );
}
