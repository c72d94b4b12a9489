use ttyd::cli::options::{collect_options, find_command_start};
use ttyd::cli::values::credential_of;
use ttyd::utils::System;
use ttyd::cli::{
    config_summary, parse, AuthMode, Config, Endpoints, Outcome, ParseEnvironment,
    MAX_SRV_BUF_SIZE, MAX_TERMINAL_TYPE,
};

fn no_paths() -> ParseEnvironment {
    ParseEnvironment {
        version: "2.0.1".to_string(),
        system: System::Linux,
        home: None,
        probes: Vec::new(),
    }
}

fn argv(items: &[&str]) -> Vec<String> {
    items.iter().map(|s| s.to_string()).collect()
}

#[test]
fn an_oversized_send_buffer_is_clamped() {
    let cfg = run(&["ttyd", "-f", "9999999999999", "bash"]);
    assert_eq!(cfg.srv_buf_size, MAX_SRV_BUF_SIZE as usize);
    assert_eq!(run(&["ttyd", "-f", "65536", "bash"]).srv_buf_size, 65536);
}

fn run(items: &[&str]) -> Config {
    match parse(&argv(items), &no_paths()) {
        Outcome::Run(cfg) => *cfg,
        Outcome::Exit(code) => panic!("expected a config, got exit {code}"),
    }
}

#[test]
fn command_starts_at_first_non_option() {
    let cfg = run(&["ttyd", "-W", "-p", "8080", "bash", "-c", "echo hi"]);
    assert_eq!(cfg.argv, argv(&["bash", "-c", "echo hi"]));
    assert_eq!(cfg.command, "bash -c echo hi");
    assert_eq!(cfg.port, 8080);
    assert!(cfg.writable);
}

#[test]
fn options_after_the_command_belong_to_the_command() {
    let cfg = run(&["ttyd", "bash", "-W", "-p", "9999"]);
    assert_eq!(cfg.argv, argv(&["bash", "-W", "-p", "9999"]));
    assert!(
        !cfg.writable,
        "-W after the command must not configure ttyd"
    );
    assert_eq!(cfg.port, 7681);
}

#[test]
fn clustered_short_options_are_split() {
    let cfg = run(&["ttyd", "-Wa6", "bash"]);
    assert!(cfg.writable && cfg.url_arg && cfg.ipv6);
}

#[test]
fn attached_short_option_value_is_read() {
    let cfg = run(&["ttyd", "-p7000", "bash"]);
    assert_eq!(cfg.port, 7000);
}

#[test]
fn long_option_with_equals_is_read() {
    let cfg = run(&["ttyd", "--port=7100", "--terminal-type=vt100", "bash"]);
    assert_eq!(cfg.port, 7100);
    assert_eq!(cfg.terminal_type, "vt100");
}

#[test]
fn the_startup_summary_never_contains_the_credential() {
    let cfg = run(&["ttyd", "-c", "user:pass", "bash"]);
    let summary = config_summary(&cfg).join("\n");
    assert!(
        summary.contains("basic auth enabled"),
        "the summary should still say auth is on: {summary}"
    );
    for secret in ["dXNlcjpwYXNz", "user:pass"] {
        assert!(
            !summary.contains(secret),
            "the credential leaked into the startup summary: {summary}"
        );
    }
}

#[test]
fn credential_is_base64_encoded() {
    let cfg = run(&["ttyd", "-c", "user:pass", "bash"]);
    assert_eq!(cfg.credential(), Some("dXNlcjpwYXNz"));
    assert!(cfg.requires_ws_token());
}

#[test]
fn base_path_shifts_every_endpoint() {
    let cfg = run(&["ttyd", "-b", "/mounted/here/", "bash"]);
    assert_eq!(cfg.endpoints.parent, "/mounted/here");
    assert_eq!(cfg.endpoints.index, "/mounted/here/");
    assert_eq!(cfg.endpoints.token, "/mounted/here/token");
    assert_eq!(cfg.endpoints.ws, "/mounted/here/ws");
}

#[test]
fn a_base_path_without_a_leading_slash_is_normalized() {
    let cfg = run(&["ttyd", "-b", "mounted", "bash"]);
    assert_eq!(cfg.endpoints.parent, "/mounted");
    assert_eq!(cfg.endpoints.index, "/mounted/");
}

#[test]
fn a_base_path_with_route_syntax_is_rejected() {
    for bad in ["/a{x}", "/a?b", "/a#b"] {
        match parse(&argv(&["ttyd", "-b", bad, "bash"]), &no_paths()) {
            Outcome::Exit(code) => assert_eq!(code, 255, "for {bad}"),
            Outcome::Run(_) => panic!("{bad} should have been rejected"),
        }
    }
}

#[test]
fn command_start_agrees_with_option_parsing() {
    let cases: Vec<Vec<&str>> = vec![
        vec!["ttyd", "-W", "-p", "8080", "bash"],
        vec!["ttyd", "-Wa6", "bash", "-c", "x"],
        vec!["ttyd", "-p7000", "--terminal-type=vt100", "sh"],
        vec!["ttyd", "-Z", "-W", "bash"],
        vec!["ttyd", "--", "-weird"],
        vec!["ttyd", "-t", "a=b", "-c", "u:p", "bash"],
        vec!["ttyd", "--auth-url", "http://x/y", "bash"],
    ];
    for case in cases {
        let args = argv(&case);
        let start = find_command_start(&args);
        let mut notes = Vec::new();
        assert!(
            collect_options(&args, start, &mut notes).is_ok(),
            "option parsing failed for {case:?}"
        );
        assert!(start <= args.len(), "start out of range for {case:?}");
        if start < args.len() {
            let first = &args[start];
            assert!(
                !first.starts_with('-') || case.contains(&"--"),
                "command start {first:?} looks like an option in {case:?}"
            );
        }
    }
}

#[test]
fn empty_base_path_keeps_defaults() {
    let cfg = run(&["ttyd", "-b", "///", "bash"]);
    assert_eq!(cfg.endpoints, Endpoints::default());
}

#[test]
fn client_options_build_json_c_style_prefs() {
    let cfg = run(&[
        "ttyd",
        "-t",
        "fontSize=20",
        "-t",
        r#"theme={"background":"red"}"#,
        "-t",
        "titleFixed=hello",
        "bash",
    ]);
    assert_eq!(
        cfg.prefs_json,
        r#"{ "fontSize": 20, "theme": { "background": "red" }, "titleFixed": "hello" }"#
    );
}

#[test]
fn no_client_options_yields_empty_json_object() {
    assert_eq!(run(&["ttyd", "bash"]).prefs_json, "{ }");
}

#[test]
fn client_option_keeps_everything_after_the_first_equals() {
    let cfg = run(&["ttyd", "-t", "token=a=b=c", "bash"]);
    assert_eq!(cfg.prefs_json, r#"{ "token": "a=b=c" }"#);
}

#[test]
fn signal_name_and_number_both_work() {
    assert_eq!(run(&["ttyd", "-s", "SIGTERM", "bash"]).sig_code, 15);
    assert_eq!(run(&["ttyd", "-s", "9", "bash"]).sig_code, 9);
    assert_eq!(run(&["ttyd", "-s", "INT", "bash"]).sig_name, "SIGINT");
}

#[test]
fn the_window_title_defaults_to_the_command_and_host() {
    let title = run(&["ttyd", "sh", "-c", "secret-script.sh"]).window_title();
    assert!(
        title.starts_with("sh -c secret-script.sh ("),
        "title was {title:?}"
    );
    assert!(title.ends_with(')'), "title was {title:?}");
}

#[test]
fn the_title_option_replaces_the_command_line_entirely() {
    let cfg = run(&[
        "ttyd",
        "--title",
        "Support Console",
        "sh",
        "-c",
        "secret.sh",
    ]);
    assert_eq!(cfg.window_title(), "Support Console");
    assert!(
        !cfg.window_title().contains("secret.sh"),
        "the command line must not leak into an overridden title"
    );
}

#[test]
fn an_empty_title_is_honoured() {
    let cfg = run(&["ttyd", "--title", "", "sh", "-c", "secret.sh"]);
    assert_eq!(cfg.window_title(), "");
}

#[test]
fn terminal_type_is_truncated_like_the_c_buffer() {
    let long = "x".repeat(50);
    let cfg = run(&["ttyd", "-T", &long, "bash"]);
    assert_eq!(cfg.terminal_type.len(), MAX_TERMINAL_TYPE);
}

#[test]
fn missing_command_exits_255() {
    match parse(&argv(&["ttyd", "-p", "8080"]), &no_paths()) {
        Outcome::Exit(code) => assert_eq!(code, 255),
        Outcome::Run(_) => panic!("expected failure"),
    }
}

#[test]
fn credential_without_colon_exits_255() {
    match parse(&argv(&["ttyd", "-c", "nocolon", "bash"]), &no_paths()) {
        Outcome::Exit(code) => assert_eq!(code, 255),
        Outcome::Run(_) => panic!("expected failure"),
    }
}

#[test]
fn invalid_signal_exits_255() {
    match parse(&argv(&["ttyd", "-s", "NOPE", "bash"]), &no_paths()) {
        Outcome::Exit(code) => assert_eq!(code, 255),
        Outcome::Run(_) => panic!("expected failure"),
    }
}

#[test]
fn invalid_integer_exits_1() {
    match parse(&argv(&["ttyd", "-p", "abc", "bash"]), &no_paths()) {
        Outcome::Exit(code) => assert_eq!(code, 1),
        Outcome::Run(_) => panic!("expected failure"),
    }
}

#[test]
fn no_arguments_prints_help_and_exits_0() {
    match parse(&argv(&["ttyd"]), &no_paths()) {
        Outcome::Exit(code) => assert_eq!(code, 0),
        Outcome::Run(_) => panic!("expected help"),
    }
}

#[test]
fn unknown_option_is_ignored_like_getopt() {
    let cfg = run(&["ttyd", "-Z", "-W", "bash"]);
    assert!(cfg.writable);
    assert_eq!(cfg.argv, argv(&["bash"]));
}

#[test]
fn double_dash_starts_the_command() {
    let cfg = run(&["ttyd", "-W", "--", "-weird-command"]);
    assert_eq!(cfg.argv, argv(&["-weird-command"]));
    assert!(cfg.writable);
}

#[test]
fn auth_header_is_lowercased() {
    let cfg = run(&["ttyd", "-H", "X-Remote-User", "bash"]);
    assert_eq!(
        cfg.auth,
        AuthMode::TrustedHeader {
            header: "x-remote-user".into()
        }
    );
}

#[test]
fn forward_auth_defaults() {
    let cfg = run(&["ttyd", "--auth-url", "http://auth.local/verify", "bash"]);
    let AuthMode::Forward(f) = &cfg.auth else {
        panic!("expected forward auth, got {:?}", cfg.auth);
    };
    assert_eq!(f.url, "http://auth.local/verify");
    assert_eq!(f.method, "GET");
    assert_eq!(f.user_header, "X-Auth-User");
    assert_eq!(f.cache_ttl, 0);
    assert_eq!(
        f.effective_request_headers(),
        vec!["cookie", "authorization"]
    );
}

#[test]
fn forward_auth_is_fully_configurable() {
    let cfg = run(&[
        "ttyd",
        "-R",
        "http://auth/v",
        "-F",
        "Cookie",
        "-F",
        "X-Token",
        "-N",
        "X-User",
        "--auth-method",
        "post",
        "--auth-cache-ttl",
        "30",
        "bash",
    ]);
    let AuthMode::Forward(f) = &cfg.auth else {
        panic!("expected forward auth");
    };
    assert_eq!(f.method, "POST");
    assert_eq!(f.user_header, "X-User");
    assert_eq!(f.cache_ttl, 30);
    assert_eq!(f.effective_request_headers(), vec!["cookie", "x-token"]);
}

#[test]
fn forward_auth_takes_precedence_over_basic_and_header() {
    let cfg = run(&[
        "ttyd",
        "-c",
        "a:b",
        "-H",
        "X-User",
        "-R",
        "http://auth/v",
        "bash",
    ]);
    assert!(matches!(cfg.auth, AuthMode::Forward(_)));
    assert_eq!(cfg.credential(), None);
}

#[test]
fn unix_socket_is_detected_from_the_interface_suffix() {
    assert!(run(&["ttyd", "-i", "/run/ttyd.sock", "bash"]).is_unix_socket());
    assert!(run(&["ttyd", "-i", "/run/ttyd.socket", "bash"]).is_unix_socket());
    assert!(!run(&["ttyd", "-i", "eth0", "bash"]).is_unix_socket());
}

#[test]
fn different_logins_have_different_credentials() {
    let logins = ["a:", "a:b", "a:bc", "a:bcd", "ab:cd", "\u{e9}:x", ":"];
    let credentials: Vec<String> = logins
        .iter()
        .map(|login| credential_of(login))
        .collect();
    assert_eq!(credentials[0], "YTo=");
    assert_eq!(credentials[1], "YTpi");
    assert_eq!(credentials[2], "YTpiYw==");
    for (i, one) in credentials.iter().enumerate() {
        for other in &credentials[i + 1..] {
            assert_ne!(one, other);
        }
    }
}

#[test]
fn a_switch_is_on_exactly_when_its_option_is_given() {
    let none = run(&["ttyd", "bash", "-aWOoqB6S"]);
    let all = run(&["ttyd", "-aWOoqB6S", "bash"]);
    for (cfg, expected) in [(none, false), (all, true)] {
        assert_eq!(
            [
                cfg.url_arg,
                cfg.writable,
                cfg.check_origin,
                cfg.once,
                cfg.exit_no_conn,
                cfg.browser,
                cfg.ipv6,
                cfg.ssl,
            ],
            [expected; 8]
        );
    }
}
