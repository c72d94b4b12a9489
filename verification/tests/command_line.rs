use ttyd::cli::values::{names_http_endpoint, parse_int, truncate};
use ttyd::utils::System;
use ttyd::cli::{
    config_summary, help_text, index_paths, parse_report, version, AuthMode, Config, Outcome,
    ParseEnvironment, PathProbe, Report, VERSION,
};

fn environment() -> ParseEnvironment {
    ParseEnvironment {
        version: version(Some("abc1234")),
        system: System::Linux,
        home: Some("/home/me".to_string()),
        probes: vec![
            ("/srv/index.html".to_string(), PathProbe::File),
            ("/home/me/index.html".to_string(), PathProbe::File),
            ("/tmp".to_string(), PathProbe::Directory),
            (
                "/nonexistent/index.html".to_string(),
                PathProbe::Missing {
                    error: "No such file or directory".to_string(),
                },
            ),
        ],
    }
}

fn words(items: &[&str]) -> Vec<String> {
    let mut all = vec!["ttyd".to_string()];
    all.extend(items.iter().map(|s| s.to_string()));
    all
}

fn report(items: &[&str]) -> Report {
    parse_report(&words(items), &environment())
}

struct Ran {
    code: i32,
    stdout: String,
    stderr: String,
}

fn run_cli(items: &[&str]) -> Ran {
    let report = report(items);
    match report.outcome {
        Outcome::Exit(code) => Ran {
            code,
            stdout: report.out.join("\n"),
            stderr: report.err.join("\n"),
        },
        Outcome::Run(_) => panic!("expected the process to end for {items:?}"),
    }
}

fn config(items: &[&str]) -> Config {
    match report(items).outcome {
        Outcome::Run(cfg) => *cfg,
        Outcome::Exit(code) => panic!("expected a configuration for {items:?}, got exit {code}"),
    }
}

#[test]
fn version_goes_to_stdout() {
    let result = run_cli(&["--version"]);
    assert_eq!(result.code, 0);
    assert!(
        result.stdout.starts_with("ttyd version "),
        "stdout was {:?}",
        result.stdout
    );
    assert_eq!(result.stdout, "ttyd version 2.0.1-abc1234");
    assert_eq!(result.stderr, "");
}

#[test]
fn short_version_flag_matches_the_long_one() {
    assert_eq!(run_cli(&["-v"]).stdout, run_cli(&["--version"]).stdout);
}

#[test]
fn help_goes_to_stderr_and_exits_zero() {
    let result = run_cli(&["--help"]);
    assert_eq!(result.code, 0);
    assert!(result.stdout.is_empty(), "help must not go to stdout");
    assert!(result
        .stderr
        .contains("ttyd is a tool for sharing terminal over the web"));
    assert!(result.stderr.contains("USAGE:"));
}

#[test]
fn help_documents_every_original_option() {
    let stderr = run_cli(&["--help"]).stderr;
    for option in [
        "--port",
        "--interface",
        "--socket-owner",
        "--credential",
        "--auth-header",
        "--uid",
        "--gid",
        "--signal",
        "--cwd",
        "--url-arg",
        "--writable",
        "--client-option",
        "--terminal-type",
        "--check-origin",
        "--max-clients",
        "--once",
        "--exit-no-conn",
        "--browser",
        "--index",
        "--base-path",
        "--ping-interval",
        "--srv-buf-size",
        "--ipv6",
        "--ssl",
        "--ssl-cert",
        "--ssl-key",
        "--ssl-ca",
        "--debug",
        "--version",
        "--help",
    ] {
        assert!(stderr.contains(option), "help is missing {option}");
    }
}

#[test]
fn bare_invocation_prints_help() {
    let result = run_cli(&[]);
    assert_eq!(result.code, 0);
    assert!(result.stderr.contains("USAGE:"));
    assert_eq!(result.stderr, help_text("2.0.1-abc1234"));
}

#[test]
fn missing_command_is_rejected() {
    let result = run_cli(&["-p", "0"]);
    assert_eq!(result.code, 255);
    assert!(result.stderr.contains("ttyd: missing start command"));
}

#[test]
fn credential_without_a_colon_is_rejected() {
    let result = run_cli(&["-c", "nocolon", "bash"]);
    assert_eq!(result.code, 255);
    assert!(result
        .stderr
        .contains("ttyd: invalid credential, format: username:password"));
}

#[test]
fn an_unknown_signal_name_is_rejected() {
    let result = run_cli(&["-s", "NOTASIGNAL", "bash"]);
    assert_eq!(result.code, 255);
    assert!(result.stderr.contains("ttyd: invalid signal"));
}

#[test]
fn a_non_numeric_integer_option_exits_one() {
    let result = run_cli(&["-p", "notanumber", "bash"]);
    assert_eq!(result.code, 1);
    assert!(result.stderr.contains("invalid value for port"));
}

#[test]
fn a_malformed_auth_url_is_rejected_at_startup() {
    for bad in ["notaurl", "ftp://host/verify", "http:///no-host"] {
        let result = run_cli(&["--auth-url", bad, "bash"]);
        assert_eq!(result.code, 255, "{bad} was accepted");
        assert!(
            result.stderr.contains("invalid auth-url"),
            "{bad}: stderr was {:?}",
            result.stderr
        );
    }
}

#[test]
fn a_malformed_auth_method_is_rejected_at_startup() {
    let result = run_cli(&[
        "--auth-url",
        "http://x/v",
        "--auth-method",
        "BAD METHOD",
        "bash",
    ]);
    assert_eq!(result.code, 255);
    assert!(
        result.stderr.contains("invalid auth-method"),
        "stderr was {:?}",
        result.stderr
    );
}

#[test]
fn an_option_missing_its_argument_is_reported() {
    let long = run_cli(&["--credential"]);
    assert_eq!(long.code, 255);
    assert!(
        long.stderr.contains("requires an argument"),
        "stderr was {:?}",
        long.stderr
    );
    assert_eq!(
        long.stderr,
        "ttyd: option '--credential' requires an argument"
    );

    let short = run_cli(&["-c"]);
    assert_eq!(short.code, 255);
    assert!(
        short.stderr.contains("requires an argument"),
        "stderr was {:?}",
        short.stderr
    );
    assert_eq!(short.stderr, "ttyd: option requires an argument -- 'c'");
}

#[test]
fn an_unrecognized_option_is_reported_but_not_fatal() {
    let report = report(&["--no-such-option", "-WZ", "bash"]);
    assert_eq!(
        report.err,
        vec![
            "ttyd: unrecognized option '--no-such-option'",
            "ttyd: invalid option -- 'Z'"
        ]
    );
    match report.outcome {
        Outcome::Run(cfg) => assert!(cfg.writable),
        Outcome::Exit(code) => panic!("exit {code}"),
    }
}

#[test]
fn out_of_range_option_values_are_rejected() {
    for (args, needle) in [
        (vec!["-P", "-1", "bash"], "invalid ping interval"),
        (vec!["-f", "-1", "bash"], "invalid srv-buf-size"),
        (vec!["-t", "novalue", "bash"], "invalid client option"),
    ] {
        let result = run_cli(&args);
        assert_eq!(result.code, 255, "{args:?} was accepted");
        assert!(
            result.stderr.contains(needle),
            "{args:?}: stderr was {:?}",
            result.stderr
        );
    }
}

#[test]
fn a_hexadecimal_integer_is_accepted() {
    assert_eq!(config(&["-f", "0x2000", "bash"]).srv_buf_size, 0x2000);
    assert_eq!(config(&["-f", "0X10", "bash"]).srv_buf_size, 16);
}

#[test]
fn a_missing_custom_index_is_rejected() {
    let result = run_cli(&["-I", "/nonexistent/index.html", "bash"]);
    assert_eq!(result.code, 255);
    assert!(result.stderr.contains("Can not stat index.html"));
    assert_eq!(
        result.stderr,
        "Can not stat index.html: /nonexistent/index.html, error: No such file or directory"
    );
}

#[test]
fn a_directory_as_custom_index_is_rejected() {
    let result = run_cli(&["-I", "/tmp", "bash"]);
    assert_eq!(result.code, 255);
    assert!(result.stderr.contains("is it a dir?"));
}

#[test]
fn forward_auth_options_are_documented() {
    let stderr = run_cli(&["--help"]).stderr;
    for option in [
        "--auth-url",
        "--auth-request-header",
        "--auth-user-header",
        "--auth-method",
        "--auth-cache-ttl",
    ] {
        assert!(stderr.contains(option), "help is missing {option}");
    }
}

#[test]
fn a_negative_port_is_rejected() {
    let result = run_cli(&["-p", "-5", "bash"]);
    assert_eq!(result.code, 255);
    assert_eq!(result.stderr, "ttyd: invalid port: -5");
    assert_eq!(run_cli(&["-p", "65536", "bash"]).code, 255);
    assert_eq!(config(&["-p", "65535", "bash"]).port, 65535);
    assert_eq!(config(&["-p", "0", "bash"]).port, 0);
}

#[test]
fn a_custom_index_path_is_kept_and_a_tilde_expanded() {
    assert_eq!(
        config(&["-I", "/srv/index.html", "bash"]).index.as_deref(),
        Some("/srv/index.html")
    );
    assert_eq!(
        config(&["-I", "~/index.html", "bash"]).index.as_deref(),
        Some("/home/me/index.html")
    );
    let unknown = run_cli(&["-I", "/elsewhere", "bash"]);
    assert_eq!(unknown.code, 255);
}

#[test]
fn the_index_paths_are_known_before_parsing() {
    let home = Some("/home/me".to_string());
    assert_eq!(
        index_paths(
            &words(&["-I", "~/a", "-W", "--index=/b", "bash", "-I", "/c"]),
            &home
        ),
        vec!["/home/me/a", "/b"]
    );
    assert_eq!(index_paths(&words(&["-I", "~/a", "bash"]), &None), vec!["~/a"]);
    assert_eq!(index_paths(&[], &home), Vec::<String>::new());
}

#[test]
fn integers_reject_garbage_and_accept_space() {
    assert_eq!(parse_int("80"), Some(80));
    assert_eq!(parse_int(" +80\t"), Some(80));
    assert_eq!(parse_int("010"), None);
    assert_eq!(parse_int("-07"), None);
    assert_eq!(parse_int("+00"), None);
    assert_eq!(parse_int("0"), Some(0));
    assert_eq!(parse_int("-0"), Some(0));
    assert_eq!(parse_int("10"), Some(10));
    assert_eq!(parse_int("0x010"), Some(16));
    assert_eq!(parse_int("-1"), Some(-1));
    assert_eq!(parse_int("0xff"), Some(255));
    assert_eq!(parse_int("9223372036854775807"), Some(i64::MAX));
    assert_eq!(parse_int("-9223372036854775808"), Some(i64::MIN));
    assert_eq!(parse_int("9223372036854775808"), None);
    assert_eq!(parse_int("80abc"), None);
    assert_eq!(parse_int("0x"), None);
    assert_eq!(parse_int("-0x5"), None);
    assert_eq!(parse_int(""), None);
    assert_eq!(parse_int("+"), None);
}

#[test]
fn every_integer_option_reports_its_own_name() {
    for (short, name) in [
        ("-d", "debug"),
        ("-m", "max-clients"),
        ("-p", "port"),
        ("-u", "uid"),
        ("-g", "gid"),
        ("-P", "ping-interval"),
        ("-f", "srv-buf-size"),
    ] {
        let result = run_cli(&[short, "x1", "bash"]);
        assert_eq!(result.code, 1);
        assert_eq!(
            result.stderr,
            format!("ttyd: invalid value for {name}: x1")
        );
    }
    assert_eq!(
        run_cli(&["--auth-cache-ttl", "x1", "bash"]).stderr,
        "ttyd: invalid value for auth-cache-ttl: x1"
    );
}

#[test]
fn numbers_are_stored_as_given() {
    let cfg = config(&[
        "-d", "15", "-m", "3", "-u", "1000", "-g", "100", "-P", "30", "bash",
    ]);
    assert_eq!(cfg.debug_level, 15);
    assert_eq!(cfg.max_clients, 3);
    assert_eq!(cfg.uid, Some(1000));
    assert_eq!(cfg.gid, Some(100));
    assert_eq!(cfg.ping_interval, 30);
    let negative = config(&["-m", "-3", "-u", "-1", "-g", "-1", "bash"]);
    assert_eq!(negative.max_clients, 0);
    assert_eq!(negative.uid, Some(0));
    assert_eq!(negative.gid, Some(0));
    assert_eq!(config(&["-f", "0", "bash"]).srv_buf_size, 4096);
}

#[test]
fn a_clamped_buffer_is_reported() {
    let report = report(&["-f", "16777217", "bash"]);
    assert_eq!(
        report.err,
        vec!["ttyd: srv-buf-size 16777217 is above the 16777216 byte maximum, using 16777216"]
    );
    assert!(config(&["-f", "16777216", "bash"]).srv_buf_size == 16777216);
}

#[test]
fn texts_are_cut_at_whole_characters() {
    assert_eq!(truncate("abc", 5), "abc");
    assert_eq!(truncate("abc", 3), "abc");
    assert_eq!(truncate("abc", 2), "ab");
    assert_eq!(truncate("aéb", 2), "a");
    assert_eq!(truncate("aéb", 3), "aé");
    assert_eq!(truncate("😀x", 3), "");
    let long = "/".to_string() + &"x".repeat(300);
    assert_eq!(config(&["-b", &long, "bash"]).endpoints.parent.len(), 127);
    assert_eq!(
        config(&["-C", &"c".repeat(2000), "bash"]).ssl_cert.unwrap().len(),
        1023
    );
    assert_eq!(
        config(&["-i", &"e".repeat(200), "-U", &"o".repeat(200), "bash"])
            .socket_owner
            .unwrap()
            .len(),
        127
    );
}

#[test]
fn a_repeated_client_option_keeps_its_place_and_takes_the_last_value() {
    let cfg = config(&["-t", "a=1", "-t", "b=[1,true,null]", "-t", "a={}", "bash"]);
    assert_eq!(cfg.prefs_json, r#"{ "a": { }, "b": [ 1, true, null ] }"#);
    let text = config(&["-t", "q=say \"hi\"\n", "bash"]);
    assert_eq!(text.prefs_json, r#"{ "q": "say \"hi\"\n" }"#);
    let number = config(&["-t", "n=1.50e2", "bash"]);
    assert_eq!(number.prefs_json, r#"{ "n": 150.0 }"#);
}

#[test]
fn the_words_of_the_command_configure_nothing() {
    let plain = config(&["-W", "bash"]);
    let noisy = config(&["-W", "bash", "-p", "1", "--ssl", "--help", "-Z"]);
    assert_eq!(plain.port, noisy.port);
    assert_eq!(plain.ssl, noisy.ssl);
    assert_eq!(noisy.argv, vec!["bash", "-p", "1", "--ssl", "--help", "-Z"]);
    assert_eq!(noisy.command, "bash -p 1 --ssl --help -Z");
}

#[test]
fn an_unknown_option_changes_nothing_but_the_remarks() {
    let with = config(&["--what=ever", "-p", "8080", "sh"]);
    let without = config(&["-p", "8080", "sh"]);
    assert_eq!(with.port, without.port);
    assert_eq!(with.argv, without.argv);
    assert_eq!(config_summary(&with), config_summary(&without));
}

#[test]
fn an_auth_url_may_use_either_scheme_in_any_case() {
    for good in ["http://auth/v", "HTTPS://auth/v"] {
        assert!(matches!(
            config(&["-R", good, "bash"]).auth,
            AuthMode::Forward(_)
        ));
    }
    assert!(names_http_endpoint(&Some((
        Some("https".to_string()),
        true
    ))));
    assert!(!names_http_endpoint(&Some((
        Some("https".to_string()),
        false
    ))));
    assert!(!names_http_endpoint(&Some((Some("ws".to_string()), true))));
    assert!(!names_http_endpoint(&Some((None, true))));
    assert!(!names_http_endpoint(&None));
}

#[test]
fn an_auth_method_is_any_token() {
    let cfg = config(&["-R", "http://a/", "--auth-method", "x-custom!", "bash"]);
    match cfg.auth {
        AuthMode::Forward(f) => assert_eq!(f.method, "X-CUSTOM!"),
        other => panic!("{other:?}"),
    }
    assert_eq!(run_cli(&["--auth-method", "", "bash"]).code, 255);
}

#[test]
fn the_summary_lists_what_was_configured() {
    let cfg = config(&[
        "-c", "u:p", "-b", "/x", "-O", "-a", "-m", "4", "-o", "-q", "-w", "/srv", "-I",
        "/srv/index.html", "--title", "T", "-s", "TERM", "top",
    ]);
    assert_eq!(
        config_summary(&cfg),
        vec![
            "tty configuration:",
            "  credential: (basic auth enabled)",
            "  start command: top",
            "  close signal: SIGTERM (15)",
            "  terminal type: xterm-256color",
            "  window title: T",
            "endpoints:",
            "  base-path: /x",
            "  index    : /x/",
            "  token    : /x/token",
            "  websocket: /x/ws",
            "  check origin: true",
            "  allow url arg: true",
            "  max clients: 4",
            "  once: true",
            "  exit_no_conn: true",
            "  custom index.html: /srv/index.html",
            "  working directory: /srv",
        ]
    );
    let forward = config(&["-R", "http://a/v", "-F", "Cookie", "--auth-cache-ttl", "9", "sh"]);
    assert_eq!(
        config_summary(&forward)[4..],
        [
            "  forward auth: GET http://a/v",
            "  forward auth headers: cookie",
            "  forward auth user header: X-Auth-User",
            "  forward auth cache: 9s",
        ]
    );
    assert_eq!(
        config_summary(&config(&["-H", "X-User", "sh"]))[4],
        "  auth header: x-user"
    );
}

#[test]
fn a_title_hides_the_command_and_the_host() {
    let titled = config(&["--title", "T", "sh", "-c", "secret"]);
    assert_eq!(titled.window_title_on("somewhere"), "T");
    let plain = config(&["sh", "-c", "x"]);
    assert_eq!(plain.window_title_on("box"), "sh -c x (box)");
}

#[test]
fn the_credential_is_in_base64_with_padding() {
    assert_eq!(
        config(&["-c", "a:b", "sh"]).credential(),
        Some("YTpi")
    );
    assert_eq!(
        config(&["-c", "a:bc", "sh"]).credential(),
        Some("YTpiYw==")
    );
    assert_eq!(
        config(&["-c", "a:bcd", "sh"]).credential(),
        Some("YTpiY2Q=")
    );
    assert_eq!(
        config(&["-c", "ü:?>", "sh"]).credential(),
        Some("w7w6Pz4=")
    );
}

#[test]
fn an_octal_literal_is_no_integer() {
    let result = run_cli(&["-p", "010", "bash"]);
    assert_eq!(result.code, 1);
    assert_eq!(result.stderr, "ttyd: invalid value for port: 010");
    assert_eq!(config(&["-p", "0", "bash"]).port, 0);
}

#[test]
fn the_version_names_the_commit_where_it_is_known() {
    assert_eq!(version(None), VERSION);
    assert_eq!(version(Some("abc1234")), "2.0.1-abc1234");
}

#[test]
fn a_signal_has_the_number_of_the_system() {
    let mut env = environment();
    env.system = System::Bsd;
    let args = words(&["-s", "USR1", "bash"]);
    match parse_report(&args, &env).outcome {
        Outcome::Run(cfg) => {
            assert_eq!(cfg.sig_code, 30);
            assert_eq!(cfg.sig_name, "SIGUSR1");
        }
        Outcome::Exit(code) => panic!("exit {code}"),
    }
    assert_eq!(config(&["-s", "USR1", "bash"]).sig_code, 10);
}
