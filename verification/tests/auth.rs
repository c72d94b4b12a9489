use ttyd::auth::forward::{cache_key, decision_key, judge, subrequest, Reply};
use ttyd::auth::{
    check_basic, check_trusted_header, decide, same_secret, truncate_user, Authenticator,
    Decision, RequestContext, Step, MAX_USER,
};
use ttyd::cli::{AuthMode, ForwardAuthConfig};
use ttyd::headers::{header, header_text, text_of_value, Header};

fn headers(pairs: &[(&str, &str)]) -> Vec<Header> {
    pairs.iter().map(|(k, v)| header(k, v)).collect()
}

fn context(pairs: &[(&str, &str)]) -> RequestContext {
    RequestContext {
        method: "GET".into(),
        uri: "/token?x=1".into(),
        headers: headers(pairs),
        peer: Some("127.0.0.1".into()),
        tls: false,
    }
}

fn forward(mutate: impl FnOnce(&mut ForwardAuthConfig)) -> AuthMode {
    let mut cfg = ForwardAuthConfig::new("http://auth/verify".into());
    mutate(&mut cfg);
    AuthMode::Forward(cfg)
}

fn pairs(step: Step) -> Vec<(String, String)> {
    match step {
        Step::Ask(asked) => asked.headers,
        Step::Done(decision) => panic!("expected a subrequest, got {decision:?}"),
    }
}

fn values(list: &[(String, String)], name: &str) -> Vec<String> {
    list.iter()
        .filter(|(n, _)| n == name)
        .map(|(_, v)| v.clone())
        .collect()
}

#[test]
fn no_auth_allows_everything() {
    let mut auth = Authenticator::new(AuthMode::Disabled);
    match auth.authenticate(&context(&[])) {
        Step::Done(decision) => assert!(decision.is_allowed()),
        other => panic!("{other:?}"),
    }
    assert!(!auth.is_enabled());
}

#[test]
fn basic_auth_accepts_the_matching_credential() {
    let credential = "dXNlcjpwYXNz";
    let h = headers(&[("authorization", "Basic dXNlcjpwYXNz")]);
    assert!(check_basic(&h, credential).is_allowed());
}

#[test]
fn basic_auth_scheme_is_case_insensitive() {
    let h = headers(&[("authorization", "basic dXNlcjpwYXNz")]);
    assert!(check_basic(&h, "dXNlcjpwYXNz").is_allowed());
}

#[test]
fn basic_auth_rejects_a_wrong_credential_with_a_challenge() {
    let h = headers(&[("authorization", "Basic d3Jvbmc=")]);
    match check_basic(&h, "dXNlcjpwYXNz") {
        Decision::Deny { status, headers } => {
            assert_eq!(status, 401);
            assert_eq!(
                header_text(&headers, "WWW-Authenticate").unwrap(),
                "Basic realm=\"ttyd\""
            );
        }
        Decision::Allow { .. } => panic!("must not allow"),
    }
}

#[test]
fn basic_auth_rejects_a_missing_header() {
    assert!(!check_basic(&headers(&[]), "dXNlcjpwYXNz").is_allowed());
}

#[test]
fn trusted_header_supplies_the_user() {
    let h = headers(&[("x-remote-user", "alice")]);
    let decision = check_trusted_header(&h, "x-remote-user");
    assert_eq!(decision.user(), Some("alice"));
}

#[test]
fn trusted_header_rejects_when_absent_or_empty() {
    match check_trusted_header(&headers(&[]), "x-remote-user") {
        Decision::Deny { status, .. } => {
            assert_eq!(status, 407)
        }
        Decision::Allow { .. } => panic!("must not allow"),
    }
    let empty = headers(&[("x-remote-user", "")]);
    assert!(!check_trusted_header(&empty, "x-remote-user").is_allowed());
}

#[test]
fn user_names_are_truncated_to_the_env_buffer() {
    let long = "u".repeat(100);
    assert_eq!(truncate_user(&long).len(), MAX_USER);
}

#[test]
fn cache_keys_separate_distinct_credentials() {
    let a = cache_key("/", &[("cookie".into(), "session=a".into())]);
    let b = cache_key("/", &[("cookie".into(), "session=b".into())]);
    assert_ne!(a, b);
}

#[test]
fn a_long_identity_is_passed_whole() {
    let name = "n".repeat(100);
    let h = headers(&[("x-remote-user", name.as_str())]);
    assert_eq!(
        check_trusted_header(&h, "X-Remote-User").user(),
        Some(name.as_str())
    );
}

#[test]
fn secrets_are_compared_in_full() {
    assert!(same_secret("abc", "abc"));
    assert!(!same_secret("abc", "abd"));
    assert!(!same_secret("abc", "ab"));
    assert!(same_secret("", ""));
}

#[test]
fn an_invisible_header_value_has_no_text() {
    assert_eq!(text_of_value(b"a\tb").as_deref(), Some("a\tb"));
    assert_eq!(text_of_value(b"a\nb"), None);
    assert_eq!(text_of_value("é".as_bytes()), None);
    assert_eq!(
        check_basic(
            &[Header {
                name: "Authorization".into(),
                value: b"Basic x\x01".to_vec()
            }],
            "x\u{1}"
        )
        .is_allowed(),
        false
    );
}

#[test]
fn a_subrequest_describes_the_request() {
    let mut auth = Authenticator::new(forward(|_| {}));
    let ctx = context(&[
        ("Host", "me.example"),
        ("Cookie", "a=1"),
        ("X-Other", "no"),
        ("cookie", "b=2"),
        ("Authorization", "Bearer t"),
    ]);
    match auth.authenticate(&ctx) {
        Step::Ask(asked) => {
            assert_eq!(asked.method, "GET");
            assert_eq!(asked.url, "http://auth/verify");
            let expected: Vec<(String, String)> = [
                ("cookie", "a=1"),
                ("cookie", "b=2"),
                ("authorization", "Bearer t"),
                ("x-original-method", "GET"),
                ("x-original-uri", "/token?x=1"),
                ("x-forwarded-method", "GET"),
                ("x-forwarded-uri", "/token?x=1"),
                ("x-forwarded-proto", "http"),
                ("x-forwarded-host", "me.example"),
                ("x-forwarded-for", "127.0.0.1"),
            ]
            .iter()
            .map(|(k, v)| (k.to_string(), v.to_string()))
            .collect();
            assert_eq!(asked.headers, expected);
        }
        other => panic!("{other:?}"),
    }
}

#[test]
fn the_client_cannot_choose_its_own_forwarded_address() {
    let mut auth = Authenticator::new(forward(|_| {}));
    let ctx = context(&[("X-Forwarded-For", "10.0.0.1")]);
    assert_eq!(
        values(&pairs(auth.authenticate(&ctx)), "x-forwarded-for"),
        vec!["127.0.0.1"]
    );
}

#[test]
fn listing_a_synthesized_header_cannot_reintroduce_the_clients_value() {
    let mut auth = Authenticator::new(forward(|f| {
        f.request_headers = vec!["X-Forwarded-For".into(), "X-Forwarded-Proto".into()]
    }));
    let ctx = context(&[
        ("X-Forwarded-For", "10.0.0.1"),
        ("X-Forwarded-Proto", "https"),
    ]);
    let sent = pairs(auth.authenticate(&ctx));
    assert_eq!(values(&sent, "x-forwarded-for"), vec!["127.0.0.1"]);
    assert_eq!(values(&sent, "x-forwarded-proto"), vec!["http"]);
    let mut local = ctx.clone();
    local.peer = None;
    let none = pairs(auth.authenticate(&local));
    assert_eq!(values(&none, "x-forwarded-for"), Vec::<String>::new());
}

#[test]
fn an_invalid_method_falls_back_to_get() {
    let step = decide(&forward(|f| f.method = "BAD METHOD".into()), &context(&[]), None);
    match step {
        Step::Ask(asked) => assert_eq!(asked.method, "GET"),
        other => panic!("{other:?}"),
    }
    match decide(&forward(|f| f.method = "POST".into()), &context(&[]), None) {
        Step::Ask(asked) => assert_eq!(asked.method, "POST"),
        other => panic!("{other:?}"),
    }
}

#[test]
fn a_kept_decision_admits_without_asking() {
    let step = decide(&forward(|_| {}), &context(&[]), Some(Some("carol".into())));
    match step {
        Step::Done(decision) => assert_eq!(decision.user(), Some("carol")),
        other => panic!("{other:?}"),
    }
}

#[test]
fn an_outage_refuses_with_500() {
    match judge("X-Auth-User", &Reply::Unreachable) {
        Decision::Deny { status, headers } => {
            assert_eq!(status, 500);
            assert!(headers.is_empty());
        }
        Decision::Allow { .. } => panic!("must not allow"),
    }
}

#[test]
fn a_success_admits_with_the_named_user() {
    let named = Reply::Answered {
        status: 204,
        headers: headers(&[("x-auth-user", "carol")]),
    };
    assert_eq!(judge("X-Auth-User", &named).user(), Some("carol"));
    let unnamed = Reply::Answered {
        status: 200,
        headers: headers(&[("x-auth-user", "")]),
    };
    assert!(judge("X-Auth-User", &unnamed).is_allowed());
    assert_eq!(judge("X-Auth-User", &unnamed).user(), None);
}

#[test]
fn a_refusal_is_relayed_with_what_helps_the_user() {
    let reply = Reply::Answered {
        status: 302,
        headers: headers(&[
            ("set-cookie", "a=1"),
            ("x-internal", "secret"),
            ("Location", "https://login/"),
            ("set-cookie", "b=2"),
            ("cache-control", "no-store"),
        ]),
    };
    match judge("X-Auth-User", &reply) {
        Decision::Deny { status, headers } => {
            assert_eq!(status, 302);
            let seen: Vec<(String, Vec<u8>)> =
                headers.into_iter().map(|h| (h.name, h.value)).collect();
            assert_eq!(
                seen,
                vec![
                    ("location".to_string(), b"https://login/".to_vec()),
                    ("set-cookie".to_string(), b"a=1".to_vec()),
                    ("set-cookie".to_string(), b"b=2".to_vec()),
                    ("cache-control".to_string(), b"no-store".to_vec()),
                ]
            );
        }
        Decision::Allow { .. } => panic!("must not allow"),
    }
    let odd = Reply::Answered {
        status: 99,
        headers: Vec::new(),
    };
    match judge("X-Auth-User", &odd) {
        Decision::Deny { status, .. } => assert_eq!(status, 500),
        Decision::Allow { .. } => panic!("must not allow"),
    }
}

#[test]
fn only_grants_are_kept_and_found_again() {
    let mut auth = Authenticator::new(forward(|f| f.cache_ttl = 60));
    let ctx = context(&[("Host", "a"), ("Cookie", "s=1")]);
    let refused = Reply::Answered {
        status: 403,
        headers: Vec::new(),
    };
    assert!(!auth.conclude(&ctx, &refused).is_allowed());
    assert!(matches!(auth.authenticate(&ctx), Step::Ask(_)));

    let granted = Reply::Answered {
        status: 200,
        headers: headers(&[("X-Auth-User", "dave")]),
    };
    assert!(auth.conclude(&ctx, &granted).is_allowed());
    match auth.authenticate(&ctx) {
        Step::Done(decision) => assert_eq!(decision.user(), Some("dave")),
        other => panic!("{other:?}"),
    }

    for other in [
        context(&[("Host", "b"), ("Cookie", "s=1")]),
        context(&[("Host", "a"), ("Cookie", "s=2")]),
        RequestContext {
            method: "HEAD".into(),
            ..ctx.clone()
        },
        RequestContext {
            peer: Some("10.0.0.9".into()),
            ..ctx.clone()
        },
    ] {
        assert!(matches!(auth.authenticate(&other), Step::Ask(_)));
    }

    let mut forgetful = Authenticator::new(forward(|_| {}));
    assert!(forgetful.conclude(&ctx, &granted).is_allowed());
    assert!(matches!(forgetful.authenticate(&ctx), Step::Ask(_)));
}

#[test]
fn each_mode_decides_on_its_own_header() {
    let mut basic = Authenticator::new(AuthMode::Basic {
        credential: "Zm9v".into(),
    });
    assert!(basic.is_enabled());
    match basic.authenticate(&context(&[("Authorization", "Basic Zm9v")])) {
        Step::Done(decision) => assert!(decision.is_allowed()),
        other => panic!("{other:?}"),
    }
    let mut proxy = Authenticator::new(AuthMode::TrustedHeader {
        header: "x-user".into(),
    });
    match proxy.authenticate(&context(&[("X-User", "erin")])) {
        Step::Done(decision) => assert_eq!(decision.user(), Some("erin")),
        other => panic!("{other:?}"),
    }
    assert!(!proxy.conclude(&context(&[]), &Reply::Unreachable).is_allowed());
}

#[test]
fn the_key_holds_the_whole_subrequest() {
    let cfg = ForwardAuthConfig {
        request_headers: vec!["Cookie".into()],
        ..ForwardAuthConfig::new("http://auth/verify".into())
    };
    let ctx = context(&[("Cookie", "s=1"), ("Host", "h")]);
    let key = decision_key(&cfg, &ctx);
    assert_eq!(
        key,
        "/token?x=1\u{1}cookie\u{2}s=1\
         \u{1}x-original-method\u{2}GET\u{1}x-original-uri\u{2}/token?x=1\
         \u{1}x-forwarded-method\u{2}GET\u{1}x-forwarded-uri\u{2}/token?x=1\
         \u{1}x-forwarded-proto\u{2}http\u{1}x-forwarded-host\u{2}h\
         \u{1}x-forwarded-for\u{2}127.0.0.1"
    );
    assert_eq!(key, cache_key(&ctx.uri, &subrequest(&cfg, &ctx).headers));
}

#[test]
fn a_refusal_is_asked_about_again_and_a_grant_is_not() {
    let mut auth = Authenticator::new(forward(|f| f.cache_ttl = 60));
    let ctx = context(&[("Host", "a"), ("Cookie", "s=1")]);
    let refused = Reply::Answered {
        status: 401,
        headers: Vec::new(),
    };
    for _ in 0..3 {
        assert!(matches!(auth.authenticate(&ctx), Step::Ask(_)));
        assert!(!auth.conclude(&ctx, &refused).is_allowed());
    }
    let granted = Reply::Answered {
        status: 200,
        headers: headers(&[("X-Auth-User", "frank")]),
    };
    assert!(matches!(auth.authenticate(&ctx), Step::Ask(_)));
    assert!(auth.conclude(&ctx, &granted).is_allowed());
    for _ in 0..3 {
        match auth.authenticate(&ctx) {
            Step::Done(decision) => assert_eq!(decision.user(), Some("frank")),
            other => panic!("{other:?}"),
        }
    }
}

#[test]
fn a_grant_is_forgotten_after_its_time_to_live() {
    let mut auth = Authenticator::new(forward(|f| f.cache_ttl = 1));
    let ctx = context(&[("Host", "a"), ("Cookie", "s=1")]);
    let granted = Reply::Answered {
        status: 200,
        headers: headers(&[("X-Auth-User", "dave")]),
    };
    let start = std::time::Instant::now();
    assert!(auth.conclude(&ctx, &granted).is_allowed());
    assert!(matches!(auth.authenticate(&ctx), Step::Done(_)));
    while start.elapsed() < std::time::Duration::from_millis(1500) {
        std::hint::spin_loop();
    }
    assert!(matches!(auth.authenticate(&ctx), Step::Ask(_)));
}
