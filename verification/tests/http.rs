use ttyd::auth::Decision;
use ttyd::cli::{version, AuthMode, Config, Endpoints};
use ttyd::headers::{header, header_text};
use ttyd::http::gzip::{accepts_gzip, gzip_weights};
use ttyd::http::{
    bundled_index, custom_index, denial, html_response, https_redirect, not_found,
    redirect_to_index, routes, server_header, token_response, AuthenticatedUser, Route,
    NOT_FOUND_BODY,
};

fn takes_gzip(accept_encoding: Option<&str>) -> bool {
    match accept_encoding {
        Some(value) => {
            let zeros: Vec<Vec<bool>> = gzip_weights(value)
                .iter()
                .map(|ws| ws.iter().map(|w| w.parse::<f32>() == Ok(0.0)).collect())
                .collect();
            accepts_gzip(&zeros)
        }
        None => false,
    }
}

#[test]
fn gzip_is_accepted_when_offered() {
    for value in [
        "gzip",
        "deflate, gzip",
        "gzip, br",
        " gzip ",
        "gzip;q=1",
        "gzip;q=0.5",
    ] {
        assert!(takes_gzip(Some(value)), "{value:?}");
    }
}

#[test]
fn a_zero_weight_is_a_refusal() {
    for value in [
        "gzip;q=0",
        "gzip;q=0.0",
        "gzip;q=0.000",
        "gzip; q=0",
        "deflate, gzip;q=0",
    ] {
        assert!(!takes_gzip(Some(value)), "{value:?}");
    }
}

#[test]
fn another_codings_refusal_does_not_refuse_gzip() {
    assert!(takes_gzip(Some("deflate;q=0, gzip")));
    assert!(takes_gzip(Some("br;q=0, gzip;q=1.0")));
}

#[test]
fn coding_names_are_case_insensitive() {
    assert!(takes_gzip(Some("GZIP")));
    assert!(takes_gzip(Some("GZip;Q=1")));
    assert!(!takes_gzip(Some("GZIP;Q=0")));
}

#[test]
fn anything_that_does_not_name_gzip_is_not_gzip() {
    for value in ["identity", "br, zstd", "deflate", "*", ""] {
        assert!(!takes_gzip(Some(value)), "{value:?}");
    }
    assert!(!takes_gzip(None));
}

#[test]
fn the_legacy_alias_is_still_accepted() {
    assert!(takes_gzip(Some("x-gzip")));
    assert!(!takes_gzip(Some("x-gzip;q=0")));
}

#[test]
fn weights_are_found_among_other_parameters() {
    assert_eq!(
        gzip_weights("gzip;level=9; q = 0.3 ;q, br;q=1, x-gzip"),
        vec![vec!["0.3".to_string(), String::new()], Vec::new()]
    );
    assert!(!accepts_gzip(&[vec![false, true]]));
    assert!(accepts_gzip(&[vec![true], vec![false, false]]));
    assert!(!accepts_gzip(&[]));
}

fn config(auth: AuthMode) -> Config {
    Config {
        auth,
        ..Default::default()
    }
}

#[test]
fn the_routes_follow_the_endpoints() {
    let root = routes(&Endpoints::default());
    assert_eq!(
        root,
        vec![
            ("/".to_string(), Route::Index),
            ("/token".to_string(), Route::Token),
            ("/ws".to_string(), Route::Ws)
        ]
    );
    let moved = routes(&Endpoints::with_base_path("/x/").unwrap());
    assert_eq!(moved.len(), 4);
    assert_eq!(moved[3], ("/x".to_string(), Route::RedirectToIndex));
}

#[test]
fn a_base_path_is_refused_with_its_own_words() {
    assert_eq!(
        Endpoints::with_base_path("a{b").unwrap_err(),
        "ttyd: invalid base path: a{b"
    );
}

#[test]
fn a_refusal_is_answered_with_an_empty_body() {
    let response = denial(Decision::Deny {
        status: 401,
        headers: vec![header("www-authenticate", "Basic realm=\"ttyd\"")],
    })
    .unwrap();
    assert_eq!(response.status, 401);
    assert!(response.body.is_empty());
    assert_eq!(
        header_text(&response.headers, "www-authenticate").as_deref(),
        Some("Basic realm=\"ttyd\"")
    );
    assert_eq!(
        header_text(&response.headers, "content-length").as_deref(),
        Some("0")
    );
    assert!(denial(Decision::Allow { user: None }).is_none());
}

#[test]
fn the_token_is_the_credential_of_basic_authentication() {
    let basic = token_response(&config(AuthMode::Basic {
        credential: "dXNlcjpwYXNz".into(),
    }));
    assert_eq!(basic.body, br#"{"token": "dXNlcjpwYXNz"}"#);
    assert_eq!(
        header_text(&basic.headers, "content-type").as_deref(),
        Some("application/json;charset=utf-8")
    );
    let other = token_response(&config(AuthMode::TrustedHeader {
        header: "x".into(),
    }));
    assert_eq!(other.body, br#"{"token": ""}"#);
}

#[test]
fn the_base_path_redirects_to_the_page() {
    let endpoints = Endpoints::with_base_path("/x").unwrap();
    let response = redirect_to_index(&endpoints);
    assert_eq!(response.status, 302);
    assert_eq!(
        header_text(&response.headers, "location").as_deref(),
        Some("/x/")
    );
    let odd = Endpoints::with_base_path("/a\u{1}b").unwrap();
    assert_eq!(
        header_text(&redirect_to_index(&odd).headers, "location").as_deref(),
        Some("/")
    );
}

#[test]
fn an_unknown_path_is_answered_with_a_page() {
    let response = not_found();
    assert_eq!(response.status, 404);
    assert_eq!(response.body, NOT_FOUND_BODY.as_bytes());
    assert!(NOT_FOUND_BODY.contains("<h1>404</h1>"));
}

#[test]
fn a_custom_page_is_served_or_not_found() {
    let page = custom_index(Some(b"<html>mine</html>".to_vec()));
    assert_eq!(page.status, 200);
    assert_eq!(page.body, b"<html>mine</html>");
    assert_eq!(custom_index(None).status, 404);
}

#[test]
fn a_page_says_how_it_is_encoded() {
    let plain = html_response(b"x".to_vec(), false);
    assert_eq!(
        header_text(&plain.headers, "content-type").as_deref(),
        Some("text/html")
    );
    assert_eq!(header_text(&plain.headers, "content-encoding"), None);
    let packed = html_response(b"x".to_vec(), true);
    assert_eq!(
        header_text(&packed.headers, "content-encoding").as_deref(),
        Some("gzip")
    );
}

const HELLO_GZIP: [u8; 25] = [
    0x1f, 0x8b, 0x08, 0x00, 0x00, 0x00, 0x00, 0x00, 0x02, 0xff, 0xcb, 0x48, 0xcd, 0xc9, 0xc9,
    0x07, 0x00, 0x86, 0xa6, 0x10, 0x36, 0x05, 0x00, 0x00, 0x00,
];

#[test]
fn the_stored_page_is_unpacked_for_clients_without_gzip() {
    let packed = bundled_index(&HELLO_GZIP, true).unwrap();
    assert_eq!(packed.body, HELLO_GZIP);
    let plain = bundled_index(&HELLO_GZIP, false).unwrap();
    assert_eq!(plain.body, b"hello");
    assert!(bundled_index(b"not gzip", false).is_none());
}

#[test]
fn plain_requests_on_a_tls_port_are_redirected() {
    let response = https_redirect(&[header("Host", "me:8443")], None, Some("/token?x"));
    assert_eq!(response.status, 301);
    assert_eq!(
        header_text(&response.headers, "location").as_deref(),
        Some("https://me:8443/token?x")
    );
    let absolute = https_redirect(&[header("Host", "")], Some("you"), None);
    assert_eq!(
        header_text(&absolute.headers, "location").as_deref(),
        Some("https://you/")
    );
    for authority in [None, Some("")] {
        let refused = https_redirect(&[], authority, Some("/token"));
        assert_eq!(refused.status, 400);
        assert!(refused.headers.is_empty());
    }
}

#[test]
fn the_server_names_itself() {
    assert_eq!(
        server_header(&version(Some("abc1234"))),
        "ttyd/2.0.1-abc1234 (rust)"
    );
}

#[test]
fn an_authenticated_user_may_be_unknown() {
    let user = AuthenticatedUser(None);
    assert!(user.0.is_none());
}
