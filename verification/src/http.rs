//! The HTTP surface: the routes and what they answer.
//!
//! A request is authenticated before its path is looked at, so that an unknown path is no way to
//! learn anything without a credential.

pub mod gzip;
pub mod laws;

use crate::auth::{Decision, DecisionView};
use crate::cli::config::{Config, ConfigView, Endpoints, EndpointsView};
use crate::headers::{
    Header, HeaderView, first_text, header, header_text, headers_view, is_field_value,
    is_valid_value,
};
use crate::html::{index_html_plain, inflated};
use crate::text::{concat3, opt_str};
use vstd::prelude::*;
use vstd::utf8::encode_utf8;

verus! {

/// The user that a request was authenticated as, if one is known.
#[derive(Clone, Debug)]
pub struct AuthenticatedUser(pub Option<String>);

/// The body of the answer to an unknown path.
pub const NOT_FOUND_BODY: &'static str =
    "<html><head><meta charset=utf-8 http-equiv=\"Content-Language\" content=\"en\"/><link rel=\"stylesheet\" type=\"text/css\" href=\"/error.css\"/></head><body><h1>404</h1></body></html>";

/// What a path leads to.
#[derive(Debug, Clone, Copy, PartialEq, Eq, Structural)]
pub enum Route {
    /// The page.
    Index,
    /// The token that the page sends back.
    Token,
    /// A WebSocket.
    Ws,
    /// A redirect to the page.
    RedirectToIndex,
}

/// The routes: the three endpoints, and the base path itself where there is one.
pub open spec fn routes_for(e: EndpointsView) -> Seq<(Seq<char>, Route)> {
    let fixed = seq![(e.index, Route::Index), (e.token, Route::Token), (e.ws, Route::Ws)];
    if e.parent.len() > 0 {
        fixed.push((e.parent, Route::RedirectToIndex))
    } else {
        fixed
    }
}

/// What a list of routes holds.
pub open spec fn routes_view(routes: Seq<(String, Route)>) -> Seq<(Seq<char>, Route)> {
    routes.map_values(|r: (String, Route)| (r.0@, r.1))
}

/// The routes for a set of endpoints.
pub fn routes(endpoints: &Endpoints) -> (r: Vec<(String, Route)>)
    ensures
        routes_view(r@) == routes_for(endpoints@),
{
    let mut out: Vec<(String, Route)> = Vec::new();
    out.push((endpoints.index.clone(), Route::Index));
    out.push((endpoints.token.clone(), Route::Token));
    out.push((endpoints.ws.clone(), Route::Ws));
    if !endpoints.parent.as_str().is_empty() {
        out.push((endpoints.parent.clone(), Route::RedirectToIndex));
    }
    assert(routes_view(out@) =~= routes_for(endpoints@));
    out
}

/// An answer.
#[derive(Debug, Clone)]
pub struct Response {
    pub status: u16,
    pub headers: Vec<Header>,
    pub body: Vec<u8>,
}

/// What an answer holds.
#[verifier::ext_equal]
pub struct ResponseView {
    pub status: u16,
    pub headers: Seq<HeaderView>,
    pub body: Seq<u8>,
}

impl View for Response {
    type V = ResponseView;

    open spec fn view(&self) -> ResponseView {
        ResponseView {
            status: self.status,
            headers: headers_view(self.headers@),
            body: self.body@,
        }
    }
}

/// A field of the given name and text.
pub open spec fn field(name: Seq<char>, value: Seq<char>) -> HeaderView {
    HeaderView { name, value: encode_utf8(value) }
}

/// Appends a field.
fn add_field(headers: &mut Vec<Header>, name: &str, value: &str)
    ensures
        headers_view(final(headers)@) == headers_view(old(headers)@).push(field(name@, value@)),
{
    headers.push(header(name, value));
    assert(headers_view(headers@) =~= headers_view(old(headers)@).push(field(name@, value@)));
}

/// The bytes of a text.
fn bytes_of(text: &str) -> (r: Vec<u8>)
    ensures
        r@ == encode_utf8(text@),
{
    let mut out: Vec<u8> = Vec::new();
    out.extend_from_slice(text.as_bytes());
    assert(out@ =~= encode_utf8(text@));
    out
}

/// The answer to a request that was refused: the refusal's status and fields, and an empty body.
pub open spec fn denied(status: u16, headers: Seq<HeaderView>) -> ResponseView {
    ResponseView {
        status,
        headers: headers.push(field("content-length"@, "0"@)),
        body: Seq::empty(),
    }
}

/// The answer to a request that was refused; none when it may go on.
pub open spec fn denial_of(decision: DecisionView) -> Option<ResponseView> {
    match decision {
        DecisionView::Allow { .. } => None,
        DecisionView::Deny { status, headers } => Some(denied(status, headers)),
    }
}

/// The answer to a request that was refused; none when it may go on.
pub fn denial(decision: Decision) -> (r: Option<Response>)
    ensures
        match r {
            Some(response) => denial_of(decision@) == Some(response@),
            None => denial_of(decision@) is None,
        },
{
    match decision {
        Decision::Allow { .. } => None,
        Decision::Deny { status, headers } => {
            let mut headers = headers;
            add_field(&mut headers, "content-length", "0");
            let body: Vec<u8> = Vec::new();
            assert(body@ =~= Seq::empty());
            Some(Response { status, headers, body })
        },
    }
}

/// The name that the server goes by in its answers.
pub open spec fn server_name(version: Seq<char>) -> Seq<char> {
    "ttyd/"@ + version + " (rust)"@
}

/// The name that the server goes by in its answers.
pub fn server_header(version: &str) -> (r: String)
    ensures
        r@ == server_name(version@),
{
    concat3("ttyd/", version, " (rust)")
}

/// An answer with a page.
pub open spec fn page(body: Seq<u8>, gzip: bool) -> ResponseView {
    let plain = seq![field("content-type"@, "text/html"@)];
    ResponseView {
        status: 200,
        headers: if gzip {
            plain.push(field("content-encoding"@, "gzip"@))
        } else {
            plain
        },
        body,
    }
}

/// An answer with a page.
pub fn html_response(body: Vec<u8>, gzip: bool) -> (r: Response)
    ensures
        r@ == page(body@, gzip),
{
    let mut headers: Vec<Header> = Vec::new();
    add_field(&mut headers, "content-type", "text/html");
    if gzip {
        add_field(&mut headers, "content-encoding", "gzip");
    }
    assert(headers_view(headers@) =~= page(body@, gzip).headers);
    Response { status: 200, headers, body }
}

/// The answer with the stored page, as it is stored for a client that takes gzip and in the clear
/// for any other. None when what is stored cannot be unpacked.
pub open spec fn bundled_page(stored: Seq<u8>, takes_gzip: bool) -> Option<ResponseView> {
    if takes_gzip {
        Some(page(stored, true))
    } else {
        match inflated(stored) {
            Some(plain) => Some(page(plain, false)),
            None => None,
        }
    }
}

/// The answer with the stored page, as it is stored for a client that takes gzip and in the clear
/// for any other. None when what is stored cannot be unpacked.
pub fn bundled_index(stored: &[u8], takes_gzip: bool) -> (r: Option<Response>)
    ensures
        match r {
            Some(response) => bundled_page(stored@, takes_gzip) == Some(response@),
            None => bundled_page(stored@, takes_gzip) is None,
        },
{
    if takes_gzip {
        let mut body: Vec<u8> = Vec::new();
        body.extend_from_slice(stored);
        assert(body@ =~= stored@);
        Some(html_response(body, true))
    } else {
        match index_html_plain(stored) {
            Some(plain) => Some(html_response(plain, false)),
            None => None,
        }
    }
}

/// The answer with a page of the operator's own, given what its file holds. A file that cannot be
/// read is not found.
pub open spec fn custom_page(contents: Option<Seq<u8>>) -> ResponseView {
    match contents {
        Some(body) => page(body, false),
        None => missing_page(),
    }
}

/// The answer with a page of the operator's own, given what its file holds. A file that cannot be
/// read is not found.
pub fn custom_index(contents: Option<Vec<u8>>) -> (r: Response)
    ensures
        r@ == custom_page(
            match contents {
                Some(body) => Some(body@),
                None => None,
            },
        ),
{
    match contents {
        Some(body) => html_response(body, false),
        None => not_found(),
    }
}

/// The text of the answer with the token: the credential of basic authentication, and an empty one
/// otherwise.
pub open spec fn token_text(cfg: ConfigView) -> Seq<char> {
    "{\"token\": \""@ + match cfg.auth {
        crate::cli::config::AuthModeView::Basic { credential } => credential,
        _ => ""@,
    } + "\"}"@
}

/// The answer with the token.
pub open spec fn token_answer(cfg: ConfigView) -> ResponseView {
    ResponseView {
        status: 200,
        headers: seq![field("content-type"@, "application/json;charset=utf-8"@)],
        body: encode_utf8(token_text(cfg)),
    }
}

/// The answer with the token.
pub fn token_response(cfg: &Config) -> (r: Response)
    ensures
        r@ == token_answer(cfg@),
{
    let credential = match cfg.credential() {
        Some(credential) => credential,
        None => "",
    };
    let text = concat3("{\"token\": \"", credential, "\"}");
    let mut headers: Vec<Header> = Vec::new();
    add_field(&mut headers, "content-type", "application/json;charset=utf-8");
    assert(headers_view(headers@) =~= seq![
        field("content-type"@, "application/json;charset=utf-8"@),
    ]);
    Response { status: 200, headers, body: bytes_of(text.as_str()) }
}

/// Where the base path redirects to: the page, or the root if its path is no header value.
pub open spec fn index_location(e: EndpointsView) -> Seq<char> {
    if is_field_value(encode_utf8(e.index)) {
        e.index
    } else {
        "/"@
    }
}

/// The redirect from the base path to the page.
pub open spec fn index_redirect(e: EndpointsView) -> ResponseView {
    ResponseView {
        status: 302,
        headers: seq![field("location"@, index_location(e))],
        body: Seq::empty(),
    }
}

/// The redirect from the base path to the page.
pub fn redirect_to_index(endpoints: &Endpoints) -> (r: Response)
    ensures
        r@ == index_redirect(endpoints@),
{
    let mut headers: Vec<Header> = Vec::new();
    if is_valid_value(endpoints.index.as_str().as_bytes()) {
        add_field(&mut headers, "location", endpoints.index.as_str());
    } else {
        add_field(&mut headers, "location", "/");
    }
    assert(headers_view(headers@) =~= seq![field("location"@, index_location(endpoints@))]);
    let body: Vec<u8> = Vec::new();
    assert(body@ =~= Seq::empty());
    Response { status: 302, headers, body }
}

/// The answer to an unknown path.
pub open spec fn missing_page() -> ResponseView {
    ResponseView {
        status: 404,
        headers: seq![field("content-type"@, "text/html"@)],
        body: encode_utf8(NOT_FOUND_BODY@),
    }
}

/// The answer to an unknown path.
pub fn not_found() -> (r: Response)
    ensures
        r@ == missing_page(),
{
    let mut headers: Vec<Header> = Vec::new();
    add_field(&mut headers, "content-type", "text/html");
    assert(headers_view(headers@) =~= seq![field("content-type"@, "text/html"@)]);
    Response { status: 404, headers, body: bytes_of(NOT_FOUND_BODY) }
}

/// The host that a plain request on a port for TLS was meant for: that of its `Host` header, else
/// the authority of its URI. An empty one counts as none.
pub open spec fn requested_host(headers: Seq<HeaderView>, authority: Option<Seq<char>>) -> Option<
    Seq<char>,
> {
    match first_text(headers, "host"@) {
        Some(host) => if host.len() > 0 {
            Some(host)
        } else {
            given(authority)
        },
        None => given(authority),
    }
}

/// A text that is there and not empty.
pub open spec fn given(text: Option<Seq<char>>) -> Option<Seq<char>> {
    match text {
        Some(text) => if text.len() > 0 {
            Some(text)
        } else {
            None
        },
        None => None,
    }
}

/// The answer to a plain request on a port for TLS: a redirect to the same URL over HTTPS, or a
/// complaint when it is not known which host was meant.
pub open spec fn https_redirect_for(
    headers: Seq<HeaderView>,
    authority: Option<Seq<char>>,
    path: Option<Seq<char>>,
) -> ResponseView {
    match requested_host(headers, authority) {
        Some(host) => ResponseView {
            status: 301,
            headers: seq![
                field(
                    "location"@,
                    "https://"@ + host + match path {
                        Some(path) => path,
                        None => "/"@,
                    },
                ),
            ],
            body: Seq::empty(),
        },
        None => ResponseView { status: 400, headers: Seq::empty(), body: Seq::empty() },
    }
}

/// The answer to a plain request on a port for TLS.
pub fn https_redirect(headers: &[Header], authority: Option<&str>, path: Option<&str>) -> (r: Response)
    ensures
        r@ == https_redirect_for(headers_view(headers@), opt_str(authority), opt_str(path)),
{
    let mut out: Vec<Header> = Vec::new();
    let body: Vec<u8> = Vec::new();
    assert(body@ =~= Seq::empty());
    assert(headers_view(out@) =~= Seq::empty());
    let mut host: Option<String> = header_text(headers, "host");
    if let Some(text) = &host {
        if text.as_str().is_empty() {
            host = None;
        }
    }
    if host.is_none() {
        if let Some(text) = authority {
            if !text.is_empty() {
                host = Some(text.to_owned());
            }
        }
    }
    match host {
        Some(host) => {
            let path = match path {
                Some(path) => path,
                None => "/",
            };
            let url = concat3("https://", host.as_str(), path);
            add_field(&mut out, "location", url.as_str());
            assert(headers_view(out@) =~= seq![field("location"@, url@)]);
            Response { status: 301, headers: out, body }
        },
        None => Response { status: 400, headers: out, body },
    }
}

/// Without basic authentication the token is empty: no credential is ever handed out.
pub proof fn law_the_token_is_only_the_credential(cfg: ConfigView)
    requires
        !(cfg.auth is Basic),
    ensures
        token_text(cfg) == "{\"token\": \""@ + ""@ + "\"}"@,
{
}

/// A redirect to HTTPS always names a host.
pub proof fn law_https_redirects_name_a_host(
    headers: Seq<HeaderView>,
    authority: Option<Seq<char>>,
    path: Option<Seq<char>>,
)
    ensures
        ({
            let r = https_redirect_for(headers, authority, path);
            &&& r.status == 301 || r.status == 400
            &&& r.status == 400 <==> requested_host(headers, authority) is None
            &&& requested_host(headers, authority) matches Some(host) ==> host.len() > 0
        }),
{
}

/// Every route leads somewhere else: the paths are all different for endpoints that can be routed.
pub proof fn law_routes_are_distinct(e: EndpointsView, i: int, j: int)
    requires
        crate::cli::laws::routable(e),
        0 <= i < j < routes_for(e).len(),
    ensures
        routes_for(e)[i].0 != routes_for(e)[j].0,
        routes_for(e)[i].0.len() > 0,
        routes_for(e)[i].0[0] == '/',
{
}

} // verus!
