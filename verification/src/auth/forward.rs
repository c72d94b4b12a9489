//! Forward authentication: the subrequest that asks about a request, and what its answer means.

use crate::auth::{Decision, DecisionView, RequestContext, RequestContextView};
use crate::cli::config::{ForwardAuthConfig, ForwardAuthConfigView, forwarded_header_names};
use crate::cli::values::{is_http_method, is_method};
use crate::headers::{
    Header, HeaderView, first_text, header_text, headers_view, is_field_value, is_valid_value,
    text_of_value, value_text, values_of,
};
use crate::pty::pairs_view;
use crate::text::{opt_text, same_text, same_text_ignoring_case, texts};
use vstd::prelude::*;
use vstd::utf8::encode_utf8;

verus! {

/// A header that the subrequest describes the request with. The client's own header of that name
/// is never copied.
pub open spec fn is_synthesized(name: Seq<char>) -> bool {
    ||| name == "x-original-method"@
    ||| name == "x-original-uri"@
    ||| name == "x-forwarded-method"@
    ||| name == "x-forwarded-uri"@
    ||| name == "x-forwarded-proto"@
    ||| name == "x-forwarded-host"@
    ||| name == "x-forwarded-for"@
}

/// A name with each of the values that can be shown.
pub open spec fn shown_values(name: Seq<char>, values: Seq<Seq<u8>>) -> Seq<(Seq<char>, Seq<char>)>
    decreases values.len(),
{
    if values.len() == 0 {
        Seq::empty()
    } else {
        let before = shown_values(name, values.drop_last());
        match value_text(values.last()) {
            Some(text) => before.push((name, text)),
            None => before,
        }
    }
}

/// The headers that are copied from a request: for each of the names, all of its values.
pub open spec fn copied_headers(names: Seq<Seq<char>>, headers: Seq<HeaderView>) -> Seq<
    (Seq<char>, Seq<char>),
>
    decreases names.len(),
{
    if names.len() == 0 {
        Seq::empty()
    } else {
        let before = copied_headers(names.drop_last(), headers);
        if is_synthesized(names.last()) {
            before
        } else {
            before + shown_values(names.last(), values_of(headers, names.last()))
        }
    }
}

/// One header, if there is a value for it.
pub open spec fn optional_header(name: Seq<char>, value: Option<Seq<char>>) -> Seq<
    (Seq<char>, Seq<char>),
> {
    match value {
        Some(value) => seq![(name, value)],
        None => Seq::empty(),
    }
}

/// The headers that describe a request. The address is the one that was observed.
pub open spec fn metadata(ctx: RequestContextView) -> Seq<(Seq<char>, Seq<char>)> {
    seq![
        ("x-original-method"@, ctx.method),
        ("x-original-uri"@, ctx.uri),
        ("x-forwarded-method"@, ctx.method),
        ("x-forwarded-uri"@, ctx.uri),
        (
            "x-forwarded-proto"@,
            if ctx.tls {
                "https"@
            } else {
                "http"@
            },
        ),
    ] + optional_header("x-forwarded-host"@, first_text(ctx.headers, "host"@)) + optional_header(
        "x-forwarded-for"@,
        ctx.peer,
    )
}

/// A request to the endpoint of forward authentication.
#[derive(Debug, Clone)]
pub struct Subrequest {
    pub method: String,
    pub url: String,
    pub headers: Vec<(String, String)>,
}

/// What a subrequest holds.
#[verifier::ext_equal]
pub struct SubrequestView {
    pub method: Seq<char>,
    pub url: Seq<char>,
    pub headers: Seq<(Seq<char>, Seq<char>)>,
}

impl View for Subrequest {
    type V = SubrequestView;

    open spec fn view(&self) -> SubrequestView {
        SubrequestView {
            method: self.method@,
            url: self.url@,
            headers: pairs_view(self.headers@),
        }
    }
}

/// The headers of the subrequest about a request.
pub open spec fn subrequest_headers(cfg: ForwardAuthConfigView, ctx: RequestContextView) -> Seq<
    (Seq<char>, Seq<char>),
> {
    copied_headers(forwarded_header_names(cfg.request_headers), ctx.headers) + metadata(ctx)
}

/// The subrequest about a request.
pub open spec fn subrequest_for(cfg: ForwardAuthConfigView, ctx: RequestContextView) -> SubrequestView {
    SubrequestView {
        method: if is_method(encode_utf8(cfg.method)) {
            cfg.method
        } else {
            "GET"@
        },
        url: cfg.url,
        headers: subrequest_headers(cfg, ctx),
    }
}

/// Whether a header is one that the subrequest describes the request with.
fn is_synthesized_name(name: &str) -> (r: bool)
    ensures
        r == is_synthesized(name@),
{
    same_text(name, "x-original-method") || same_text(name, "x-original-uri") || same_text(
        name,
        "x-forwarded-method",
    ) || same_text(name, "x-forwarded-uri") || same_text(name, "x-forwarded-proto") || same_text(
        name,
        "x-forwarded-host",
    ) || same_text(name, "x-forwarded-for")
}

/// Appends a header.
fn add_pair(list: &mut Vec<(String, String)>, name: &str, value: &str)
    ensures
        pairs_view(final(list)@) == pairs_view(old(list)@).push((name@, value@)),
{
    list.push((name.to_owned(), value.to_owned()));
    assert(pairs_view(list@) =~= pairs_view(old(list)@).push((name@, value@)));
}

/// Appends a header of the request with all of its values.
fn copy_header(list: &mut Vec<(String, String)>, name: &str, headers: &[Header])
    ensures
        pairs_view(final(list)@) == pairs_view(old(list)@) + shown_values(
            name@,
            values_of(headers_view(headers@), name@),
        ),
{
    let ghost before = pairs_view(list@);
    let ghost all = headers_view(headers@);
    let mut i: usize = 0;
    proof {
        assert(all.take(0) =~= Seq::empty());
        assert(before + Seq::empty() =~= before);
    }
    while i < headers.len()
        invariant
            i <= headers@.len(),
            all == headers_view(headers@),
            before == pairs_view(old(list)@),
            pairs_view(list@) == before + shown_values(
                name@,
                values_of(all.take(i as int), name@),
            ),
        decreases headers@.len() - i,
    {
        let ghost values = values_of(all.take(i as int), name@);
        proof {
            assert(all.take(i + 1).drop_last() =~= all.take(i as int));
            assert(all.take(i + 1).last() == headers@[i as int]@);
        }
        if same_text_ignoring_case(headers[i].name.as_str(), name) {
            let ghost value = headers@[i as int].value@;
            let ghost shown = shown_values(name@, values);
            proof {
                assert(values.push(value).drop_last() =~= values);
                assert(values.push(value).last() == value);
            }
            match text_of_value(&headers[i].value) {
                Some(text) => {
                    add_pair(list, name, text.as_str());
                    proof {
                        assert((before + shown).push((name@, text@)) =~= before + shown.push(
                            (name@, text@),
                        ));
                    }
                },
                None => {},
            }
        }
        i += 1;
    }
    assert(all.take(i as int) =~= all);
}

/// The headers that are copied from a request.
pub fn collect_forwarded_headers(cfg: &ForwardAuthConfig, headers: &[Header]) -> (r: Vec<
    (String, String),
>)
    ensures
        pairs_view(r@) == copied_headers(
            forwarded_header_names(texts(cfg.request_headers@)),
            headers_view(headers@),
        ),
{
    let mut out: Vec<(String, String)> = Vec::new();
    let names = cfg.effective_request_headers();
    let ghost all = texts(names@);
    let ghost from = headers_view(headers@);
    let mut i: usize = 0;
    proof {
        assert(all.take(0) =~= Seq::empty());
        assert(pairs_view(out@) =~= Seq::empty());
    }
    while i < names.len()
        invariant
            i <= names@.len(),
            all == texts(names@),
            from == headers_view(headers@),
            pairs_view(out@) == copied_headers(all.take(i as int), from),
        decreases names@.len() - i,
    {
        proof {
            assert(all.take(i + 1).drop_last() =~= all.take(i as int));
            assert(all.take(i + 1).last() == names@[i as int]@);
        }
        if !is_synthesized_name(names[i].as_str()) {
            copy_header(&mut out, names[i].as_str(), headers);
        }
        i += 1;
    }
    assert(all.take(i as int) =~= all);
    out
}

/// The headers that describe a request.
pub fn original_request_metadata(ctx: &RequestContext) -> (r: Vec<(String, String)>)
    ensures
        pairs_view(r@) == metadata(ctx@),
{
    let mut out: Vec<(String, String)> = Vec::new();
    add_pair(&mut out, "x-original-method", ctx.method.as_str());
    add_pair(&mut out, "x-original-uri", ctx.uri.as_str());
    add_pair(&mut out, "x-forwarded-method", ctx.method.as_str());
    add_pair(&mut out, "x-forwarded-uri", ctx.uri.as_str());
    add_pair(
        &mut out,
        "x-forwarded-proto",
        if ctx.tls {
            "https"
        } else {
            "http"
        },
    );
    match header_text(&ctx.headers, "host") {
        Some(host) => {
            add_pair(&mut out, "x-forwarded-host", host.as_str());
        },
        None => {},
    }
    match &ctx.peer {
        Some(peer) => {
            add_pair(&mut out, "x-forwarded-for", peer.as_str());
        },
        None => {},
    }
    assert(pairs_view(out@) =~= metadata(ctx@));
    out
}

/// The subrequest about a request.
pub fn subrequest(cfg: &ForwardAuthConfig, ctx: &RequestContext) -> (r: Subrequest)
    ensures
        r@ == subrequest_for(cfg@, ctx@),
{
    let mut headers = collect_forwarded_headers(cfg, &ctx.headers);
    let mut more = original_request_metadata(ctx);
    let ghost copied = headers@;
    let ghost added = more@;
    headers.append(&mut more);
    assert(pairs_view(headers@) =~= pairs_view(copied) + pairs_view(added));
    let method = if is_http_method(cfg.method.as_str().as_bytes()) {
        cfg.method.clone()
    } else {
        "GET".to_owned()
    };
    Subrequest { method, url: cfg.url.clone(), headers }
}

/// The key of a decision: the URI and each header of the subrequest, set apart by control
/// characters that none of them holds.
pub open spec fn key_for(uri: Seq<char>, headers: Seq<(Seq<char>, Seq<char>)>) -> Seq<char>
    decreases headers.len(),
{
    if headers.len() == 0 {
        uri
    } else {
        key_for(uri, headers.drop_last()) + seq!['\u{1}'] + headers.last().0 + seq!['\u{2}']
            + headers.last().1
    }
}

/// The key of a decision.
pub fn cache_key(uri: &str, headers: &[(String, String)]) -> (r: String)
    ensures
        r@ == key_for(uri@, pairs_view(headers@)),
{
    let mut key = uri.to_owned();
    let ghost all = pairs_view(headers@);
    let mut i: usize = 0;
    assert(all.take(0) =~= Seq::empty());
    while i < headers.len()
        invariant
            i <= headers@.len(),
            all == pairs_view(headers@),
            key@ == key_for(uri@, all.take(i as int)),
        decreases headers@.len() - i,
    {
        proof {
            assert(all.take(i + 1).drop_last() =~= all.take(i as int));
            assert(all.take(i + 1).last() == (headers@[i as int].0@, headers@[i as int].1@));
        }
        let ghost before = key@;
        key.push('\u{1}');
        key.append(headers[i].0.as_str());
        key.push('\u{2}');
        key.append(headers[i].1.as_str());
        assert(key@ =~= before + seq!['\u{1}'] + headers@[i as int].0@ + seq!['\u{2}']
            + headers@[i as int].1@);
        i += 1;
    }
    assert(all.take(i as int) =~= all);
    key
}

/// The key of the decision about a request.
pub open spec fn request_key(cfg: ForwardAuthConfigView, ctx: RequestContextView) -> Seq<char> {
    key_for(ctx.uri, subrequest_headers(cfg, ctx))
}

/// The key under which a decision about a request is kept.
pub fn decision_key(cfg: &ForwardAuthConfig, ctx: &RequestContext) -> (r: String)
    ensures
        r@ == request_key(cfg@, ctx@),
{
    let asked = subrequest(cfg, ctx);
    cache_key(ctx.uri.as_str(), &asked.headers)
}

/// What came of a subrequest.
#[derive(Debug, Clone)]
pub enum Reply {
    /// The endpoint could not be asked.
    Unreachable,
    /// It answered.
    Answered { status: u16, headers: Vec<Header> },
}

/// What the outcome of a subrequest holds.
#[verifier::ext_equal]
pub enum ReplyView {
    Unreachable,
    Answered { status: u16, headers: Seq<HeaderView> },
}

impl View for Reply {
    type V = ReplyView;

    open spec fn view(&self) -> ReplyView {
        match self {
            Reply::Unreachable => ReplyView::Unreachable,
            Reply::Answered { status, headers } => ReplyView::Answered {
                status: *status,
                headers: headers_view(headers@),
            },
        }
    }
}

/// The valid values of a field, each under the given name.
pub open spec fn relayed_values(name: Seq<char>, values: Seq<Seq<u8>>) -> Seq<HeaderView>
    decreases values.len(),
{
    if values.len() == 0 {
        Seq::empty()
    } else {
        let before = relayed_values(name, values.drop_last());
        if is_field_value(values.last()) {
            before.push(HeaderView { name, value: values.last() })
        } else {
            before
        }
    }
}

/// What is relayed of a field in the answer of the endpoint.
pub open spec fn relayed(name: Seq<char>, headers: Seq<HeaderView>) -> Seq<HeaderView> {
    relayed_values(name, values_of(headers, name))
}

/// What is relayed of the answer of the endpoint: what lets the user act on a refusal.
pub open spec fn passed_through(headers: Seq<HeaderView>) -> Seq<HeaderView> {
    relayed("www-authenticate"@, headers) + relayed("proxy-authenticate"@, headers) + relayed(
        "location"@,
        headers,
    ) + relayed("set-cookie"@, headers) + relayed("cache-control"@, headers)
}

/// The user that the endpoint named.
pub open spec fn named_user(headers: Seq<HeaderView>, user_header: Seq<char>) -> Option<Seq<char>> {
    match first_text(headers, user_header) {
        Some(user) => if user.len() > 0 {
            Some(user)
        } else {
            None
        },
        None => None,
    }
}

/// What the outcome of a subrequest means: an answer of the 2xx class admits, any other is relayed,
/// and no answer at all refuses.
pub open spec fn verdict(user_header: Seq<char>, reply: ReplyView) -> DecisionView {
    match reply {
        ReplyView::Unreachable => DecisionView::Deny { status: 500, headers: Seq::empty() },
        ReplyView::Answered { status, headers } => if 200 <= status < 300 {
            DecisionView::Allow { user: named_user(headers, user_header) }
        } else {
            DecisionView::Deny {
                status: if 100 <= status < 1000 {
                    status
                } else {
                    500
                },
                headers: passed_through(headers),
            }
        },
    }
}

/// Appends what is relayed of a field in the answer of the endpoint.
fn relay(out: &mut Vec<Header>, name: &str, headers: &[Header])
    ensures
        headers_view(final(out)@) == headers_view(old(out)@) + relayed(name@, headers_view(headers@)),
{
    let ghost before = headers_view(out@);
    let ghost all = headers_view(headers@);
    let mut i: usize = 0;
    proof {
        assert(all.take(0) =~= Seq::empty());
        assert(before + Seq::empty() =~= before);
    }
    while i < headers.len()
        invariant
            i <= headers@.len(),
            all == headers_view(headers@),
            before == headers_view(old(out)@),
            headers_view(out@) == before + relayed_values(
                name@,
                values_of(all.take(i as int), name@),
            ),
        decreases headers@.len() - i,
    {
        let ghost values = values_of(all.take(i as int), name@);
        proof {
            assert(all.take(i + 1).drop_last() =~= all.take(i as int));
            assert(all.take(i + 1).last() == headers@[i as int]@);
        }
        if same_text_ignoring_case(headers[i].name.as_str(), name) {
            let ghost value = headers@[i as int].value@;
            let ghost kept = relayed_values(name@, values);
            let ghost list = headers_view(out@);
            proof {
                assert(values.push(value).drop_last() =~= values);
                assert(values.push(value).last() == value);
            }
            if is_valid_value(&headers[i].value) {
                let copy = Header { name: name.to_owned(), value: headers[i].value.clone() };
                proof {
                    assert(copy.value@ =~= value);
                }
                out.push(copy);
                proof {
                    let item = HeaderView { name: name@, value };
                    assert(headers_view(out@) =~= list.push(item));
                    assert((before + kept).push(item) =~= before + kept.push(item));
                }
            }
        }
        i += 1;
    }
    assert(all.take(i as int) =~= all);
}

/// Whether a request is admitted, given what came of its subrequest.
pub fn judge(user_header: &str, reply: &Reply) -> (r: Decision)
    ensures
        r@ == verdict(user_header@, reply@),
{
    match reply {
        Reply::Unreachable => {
            let headers: Vec<Header> = Vec::new();
            assert(headers_view(headers@) =~= Seq::empty());
            Decision::Deny { status: 500, headers }
        },
        Reply::Answered { status, headers } => {
            if 200 <= *status && *status < 300 {
                let user = match header_text(headers, user_header) {
                    Some(user) => if user.as_str().is_empty() {
                        None
                    } else {
                        Some(user)
                    },
                    None => None,
                };
                Decision::Allow { user }
            } else {
                let mut out: Vec<Header> = Vec::new();
                assert(headers_view(out@) =~= Seq::empty());
                relay(&mut out, "www-authenticate", headers);
                assert(headers_view(out@) =~= relayed("www-authenticate"@, headers_view(headers@)));
                relay(&mut out, "proxy-authenticate", headers);
                relay(&mut out, "location", headers);
                relay(&mut out, "set-cookie", headers);
                relay(&mut out, "cache-control", headers);
                Decision::Deny {
                    status: if 100 <= *status && *status < 1000 {
                        *status
                    } else {
                        500
                    },
                    headers: out,
                }
            }
        },
    }
}

/// What is kept of a decision: the user of a request that was admitted.
pub open spec fn kept(decision: DecisionView) -> Option<Option<Seq<char>>> {
    match decision {
        DecisionView::Allow { user } => Some(user),
        DecisionView::Deny { .. } => None,
    }
}

/// The decisions that may still be kept once none was found for a request and the endpoint is to be
/// asked about it.
pub open spec fn after_ask(
    cfg: ForwardAuthConfigView,
    before: Map<Seq<char>, Option<Seq<char>>>,
    ctx: RequestContextView,
) -> Map<Seq<char>, Option<Seq<char>>> {
    before.remove(request_key(cfg, ctx))
}

/// The decisions that are kept after the reply to one more subrequest.
pub open spec fn after_reply(
    cfg: ForwardAuthConfigView,
    before: Map<Seq<char>, Option<Seq<char>>>,
    ctx: RequestContextView,
    reply: ReplyView,
) -> Map<Seq<char>, Option<Seq<char>>> {
    match kept(verdict(cfg.user_header, reply)) {
        Some(user) => before.insert(request_key(cfg, ctx), user),
        None => before,
    }
}

/// What is kept of a decision.
pub fn decision_to_keep(decision: &Decision) -> (r: Option<Option<String>>)
    ensures
        match r {
            Some(user) => kept(decision@) == Some(opt_text(user)),
            None => kept(decision@) is None,
        },
{
    match decision {
        Decision::Allow { user } => Some(user.clone()),
        Decision::Deny { .. } => None,
    }
}

} // verus!
