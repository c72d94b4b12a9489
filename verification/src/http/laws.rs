//! What holds of every route and of every answer.

use crate::auth::DecisionView;
use crate::cli::config::{AuthModeView, ConfigView, EndpointsView, endpoints_for};
use crate::headers::{HeaderView, first_text, is_field_value, law_values_keep_their_order, values_of};
use crate::html::inflated;
use crate::http::gzip::{gzip_accepted, gzip_weights_of, names_gzip, parameter, weights};
use crate::http::{
    Route, bundled_page, custom_page, denial_of, denied, https_redirect_for, index_redirect,
    missing_page, page, requested_host, routes_for, server_name, token_answer,
};
use crate::text::laws::{
    law_parts_are_found_again, law_pieces_follow_the_separators, law_the_first_place_is_found,
    law_what_is_not_white_is_kept,
};
use crate::text::{find, same_ignoring_case, split, trim};
use vstd::prelude::*;
use vstd::utf8::encode_utf8;

verus! {

/// With a base path or without one, each endpoint leads to its own: the page, the token and the
/// WebSocket. The base path itself leads to the page if there is one. No other path leads anywhere.
pub proof fn law_every_path_leads_to_its_own(e: EndpointsView, path: Seq<char>, route: Route)
    ensures
        routes_for(e).contains((path, route)) <==> {
            ||| route is Index && path == e.index
            ||| route is Token && path == e.token
            ||| route is Ws && path == e.ws
            ||| route is RedirectToIndex && path == e.parent && e.parent.len() > 0
        },
{
    let routes = routes_for(e);
    if routes.contains((path, route)) {
        let i = choose|i: int| 0 <= i < routes.len() && routes[i] == (path, route);
        assert(i == 0 || i == 1 || i == 2 || i == 3);
    }
    if route is Index && path == e.index {
        assert(routes[0] == (path, route));
    }
    if route is Token && path == e.token {
        assert(routes[1] == (path, route));
    }
    if route is Ws && path == e.ws {
        assert(routes[2] == (path, route));
    }
    if route is RedirectToIndex && path == e.parent && e.parent.len() > 0 {
        assert(routes[3] == (path, route));
    }
}

/// Under any base path that is taken, the page stands at its slash, the WebSocket at `ws` below it and
/// the token at `token` below it; without one they stand at the root.
pub proof fn law_a_base_path_moves_every_route(base: Seq<char>)
    ensures
        endpoints_for(base) matches Ok(e) ==> {
            &&& routes_for(e).contains((e.parent + "/"@, Route::Index))
            &&& routes_for(e).contains((e.parent + "/ws"@, Route::Ws))
            &&& routes_for(e).contains((e.parent + "/token"@, Route::Token))
            &&& e.parent.len() > 0 ==> routes_for(e).contains((e.parent, Route::RedirectToIndex))
        },
{
    match endpoints_for(base) {
        Ok(e) => {
            if e.parent.len() == 0 {
                assert(e.parent + "/"@ =~= "/"@);
                assert(e.parent + "/ws"@ =~= "/ws"@);
                assert(e.parent + "/token"@ =~= "/token"@);
            }
            law_every_path_leads_to_its_own(e, e.parent + "/"@, Route::Index);
            law_every_path_leads_to_its_own(e, e.parent + "/ws"@, Route::Ws);
            law_every_path_leads_to_its_own(e, e.parent + "/token"@, Route::Token);
            law_every_path_leads_to_its_own(e, e.parent, Route::RedirectToIndex);
        },
        Err(_) => {},
    }
}

/// A single field is the only value of its name.
proof fn lemma_one_field(field: HeaderView)
    ensures
        values_of(seq![field], field.name) == seq![field.value],
{
    law_values_keep_their_order(seq![field], Seq::empty(), field, field.name);
}

/// The token is handed out as JSON: the credential of basic authentication stands in it as it is, and
/// without basic authentication nothing does.
pub proof fn law_the_token_is_the_credential(cfg: ConfigView)
    ensures
        ({
            let r = token_answer(cfg);
            let token = match cfg.auth {
                AuthModeView::Basic { credential } => credential,
                _ => Seq::empty(),
            };
            &&& r.status == 200
            &&& r.body == encode_utf8("{\"token\": \""@ + token + "\"}"@)
            &&& r.headers.len() == 1
            &&& values_of(r.headers, "content-type"@) == seq![
                encode_utf8("application/json;charset=utf-8"@),
            ]
        }),
{
    reveal_strlit("");
    assert(""@ =~= Seq::empty());
    lemma_one_field(token_answer(cfg).headers[0]);
    assert(token_answer(cfg).headers =~= seq![token_answer(cfg).headers[0]]);
}

/// A refused request gets the status of the refusal and all of its fields, in order, then the length of
/// an empty body, and an empty body.
pub proof fn law_a_refusal_is_answered(status: u16, headers: Seq<HeaderView>)
    ensures
        ({
            let r = denied(status, headers);
            &&& r.status == status
            &&& r.headers.len() == headers.len() + 1
            &&& forall|i: int| 0 <= i < headers.len() ==> #[trigger] r.headers[i] == headers[i]
            &&& r.headers.last().name == "content-length"@
            &&& r.headers.last().value == encode_utf8("0"@)
            &&& r.body.len() == 0
        }),
{
}

/// A page is answered as it is, as HTML, and said to be compressed exactly if it is.
pub proof fn law_a_page_is_answered(body: Seq<u8>, gzip: bool)
    ensures
        ({
            let r = page(body, gzip);
            &&& r.status == 200
            &&& r.body == body
            &&& values_of(r.headers, "content-type"@) == seq![encode_utf8("text/html"@)]
            &&& gzip ==> values_of(r.headers, "content-encoding"@) == seq![encode_utf8("gzip"@)]
            &&& !gzip ==> values_of(r.headers, "content-encoding"@).len() == 0
        }),
{
    reveal_strlit("content-type");
    reveal_strlit("content-encoding");
    let kind = HeaderView { name: "content-type"@, value: encode_utf8("text/html"@) };
    let coding = HeaderView { name: "content-encoding"@, value: encode_utf8("gzip"@) };
    crate::text::laws::law_same_but_for_case(kind.name, coding.name);
    crate::text::laws::law_same_but_for_case(coding.name, kind.name);
    law_values_keep_their_order(seq![kind], seq![coding], kind, kind.name);
    law_values_keep_their_order(seq![kind], seq![coding], coding, kind.name);
    law_values_keep_their_order(seq![kind], seq![coding], kind, coding.name);
    law_values_keep_their_order(seq![kind], seq![coding], coding, coding.name);
    let headers = page(body, gzip).headers;
    if gzip {
        assert(headers =~= seq![kind] + seq![coding]);
        assert(values_of(headers, kind.name) =~= seq![kind.value]);
        assert(values_of(headers, coding.name) =~= seq![coding.value]);
    } else {
        assert(headers =~= seq![kind]);
    }
}

/// An unknown path is not found, and the answer says so as HTML.
pub proof fn law_an_unknown_path_is_not_found()
    ensures
        missing_page().status == 404,
        missing_page().headers.len() == 1,
        values_of(missing_page().headers, "content-type"@) == seq![encode_utf8("text/html"@)],
{
    lemma_one_field(missing_page().headers[0]);
    assert(missing_page().headers =~= seq![missing_page().headers[0]]);
}

/// The base path redirects to the page itself, wherever that can be said in a header.
pub proof fn law_the_base_path_redirects_to_the_page(e: EndpointsView)
    ensures
        ({
            let r = index_redirect(e);
            &&& r.status == 302
            &&& r.body.len() == 0
            &&& r.headers.len() == 1
            &&& is_field_value(encode_utf8(e.index)) ==> values_of(r.headers, "location"@) == seq![
                encode_utf8(e.index),
            ]
            &&& !is_field_value(encode_utf8(e.index)) ==> values_of(r.headers, "location"@) == seq![
                encode_utf8("/"@),
            ]
        }),
{
    lemma_one_field(index_redirect(e).headers[0]);
    assert(index_redirect(e).headers =~= seq![index_redirect(e).headers[0]]);
}

/// A plain request on a port for TLS is redirected to the same host and path over HTTPS: to the host of
/// its `Host` header, or else to that of its URI, and to the root if it names no path. Where neither
/// names a host it is refused.
pub proof fn law_https_keeps_host_and_path(
    headers: Seq<HeaderView>,
    authority: Option<Seq<char>>,
    path: Option<Seq<char>>,
)
    ensures
        ({
            let r = https_redirect_for(headers, authority, path);
            let named = first_text(headers, "host"@);
            let target = match path {
                Some(path) => path,
                None => "/"@,
            };
            &&& (named matches Some(host) && host.len() > 0) ==> r.status == 301 && values_of(
                r.headers,
                "location"@,
            ) == seq![encode_utf8("https://"@ + named->0 + target)]
            &&& !(named matches Some(host) && host.len() > 0) ==> {
                &&& (authority matches Some(host) && host.len() > 0) ==> r.status == 301
                    && values_of(r.headers, "location"@) == seq![
                    encode_utf8("https://"@ + authority->0 + target),
                ]
                &&& !(authority matches Some(host) && host.len() > 0) ==> r.status == 400
                    && r.headers.len() == 0
            }
            &&& r.body.len() == 0
        }),
{
    let r = https_redirect_for(headers, authority, path);
    if r.headers.len() > 0 {
        lemma_one_field(r.headers[0]);
        assert(r.headers =~= seq![r.headers[0]]);
    }
    assert(requested_host(headers, authority) is None ==> r.status == 400);
}

/// The server goes by its name and the version.
pub proof fn law_the_server_names_its_version(version: Seq<char>, other: Seq<char>)
    ensures
        server_name(version).len() == version.len() + 12,
        forall|i: int|
            0 <= i < version.len() ==> #[trigger] server_name(version)[i + 5] == version[i],
        server_name(version) == server_name(other) ==> version == other,
{
    reveal_strlit("ttyd/");
    reveal_strlit(" (rust)");
    assert(server_name(version).subrange(5, 5 + version.len() as int) =~= version);
    assert(server_name(other).subrange(5, 5 + other.len() as int) =~= other);
}

/// Gzip is taken exactly if some entry names it and has no weight that is zero.
pub proof fn law_when_gzip_is_taken(zero_weights: Seq<Seq<bool>>)
    ensures
        gzip_accepted(zero_weights) <==> exists|i: int|
            0 <= i < zero_weights.len() && !(#[trigger] zero_weights[i]).contains(true),
{
    if gzip_accepted(zero_weights) {
        let i = choose|i: int|
            0 <= i < zero_weights.len() && crate::http::gzip::none_set(#[trigger] zero_weights[i]);
        assert(!zero_weights[i].contains(true));
    }
    if exists|i: int| 0 <= i < zero_weights.len() && !(#[trigger] zero_weights[i]).contains(true) {
        let i = choose|i: int|
            0 <= i < zero_weights.len() && !(#[trigger] zero_weights[i]).contains(true);
        assert forall|j: int| 0 <= j < zero_weights[i].len() implies !#[trigger] zero_weights[i][j] by {
            if zero_weights[i][j] {
                assert(zero_weights[i].contains(true));
            }
        }
        assert(crate::http::gzip::none_set(zero_weights[i]));
    }
}

/// An entry names gzip exactly if what stands before its first semicolon is `gzip` or `x-gzip`, in any
/// case; its parameters do not matter.
pub proof fn law_what_names_gzip(coding: Seq<char>, params: Seq<char>)
    requires
        !coding.contains(';'),
    ensures
        names_gzip(coding) <==> same_ignoring_case(trim(coding), "gzip"@) || same_ignoring_case(
            trim(coding),
            "x-gzip"@,
        ),
        names_gzip(coding.push(';') + params) == names_gzip(coding),
{
    law_pieces_follow_the_separators(coding, ';', params);
}

/// The weights of the entries that name gzip are found entry by entry, in order; an entry that names
/// another coding has no say.
pub proof fn law_every_entry_has_its_say(
    entries: Seq<Seq<char>>,
    more: Seq<Seq<char>>,
    entry: Seq<char>,
)
    ensures
        gzip_weights_of(entries + more) == gzip_weights_of(entries) + gzip_weights_of(more),
        names_gzip(entry) ==> gzip_weights_of(seq![entry]) == seq![
            weights(split(entry, ';').drop_first()),
        ],
        !names_gzip(entry) ==> gzip_weights_of(seq![entry]).len() == 0,
    decreases more.len(),
{
    let one = seq![entry];
    assert(one.drop_last() =~= Seq::empty());
    assert(gzip_weights_of(one.drop_last()) =~= Seq::empty());
    let w = weights(split(entry, ';').drop_first());
    assert(Seq::<Seq<Seq<char>>>::empty().push(w) =~= seq![w]);
    if more.len() > 0 {
        law_every_entry_has_its_say(entries, more.drop_last(), entry);
        assert((entries + more).drop_last() =~= entries + more.drop_last());
        assert((entries + more).last() == more.last());
    } else {
        assert(entries + more =~= entries);
    }
    assert(gzip_weights_of(entries + more) =~= gzip_weights_of(entries) + gzip_weights_of(more));
}

/// The weights of an entry are the values of its parameters of the name `q`, in any case, in order.
pub proof fn law_the_weights_of_an_entry(
    params: Seq<Seq<char>>,
    more: Seq<Seq<char>>,
    param: Seq<char>,
)
    ensures
        weights(params + more) == weights(params) + weights(more),
        same_ignoring_case(parameter(param).0, "q"@) ==> weights(seq![param]) == seq![
            parameter(param).1,
        ],
        !same_ignoring_case(parameter(param).0, "q"@) ==> weights(seq![param]).len() == 0,
    decreases more.len(),
{
    let one = seq![param];
    assert(one.drop_last() =~= Seq::empty());
    assert(weights(one.drop_last()) =~= Seq::empty());
    assert(Seq::<Seq<char>>::empty().push(parameter(param).1) =~= seq![parameter(param).1]);
    if more.len() > 0 {
        law_the_weights_of_an_entry(params, more.drop_last(), param);
        assert((params + more).drop_last() =~= params + more.drop_last());
        assert((params + more).last() == more.last());
    } else {
        assert(params + more =~= params);
    }
    assert(weights(params + more) =~= weights(params) + weights(more));
}

/// A parameter is a name and a value with an equals sign between, and the white space around them does
/// not count; without the sign it is a name alone.
pub proof fn law_the_parts_of_a_parameter(name: Seq<char>, value: Seq<char>)
    requires
        !name.contains('='),
    ensures
        parameter(name.push('=') + value) == (trim(name), trim(value)),
        parameter(name).0 == trim(name),
        parameter(name).1.len() == 0,
{
    let s = name.push('=') + value;
    law_the_first_place_is_found(s, '=');
    law_the_first_place_is_found(name, '=');
    law_parts_are_found_again(name, '=', value);
    let k = find(s, '=') as int;
    assert(s[name.len() as int] == '=');
    if k < name.len() {
        assert(name.contains(name[k]));
        assert(s[k] == name[k]);
    }
    assert(s.take(k) =~= name);
    assert(s.skip(k + 1) =~= value);
    if find(name, '=') < name.len() {
        assert(name.contains(name[find(name, '=') as int]));
    }
    law_what_is_not_white_is_kept(Seq::empty());
}

/// A request that may go on is not answered here, and one that may not always is, with the status of its
/// refusal.
pub proof fn law_only_refusals_are_answered(decision: DecisionView)
    ensures
        decision is Allow ==> denial_of(decision) is None,
        decision matches DecisionView::Deny { status, headers } ==> denial_of(decision) == Some(
            denied(status, headers),
        ),
{
}

/// A client that takes gzip gets the page as it is stored, and is told so; any other client gets it in
/// the clear, or nothing where it cannot be unpacked. A page of the operator's own is sent in the clear,
/// and is not found where it cannot be read.
pub proof fn law_who_gets_which_page(stored: Seq<u8>, contents: Seq<u8>)
    ensures
        bundled_page(stored, true) matches Some(r) && r.status == 200 && r.body == stored && values_of(
            r.headers,
            "content-encoding"@,
        ) == seq![encode_utf8("gzip"@)],
        inflated(stored) matches Some(plain) ==> (bundled_page(stored, false) matches Some(r)
            && r.status == 200 && r.body == plain && values_of(r.headers, "content-encoding"@).len()
            == 0),
        inflated(stored) is None ==> bundled_page(stored, false) is None,
        custom_page(Some(contents)).status == 200 && custom_page(Some(contents)).body == contents
            && values_of(custom_page(Some(contents)).headers, "content-encoding"@).len() == 0,
        custom_page(None).status == 404,
{
    law_a_page_is_answered(stored, true);
    law_a_page_is_answered(contents, false);
    match inflated(stored) {
        Some(plain) => {
            law_a_page_is_answered(plain, false);
        },
        None => {},
    }
}

} // verus!
