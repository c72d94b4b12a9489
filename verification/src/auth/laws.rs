//! What holds of forward authentication whatever the client sends.

use crate::auth::forward::{
    ReplyView, after_ask, after_reply, copied_headers, is_synthesized, kept, key_for, metadata,
    optional_header, passed_through, relayed, relayed_values, request_key, shown_values,
    subrequest_for, subrequest_headers, verdict,
};
use crate::auth::{
    DecisionView, RequestContextView, StepView, bounded_user, may_follow, next_step, user_of, window_for,
};
use crate::cli::config::{AuthModeView, ForwardAuthConfigView, forwarded_header_names};
use crate::cli::values::is_method;
use crate::headers::{
    HeaderView, first_text, first_value, is_field_value, is_visible, law_values_keep_their_order,
    value_text, values_of,
};
use crate::text::laws::{law_parts_are_found_again, law_same_but_for_case, law_texts_are_parted_once};
use crate::text::{lower, same_ignoring_case};
use vstd::prelude::*;
use vstd::utf8::encode_utf8;

verus! {

/// An endpoint that cannot be asked admits nobody.
pub proof fn law_an_outage_admits_nobody(user_header: Seq<char>)
    ensures
        verdict(user_header, ReplyView::Unreachable) == (DecisionView::Deny {
            status: 500,
            headers: Seq::empty(),
        }),
{
}

/// Only an answer of the 2xx class admits a request, and only such a decision is kept: a refusal
/// never is.
pub proof fn law_only_grants_are_kept(user_header: Seq<char>, reply: ReplyView)
    ensures
        verdict(user_header, reply) is Allow <==> (reply matches ReplyView::Answered {
            status,
            ..
        } && 200 <= status < 300),
        kept(verdict(user_header, reply)) is Some <==> verdict(user_header, reply) is Allow,
{
}

/// No header with a name of its own kind is copied under a name that the subrequest uses itself.
proof fn lemma_copied_names(names: Seq<Seq<char>>, headers: Seq<HeaderView>)
    ensures
        forall|i: int|
            0 <= i < copied_headers(names, headers).len() ==> !is_synthesized(
                (#[trigger] copied_headers(names, headers)[i]).0,
            ),
    decreases names.len(),
{
    if names.len() > 0 {
        lemma_copied_names(names.drop_last(), headers);
        if !is_synthesized(names.last()) {
            let before = copied_headers(names.drop_last(), headers);
            let more = shown_values(names.last(), values_of(headers, names.last()));
            lemma_shown_names(names.last(), values_of(headers, names.last()));
            assert forall|i: int| 0 <= i < (before + more).len() implies !is_synthesized(
                (#[trigger] (before + more)[i]).0,
            ) by {
                if i < before.len() {
                    assert((before + more)[i] == before[i]);
                } else {
                    assert((before + more)[i] == more[i - before.len()]);
                }
            }
            assert(copied_headers(names, headers) == before + more);
        } else {
            assert(copied_headers(names, headers) == copied_headers(names.drop_last(), headers));
        }
    }
}

/// The values of a header are shown under its name.
proof fn lemma_shown_names(name: Seq<char>, values: Seq<Seq<u8>>)
    ensures
        forall|i: int|
            0 <= i < shown_values(name, values).len() ==> (#[trigger] shown_values(
                name,
                values,
            )[i]).0 == name,
    decreases values.len(),
{
    if values.len() > 0 {
        let before = shown_values(name, values.drop_last());
        lemma_shown_names(name, values.drop_last());
        assert forall|i: int| 0 <= i < shown_values(name, values).len() implies (
        #[trigger] shown_values(name, values)[i]).0 == name by {
            if i < before.len() {
                assert(shown_values(name, values)[i] == before[i]);
            }
        }
    }
}

/// What a subrequest says about a request is what was observed, whatever the client claims and
/// whichever headers are copied: every header under one of the describing names is one of those
/// that describe the request.
pub proof fn law_the_client_describes_nothing(
    cfg: ForwardAuthConfigView,
    ctx: RequestContextView,
    i: int,
)
    requires
        0 <= i < subrequest_headers(cfg, ctx).len(),
        is_synthesized(subrequest_headers(cfg, ctx)[i].0),
    ensures
        metadata(ctx).contains(subrequest_headers(cfg, ctx)[i]),
{
    let copied = copied_headers(forwarded_header_names(cfg.request_headers), ctx.headers);
    lemma_copied_names(forwarded_header_names(cfg.request_headers), ctx.headers);
    if i < copied.len() {
        assert(subrequest_headers(cfg, ctx)[i] == copied[i]);
    } else {
        assert(subrequest_headers(cfg, ctx)[i] == metadata(ctx)[i - copied.len()]);
    }
}

/// The forwarded address is the one that was observed: there is such a header only if there was an
/// address, and it holds nothing else.
pub proof fn law_the_forwarded_address_is_observed(
    cfg: ForwardAuthConfigView,
    ctx: RequestContextView,
    i: int,
)
    requires
        0 <= i < subrequest_headers(cfg, ctx).len(),
        subrequest_headers(cfg, ctx)[i].0 == "x-forwarded-for"@,
    ensures
        ctx.peer == Some(subrequest_headers(cfg, ctx)[i].1),
{
    law_the_client_describes_nothing(cfg, ctx, i);
    reveal_strlit("x-original-method");
    reveal_strlit("x-original-uri");
    reveal_strlit("x-forwarded-method");
    reveal_strlit("x-forwarded-uri");
    reveal_strlit("x-forwarded-proto");
    reveal_strlit("x-forwarded-host");
    reveal_strlit("x-forwarded-for");
    let m = metadata(ctx);
    let k = choose|k: int| 0 <= k < m.len() && m[k] == subrequest_headers(cfg, ctx)[i];
    let host = optional_header("x-forwarded-host"@, first_text(ctx.headers, "host"@));
    assert("x-forwarded-host"@.len() != "x-forwarded-for"@.len());
    assert("x-original-method"@.len() != "x-forwarded-for"@.len());
    assert("x-original-uri"@.len() != "x-forwarded-for"@.len());
    assert("x-forwarded-method"@.len() != "x-forwarded-for"@.len());
    assert("x-forwarded-proto"@.len() != "x-forwarded-for"@.len());
    assert("x-forwarded-uri"@[12] != "x-forwarded-for"@[12]);
    assert(m[0].0 == "x-original-method"@);
    assert(m[1].0 == "x-original-uri"@);
    assert(m[2].0 == "x-forwarded-method"@);
    assert(m[3].0 == "x-forwarded-uri"@);
    assert(m[4].0 == "x-forwarded-proto"@);
    if k >= 5 {
        if host.len() == 1 {
            assert(m[5].0 == "x-forwarded-host"@);
            if k == 6 {
                assert(m[6] == optional_header("x-forwarded-for"@, ctx.peer)[0]);
            }
        } else {
            assert(m[5] == optional_header("x-forwarded-for"@, ctx.peer)[0]);
        }
    }
}

/// A text without the control characters that set the parts of a key apart.
pub open spec fn is_separable(s: Seq<char>) -> bool {
    forall|i: int| 0 <= i < s.len() ==> #[trigger] s[i] != '\u{1}' && s[i] != '\u{2}'
}

/// Headers without the control characters that set the parts of a key apart.
pub open spec fn are_separable(headers: Seq<(Seq<char>, Seq<char>)>) -> bool {
    forall|i: int|
        0 <= i < headers.len() ==> is_separable((#[trigger] headers[i]).0) && is_separable(
            headers[i].1,
        )
}

/// Two texts of the form `p \u{1} n \u{2} v` are the same only if their parts are.
proof fn lemma_parts(
    p: Seq<char>,
    n: Seq<char>,
    v: Seq<char>,
    q: Seq<char>,
    m: Seq<char>,
    w: Seq<char>,
)
    requires
        is_separable(n),
        is_separable(v),
        is_separable(m),
        is_separable(w),
        p + seq!['\u{1}'] + n + seq!['\u{2}'] + v == q + seq!['\u{1}'] + m + seq!['\u{2}'] + w,
    ensures
        p == q,
        n == m,
        v == w,
{
    let a = p + seq!['\u{1}'] + n + seq!['\u{2}'] + v;
    let b = q + seq!['\u{1}'] + m + seq!['\u{2}'] + w;
    assert(a.len() == p.len() + n.len() + v.len() + 2);
    assert(b.len() == q.len() + m.len() + w.len() + 2);
    assert(a[p.len() as int] == '\u{1}');
    assert(b[q.len() as int] == '\u{1}');
    if p.len() < q.len() {
        let k = q.len() - p.len() - 1;
        if k < n.len() {
            assert(a[q.len() as int] == n[k]);
        } else if k == n.len() {
            assert(a[q.len() as int] == '\u{2}');
        } else {
            assert(a[q.len() as int] == v[k - n.len() - 1]);
        }
    }
    if q.len() < p.len() {
        let k = p.len() - q.len() - 1;
        if k < m.len() {
            assert(b[p.len() as int] == m[k]);
        } else if k == m.len() {
            assert(b[p.len() as int] == '\u{2}');
        } else {
            assert(b[p.len() as int] == w[k - m.len() - 1]);
        }
    }
    assert(p =~= a.take(p.len() as int));
    assert(q =~= b.take(q.len() as int));
    let s = p.len() as int + 1;
    assert(a[s + n.len()] == '\u{2}');
    assert(b[s + m.len()] == '\u{2}');
    if n.len() < m.len() {
        assert(b[s + n.len()] == m[n.len() as int]);
    }
    if m.len() < n.len() {
        assert(a[s + m.len()] == n[m.len() as int]);
    }
    assert(n =~= a.subrange(s, s + n.len()));
    assert(m =~= b.subrange(s, s + m.len()));
    assert(v =~= a.skip(s + n.len() + 1));
    assert(w =~= b.skip(s + m.len() + 1));
}

/// Two decisions share a key only if the URI and every header of the subrequests are the same.
pub proof fn law_keys_separate_requests(
    uri: Seq<char>,
    headers: Seq<(Seq<char>, Seq<char>)>,
    other_uri: Seq<char>,
    other: Seq<(Seq<char>, Seq<char>)>,
)
    requires
        is_separable(uri),
        is_separable(other_uri),
        are_separable(headers),
        are_separable(other),
        key_for(uri, headers) == key_for(other_uri, other),
    ensures
        uri == other_uri,
        headers == other,
    decreases headers.len(),
{
    if headers.len() == 0 && other.len() == 0 {
        assert(headers =~= other);
    } else if headers.len() == 0 {
        lemma_has_separator(other_uri, other);
    } else if other.len() == 0 {
        lemma_has_separator(uri, headers);
    } else {
        let h = headers.drop_last();
        let o = other.drop_last();
        assert(headers.last() == headers[headers.len() - 1]);
        assert(other.last() == other[other.len() - 1]);
        lemma_parts(
            key_for(uri, h),
            headers.last().0,
            headers.last().1,
            key_for(other_uri, o),
            other.last().0,
            other.last().1,
        );
        assert forall|i: int| 0 <= i < h.len() implies is_separable((#[trigger] h[i]).0)
            && is_separable(h[i].1) by {
            assert(h[i] == headers[i]);
        }
        assert forall|i: int| 0 <= i < o.len() implies is_separable((#[trigger] o[i]).0)
            && is_separable(o[i].1) by {
            assert(o[i] == other[i]);
        }
        law_keys_separate_requests(uri, h, other_uri, o);
        assert(headers =~= h.push(headers.last()));
        assert(other =~= o.push(other.last()));
    }
}

/// The key of a subrequest with headers holds the control character before a header.
proof fn lemma_has_separator(uri: Seq<char>, headers: Seq<(Seq<char>, Seq<char>)>)
    requires
        headers.len() > 0,
    ensures
        !is_separable(key_for(uri, headers)),
{
    let p = key_for(uri, headers.drop_last());
    assert(key_for(uri, headers)[p.len() as int] == '\u{1}');
}

/// A request as HTTP lets it be: none of its parts holds the control characters that set the parts
/// of a key apart.
pub open spec fn is_http_request(ctx: RequestContextView) -> bool {
    &&& is_separable(ctx.method)
    &&& is_separable(ctx.uri)
    &&& ctx.peer matches Some(peer) ==> is_separable(peer)
    &&& forall|i: int| 0 <= i < ctx.headers.len() ==> is_separable((#[trigger] ctx.headers[i]).name)
}

/// A name that matches a separable one in any case is separable too.
proof fn lemma_same_name_separable(name: Seq<char>, other: Seq<char>)
    requires
        same_ignoring_case(name, other),
        is_separable(name),
    ensures
        is_separable(other),
{
    assert(lower(name).len() == name.len());
    assert(lower(other).len() == other.len());
    assert forall|i: int| 0 <= i < other.len() implies #[trigger] other[i] != '\u{1}' && other[i]
        != '\u{2}' by {
        assert(lower(name)[i] == lower(other)[i]);
        assert(name[i] != '\u{1}' && name[i] != '\u{2}');
    }
}

/// The values of a name that occurs in a request can only be found under a separable name.
proof fn lemma_found_name_separable(headers: Seq<HeaderView>, name: Seq<char>)
    requires
        forall|i: int| 0 <= i < headers.len() ==> is_separable((#[trigger] headers[i]).name),
        values_of(headers, name).len() > 0,
    ensures
        is_separable(name),
    decreases headers.len(),
{
    let last = headers[headers.len() - 1];
    if same_ignoring_case(last.name, name) {
        lemma_same_name_separable(last.name, name);
    } else {
        let before = headers.drop_last();
        assert forall|i: int| 0 <= i < before.len() implies is_separable(
            (#[trigger] before[i]).name,
        ) by {
            assert(before[i] == headers[i]);
        }
        lemma_found_name_separable(before, name);
    }
}

/// Values that can be shown are separable.
proof fn lemma_shown_separable(name: Seq<char>, values: Seq<Seq<u8>>)
    requires
        values.len() > 0 ==> is_separable(name),
    ensures
        are_separable(shown_values(name, values)),
    decreases values.len(),
{
    if values.len() > 0 {
        let before = shown_values(name, values.drop_last());
        lemma_shown_separable(name, values.drop_last());
        let value = values.last();
        match value_text(value) {
            Some(text) => {
                assert forall|k: int| 0 <= k < text.len() implies #[trigger] text[k] != '\u{1}'
                    && text[k] != '\u{2}' by {
                    assert(is_visible(value[k]));
                }
                assert(is_separable(text));
                assert forall|i: int| 0 <= i < before.push((name, text)).len() implies is_separable(
                    (#[trigger] before.push((name, text))[i]).0,
                ) && is_separable(before.push((name, text))[i].1) by {
                    if i < before.len() {
                        assert(before.push((name, text))[i] == before[i]);
                    }
                }
            },
            None => {},
        }
    }
}

/// Separable headers behind separable headers are separable.
proof fn lemma_joined_separable(
    a: Seq<(Seq<char>, Seq<char>)>,
    b: Seq<(Seq<char>, Seq<char>)>,
)
    requires
        are_separable(a),
        are_separable(b),
    ensures
        are_separable(a + b),
{
    assert forall|i: int| 0 <= i < (a + b).len() implies is_separable((#[trigger] (a + b)[i]).0)
        && is_separable((a + b)[i].1) by {
        if i < a.len() {
            assert((a + b)[i] == a[i]);
        } else {
            assert((a + b)[i] == b[i - a.len()]);
        }
    }
}

/// The headers that are copied from a request are separable.
proof fn lemma_copied_separable(names: Seq<Seq<char>>, headers: Seq<HeaderView>)
    requires
        forall|i: int| 0 <= i < headers.len() ==> is_separable((#[trigger] headers[i]).name),
    ensures
        are_separable(copied_headers(names, headers)),
    decreases names.len(),
{
    if names.len() > 0 {
        lemma_copied_separable(names.drop_last(), headers);
        let values = values_of(headers, names.last());
        if values.len() > 0 {
            lemma_found_name_separable(headers, names.last());
        }
        lemma_shown_separable(names.last(), values);
        lemma_joined_separable(
            copied_headers(names.drop_last(), headers),
            shown_values(names.last(), values),
        );
    }
}

/// The headers that describe a request are separable.
proof fn lemma_metadata_separable(ctx: RequestContextView)
    requires
        is_http_request(ctx),
    ensures
        are_separable(metadata(ctx)),
{
    reveal_strlit("x-original-method");
    reveal_strlit("x-original-uri");
    reveal_strlit("x-forwarded-method");
    reveal_strlit("x-forwarded-uri");
    reveal_strlit("x-forwarded-proto");
    reveal_strlit("x-forwarded-host");
    reveal_strlit("x-forwarded-for");
    reveal_strlit("https");
    reveal_strlit("http");
    let scheme = if ctx.tls {
        "https"@
    } else {
        "http"@
    };
    let fixed = seq![
        ("x-original-method"@, ctx.method),
        ("x-original-uri"@, ctx.uri),
        ("x-forwarded-method"@, ctx.method),
        ("x-forwarded-uri"@, ctx.uri),
        ("x-forwarded-proto"@, scheme),
    ];
    assert(is_separable("x-original-method"@));
    assert(is_separable("x-original-uri"@));
    assert(is_separable("x-forwarded-method"@));
    assert(is_separable("x-forwarded-uri"@));
    assert(is_separable("x-forwarded-proto"@));
    assert(is_separable("x-forwarded-host"@));
    assert(is_separable("x-forwarded-for"@));
    assert(is_separable(scheme));
    assert(are_separable(fixed));
    let host = optional_header("x-forwarded-host"@, first_text(ctx.headers, "host"@));
    match first_value(ctx.headers, "host"@) {
        Some(value) => {
            match value_text(value) {
                Some(text) => {
                    assert forall|k: int| 0 <= k < text.len() implies #[trigger] text[k] != '\u{1}'
                        && text[k] != '\u{2}' by {
                        assert(is_visible(value[k]));
                    }
                    assert(is_separable(text));
                },
                None => {},
            }
        },
        None => {},
    }
    assert(are_separable(host));
    let address = optional_header("x-forwarded-for"@, ctx.peer);
    assert(are_separable(address));
    lemma_joined_separable(fixed, host);
    lemma_joined_separable(fixed + host, address);
}

/// A decision that is kept for one request is found again only for a request about which the
/// endpoint would be asked the same: same method, same URL, same headers.
pub proof fn law_a_decision_is_never_replayed(
    cfg: ForwardAuthConfigView,
    ctx: RequestContextView,
    other: RequestContextView,
)
    requires
        is_http_request(ctx),
        is_http_request(other),
        request_key(cfg, ctx) == request_key(cfg, other),
    ensures
        subrequest_for(cfg, ctx) == subrequest_for(cfg, other),
{
    let names = forwarded_header_names(cfg.request_headers);
    lemma_copied_separable(names, ctx.headers);
    lemma_copied_separable(names, other.headers);
    lemma_metadata_separable(ctx);
    lemma_metadata_separable(other);
    lemma_joined_separable(copied_headers(names, ctx.headers), metadata(ctx));
    lemma_joined_separable(copied_headers(names, other.headers), metadata(other));
    law_keys_separate_requests(
        ctx.uri,
        subrequest_headers(cfg, ctx),
        other.uri,
        subrequest_headers(cfg, other),
    );
}

/// What happens to the kept decisions.
#[verifier::ext_equal]
pub enum Moment {
    /// None was found for a request, and the endpoint is to be asked.
    Asked { ctx: RequestContextView },
    /// The subrequest about a request came to this.
    Replied { ctx: RequestContextView, reply: ReplyView },
}

impl Moment {
    /// The request that a moment is about.
    pub open spec fn ctx(self) -> RequestContextView {
        match self {
            Moment::Asked { ctx } => ctx,
            Moment::Replied { ctx, .. } => ctx,
        }
    }
}

/// The decisions that may be kept after all that has happened, in any order.
pub open spec fn kept_after(cfg: ForwardAuthConfigView, history: Seq<Moment>) -> Map<
    Seq<char>,
    Option<Seq<char>>,
>
    decreases history.len(),
{
    if history.len() == 0 {
        Map::empty()
    } else {
        let before = kept_after(cfg, history.drop_last());
        match history.last() {
            Moment::Asked { ctx } => after_ask(cfg, before, ctx),
            Moment::Replied { ctx, reply } => after_reply(cfg, before, ctx, reply),
        }
    }
}

/// At a moment, the endpoint admitted a user under a key.
pub open spec fn granted_under(
    cfg: ForwardAuthConfigView,
    moment: Moment,
    key: Seq<char>,
    user: Option<Seq<char>>,
) -> bool {
    match moment {
        Moment::Asked { .. } => false,
        Moment::Replied { ctx, reply } => request_key(cfg, ctx) == key && verdict(
            cfg.user_header,
            reply,
        ) == (DecisionView::Allow { user }),
    }
}

/// Every kept decision was made by one of the subrequests.
proof fn lemma_kept_was_granted(cfg: ForwardAuthConfigView, history: Seq<Moment>, key: Seq<char>)
    requires
        kept_after(cfg, history).dom().contains(key),
    ensures
        exists|i: int|
            0 <= i < history.len() && #[trigger] granted_under(
                cfg,
                history[i],
                key,
                kept_after(cfg, history)[key],
            ),
    decreases history.len(),
{
    let user = kept_after(cfg, history)[key];
    let last = history[history.len() - 1];
    if !granted_under(cfg, last, key, user) {
        let before = history.drop_last();
        lemma_kept_was_granted(cfg, before, key);
        let i = choose|i: int|
            0 <= i < before.len() && #[trigger] granted_under(
                cfg,
                before[i],
                key,
                kept_after(cfg, before)[key],
            );
        assert(history[i] == before[i]);
        assert(granted_under(cfg, history[i], key, user));
    }
}

/// Whatever happened before, a request is admitted without asking only if the endpoint was asked
/// exactly the same about an earlier one and admitted it, as the same user. In all other cases the
/// endpoint is asked.
pub proof fn law_only_what_was_granted_is_admitted(
    cfg: ForwardAuthConfigView,
    history: Seq<Moment>,
    ctx: RequestContextView,
    step: StepView,
)
    requires
        forall|i: int| 0 <= i < history.len() ==> is_http_request((#[trigger] history[i]).ctx()),
        is_http_request(ctx),
        may_follow(AuthModeView::Forward(cfg), kept_after(cfg, history), ctx, step),
    ensures
        step == StepView::Ask(subrequest_for(cfg, ctx)) || exists|i: int|
            0 <= i < history.len() && (#[trigger] history[i] matches Moment::Replied {
                ctx: earlier,
                reply,
            } && subrequest_for(cfg, earlier) == subrequest_for(cfg, ctx) && verdict(
                cfg.user_header,
                reply,
            ) is Allow && step == StepView::Done(verdict(cfg.user_header, reply))),
{
    let kept = kept_after(cfg, history);
    let key = request_key(cfg, ctx);
    if step != StepView::Ask(subrequest_for(cfg, ctx)) {
        lemma_kept_was_granted(cfg, history, key);
        let i = choose|i: int|
            0 <= i < history.len() && #[trigger] granted_under(cfg, history[i], key, kept[key]);
        law_a_decision_is_never_replayed(cfg, history[i].ctx(), ctx);
    }
}

/// A grant is remembered: where decisions are kept, the same request is admitted as the same user
/// without asking as long as the decision is still there, and otherwise the endpoint is asked the
/// same again.
pub proof fn law_a_grant_is_remembered(
    cfg: ForwardAuthConfigView,
    before: Map<Seq<char>, Option<Seq<char>>>,
    ctx: RequestContextView,
    reply: ReplyView,
    step: StepView,
)
    requires
        verdict(cfg.user_header, reply) is Allow,
    ensures
        ({
            let mode = AuthModeView::Forward(cfg);
            let after = after_reply(cfg, before, ctx, reply);
            let key = request_key(cfg, ctx);
            let admitted = StepView::Done(verdict(cfg.user_header, reply));
            &&& after.dom().contains(key)
            &&& next_step(mode, ctx, Some(after[key])) == admitted
            &&& may_follow(mode, after, ctx, admitted)
            &&& may_follow(mode, after, ctx, step) ==> step == admitted || step == StepView::Ask(
                subrequest_for(cfg, ctx),
            )
        }),
{
}

/// A refusal is not remembered: when the endpoint was asked about a request and refused it, it is
/// asked again about the next one like it, whatever was kept before.
pub proof fn law_a_refusal_is_not_remembered(
    cfg: ForwardAuthConfigView,
    before: Map<Seq<char>, Option<Seq<char>>>,
    ctx: RequestContextView,
    reply: ReplyView,
    step: StepView,
)
    requires
        verdict(cfg.user_header, reply) is Deny,
        may_follow(
            AuthModeView::Forward(cfg),
            after_reply(cfg, after_ask(cfg, before, ctx), ctx, reply),
            ctx,
            step,
        ),
    ensures
        step == StepView::Ask(subrequest_for(cfg, ctx)),
{
}

/// Where no decision is kept, the endpoint is asked about every request.
pub proof fn law_without_kept_decisions_the_endpoint_is_asked(
    cfg: ForwardAuthConfigView,
    kept: Map<Seq<char>, Option<Seq<char>>>,
    ctx: RequestContextView,
    step: StepView,
)
    requires
        !kept.dom().contains(request_key(cfg, ctx)),
        may_follow(AuthModeView::Forward(cfg), kept, ctx, step),
    ensures
        step == StepView::Ask(subrequest_for(cfg, ctx)),
{
}

/// Without authentication every request is let in, and no user is known.
pub proof fn law_without_authentication_everybody_is_let_in(
    ctx: RequestContextView,
    cached: Option<Option<Seq<char>>>,
)
    ensures
        next_step(AuthModeView::Disabled, ctx, cached) == StepView::Done(
            DecisionView::Allow { user: None },
        ),
{
}

/// The request presents a credential: its `Authorization` is the scheme `Basic`, in any case, a space
/// and the credential.
pub open spec fn presents(ctx: RequestContextView, scheme: Seq<char>, credential: Seq<char>) -> bool {
    &&& same_ignoring_case(scheme, "basic"@)
    &&& first_text(ctx.headers, "authorization"@) == Some(scheme.push(' ') + credential)
}

/// Basic authentication lets a request in exactly if it presents the credential, and asks for a login
/// otherwise. What was kept of other requests does not matter.
pub proof fn law_only_the_credential_is_let_in(
    credential: Seq<char>,
    ctx: RequestContextView,
    cached: Option<Option<Seq<char>>>,
)
    ensures
        ({
            let step = next_step(AuthModeView::Basic { credential }, ctx, cached);
            let shown = exists|scheme: Seq<char>| #[trigger] presents(ctx, scheme, credential);
            &&& shown ==> step == StepView::Done(DecisionView::Allow { user: None })
            &&& !shown ==> (step matches StepView::Done(DecisionView::Deny { status, headers })
                && status == 401 && values_of(headers, "www-authenticate"@) == seq![
                encode_utf8("Basic realm=\"ttyd\""@),
            ] && headers.len() == 1)
        }),
{
    let step = next_step(AuthModeView::Basic { credential }, ctx, cached);
    reveal_strlit("basic");
    if exists|scheme: Seq<char>| #[trigger] presents(ctx, scheme, credential) {
        let scheme = choose|scheme: Seq<char>| #[trigger] presents(ctx, scheme, credential);
        law_same_but_for_case(scheme, "basic"@);
        assert(!scheme.contains(' ')) by {
            assert forall|i: int| 0 <= i < scheme.len() implies scheme[i] != ' ' by {}
        }
        law_parts_are_found_again(scheme, ' ', credential);
    } else {
        match first_text(ctx.headers, "authorization"@) {
            Some(text) => {
                law_texts_are_parted_once(text, ' ');
                match crate::text::split_once(text, ' ') {
                    Some((scheme, rest)) => {
                        if same_ignoring_case(scheme, "basic"@) && rest == credential {
                            assert(presents(ctx, scheme, credential));
                        }
                    },
                    None => {},
                }
            },
            None => {},
        }
        let refusal = HeaderView {
            name: "www-authenticate"@,
            value: encode_utf8("Basic realm=\"ttyd\""@),
        };
        law_values_keep_their_order(seq![refusal], Seq::empty(), refusal, "www-authenticate"@);
    }
}

/// Behind a trusted proxy a request is let in exactly if the configured header names a user, as that
/// user; otherwise the proxy is asked to authenticate.
pub proof fn law_the_trusted_header_names_the_user(
    header: Seq<char>,
    ctx: RequestContextView,
    cached: Option<Option<Seq<char>>>,
)
    ensures
        ({
            let step = next_step(AuthModeView::TrustedHeader { header }, ctx, cached);
            let user = first_text(ctx.headers, header);
            &&& (user matches Some(name) && name.len() > 0) ==> step == StepView::Done(
                DecisionView::Allow { user },
            )
            &&& !(user matches Some(name) && name.len() > 0) ==> (step matches StepView::Done(
                DecisionView::Deny { status, headers },
            ) && status == 407 && values_of(headers, "proxy-authenticate"@) == seq![
                encode_utf8("Basic realm=\"ttyd\""@),
            ] && headers.len() == 1)
        }),
{
    let refusal = HeaderView {
        name: "proxy-authenticate"@,
        value: encode_utf8("Basic realm=\"ttyd\""@),
    };
    law_values_keep_their_order(seq![refusal], Seq::empty(), refusal, "proxy-authenticate"@);
}

/// Forward authentication asks its endpoint about a request unless an earlier decision was found, and
/// then lets it in as the same user.
pub proof fn law_the_endpoint_decides(
    cfg: ForwardAuthConfigView,
    ctx: RequestContextView,
    user: Option<Seq<char>>,
)
    ensures
        next_step(AuthModeView::Forward(cfg), ctx, None) == StepView::Ask(subrequest_for(cfg, ctx)),
        next_step(AuthModeView::Forward(cfg), ctx, Some(user)) == StepView::Done(
            DecisionView::Allow { user },
        ),
{
}

/// The five fields that are relayed from a refusal of the endpoint.
pub open spec fn lets_the_user_act(name: Seq<char>) -> bool {
    ||| name == "www-authenticate"@
    ||| name == "proxy-authenticate"@
    ||| name == "location"@
    ||| name == "set-cookie"@
    ||| name == "cache-control"@
}

/// What is relayed under one name is found under that name only, and is the valid values, in order.
proof fn lemma_relayed_values(name: Seq<char>, values: Seq<Seq<u8>>, other: Seq<char>)
    ensures
        same_ignoring_case(name, other) ==> values_of(relayed_values(name, values), other)
            == values.filter(|v: Seq<u8>| is_field_value(v)),
        !same_ignoring_case(name, other) ==> values_of(relayed_values(name, values), other).len()
            == 0,
        forall|i: int|
            0 <= i < relayed_values(name, values).len() ==> (#[trigger] relayed_values(
                name,
                values,
            )[i]).name == name,
    decreases values.len(),
{
    reveal(Seq::filter);
    if values.len() > 0 {
        lemma_relayed_values(name, values.drop_last(), other);
        let before = relayed_values(name, values.drop_last());
        let all = relayed_values(name, values);
        if is_field_value(values.last()) {
            let field = HeaderView { name, value: values.last() };
            assert(all.drop_last() =~= before);
            assert(all.last() == field);
        }
        assert forall|i: int| 0 <= i < all.len() implies (#[trigger] all[i]).name == name by {
            if i < before.len() {
                assert(all[i] == before[i]);
            }
        }
    }
}

/// Only those of the five fields come through that bear the name that is looked for.
proof fn lemma_passed_through(headers: Seq<HeaderView>, name: Seq<char>)
    requires
        lets_the_user_act(name),
    ensures
        values_of(passed_through(headers), name) == values_of(headers, name).filter(
            |v: Seq<u8>| is_field_value(v),
        ),
{
    reveal_strlit("www-authenticate");
    reveal_strlit("proxy-authenticate");
    reveal_strlit("location");
    reveal_strlit("set-cookie");
    reveal_strlit("cache-control");
    let a = relayed("www-authenticate"@, headers);
    let b = relayed("proxy-authenticate"@, headers);
    let c = relayed("location"@, headers);
    let d = relayed("set-cookie"@, headers);
    let e = relayed("cache-control"@, headers);
    law_same_but_for_case("www-authenticate"@, name);
    law_same_but_for_case("proxy-authenticate"@, name);
    law_same_but_for_case("location"@, name);
    law_same_but_for_case("set-cookie"@, name);
    law_same_but_for_case("cache-control"@, name);
    lemma_relayed_values("www-authenticate"@, values_of(headers, "www-authenticate"@), name);
    lemma_relayed_values("proxy-authenticate"@, values_of(headers, "proxy-authenticate"@), name);
    lemma_relayed_values("location"@, values_of(headers, "location"@), name);
    lemma_relayed_values("set-cookie"@, values_of(headers, "set-cookie"@), name);
    lemma_relayed_values("cache-control"@, values_of(headers, "cache-control"@), name);
    let any = HeaderView { name, value: Seq::empty() };
    law_values_keep_their_order(a, b, any, name);
    law_values_keep_their_order(a + b, c, any, name);
    law_values_keep_their_order(a + b + c, d, any, name);
    law_values_keep_their_order(a + b + c + d, e, any, name);
    assert(values_of(passed_through(headers), name) =~= values_of(headers, name).filter(
        |v: Seq<u8>| is_field_value(v),
    ));
}

/// What the endpoint tells the user is relayed with its refusal: under each of the five names stand,
/// in order, exactly the valid values that its answer has under that name, and no other field comes
/// through.
pub proof fn law_a_refusal_is_relayed(
    user_header: Seq<char>,
    status: u16,
    headers: Seq<HeaderView>,
    name: Seq<char>,
)
    requires
        !(200 <= status < 300),
        lets_the_user_act(name),
    ensures
        verdict(user_header, ReplyView::Answered { status, headers }) matches DecisionView::Deny {
            status: relayed_status,
            headers: fields,
        } && {
            &&& 100 <= status < 1000 ==> relayed_status == status
            &&& !(100 <= status < 1000) ==> relayed_status == 500
            &&& values_of(fields, name) == values_of(headers, name).filter(
                |v: Seq<u8>| is_field_value(v),
            )
            &&& forall|i: int|
                0 <= i < fields.len() ==> lets_the_user_act((#[trigger] fields[i]).name)
        },
{
    lemma_passed_through(headers, name);
    let a = relayed("www-authenticate"@, headers);
    let b = relayed("proxy-authenticate"@, headers);
    let c = relayed("location"@, headers);
    let d = relayed("set-cookie"@, headers);
    let e = relayed("cache-control"@, headers);
    lemma_relayed_values("www-authenticate"@, values_of(headers, "www-authenticate"@), name);
    lemma_relayed_values("proxy-authenticate"@, values_of(headers, "proxy-authenticate"@), name);
    lemma_relayed_values("location"@, values_of(headers, "location"@), name);
    lemma_relayed_values("set-cookie"@, values_of(headers, "set-cookie"@), name);
    lemma_relayed_values("cache-control"@, values_of(headers, "cache-control"@), name);
    let fields = passed_through(headers);
    assert forall|i: int| 0 <= i < fields.len() implies lets_the_user_act(
        (#[trigger] fields[i]).name,
    ) by {
        let i1 = i - a.len();
        let i2 = i1 - b.len();
        let i3 = i2 - c.len();
        let i4 = i3 - d.len();
        if i < a.len() {
            assert(fields[i] == a[i]);
        } else if i1 < b.len() {
            assert(fields[i] == b[i1]);
        } else if i2 < c.len() {
            assert(fields[i] == c[i2]);
        } else if i3 < d.len() {
            assert(fields[i] == d[i3]);
        } else {
            assert(fields[i] == e[i4]);
        }
    }
}

/// A request that the endpoint admits goes on as the user that it names in the configured header, and
/// without a user if it names none there.
pub proof fn law_the_endpoint_names_the_user(
    user_header: Seq<char>,
    status: u16,
    headers: Seq<HeaderView>,
)
    requires
        200 <= status < 300,
    ensures
        verdict(user_header, ReplyView::Answered { status, headers }) == (DecisionView::Allow {
            user: match first_text(headers, user_header) {
                Some(user) if user.len() > 0 => Some(user),
                _ => None,
            },
        }),
{
}

/// The values that are sent under a name, in order.
pub open spec fn sent(list: Seq<(Seq<char>, Seq<char>)>, name: Seq<char>) -> Seq<Seq<char>>
    decreases list.len(),
{
    if list.len() == 0 {
        Seq::empty()
    } else if list.last().0 == name {
        sent(list.drop_last(), name).push(list.last().1)
    } else {
        sent(list.drop_last(), name)
    }
}

/// What is sent under a name in a list and one behind it.
proof fn lemma_sent_joined(
    a: Seq<(Seq<char>, Seq<char>)>,
    b: Seq<(Seq<char>, Seq<char>)>,
    name: Seq<char>,
)
    ensures
        sent(a + b, name) == sent(a, name) + sent(b, name),
    decreases b.len(),
{
    if b.len() > 0 {
        lemma_sent_joined(a, b.drop_last(), name);
        assert((a + b).drop_last() =~= a + b.drop_last());
        assert((a + b).last() == b.last());
        assert(sent(a + b, name) =~= sent(a, name) + sent(b, name));
    } else {
        assert(a + b =~= a);
        assert(sent(a + b, name) =~= sent(a, name) + sent(b, name));
    }
}

/// Nothing is sent under a name that does not occur.
proof fn lemma_not_sent(list: Seq<(Seq<char>, Seq<char>)>, name: Seq<char>)
    requires
        forall|i: int| 0 <= i < list.len() ==> (#[trigger] list[i]).0 != name,
    ensures
        sent(list, name).len() == 0,
    decreases list.len(),
{
    if list.len() > 0 {
        assert(list.last() == list[list.len() - 1]);
        let head = list.drop_last();
        assert forall|i: int| 0 <= i < head.len() implies (#[trigger] head[i]).0 != name by {
            assert(head[i] == list[i]);
        }
        lemma_not_sent(head, name);
    }
}

/// An optional value as a list.
pub open spec fn at_most_one(value: Option<Seq<char>>) -> Seq<Seq<char>> {
    match value {
        Some(value) => seq![value],
        None => Seq::empty(),
    }
}

/// What is sent under the names that describe a request.
#[verifier::rlimit(40)]
proof fn lemma_metadata_sent(ctx: RequestContextView, name: Seq<char>)
    ensures
        ({
            let m = metadata(ctx);
            &&& name == "x-original-method"@ || name == "x-forwarded-method"@ ==> sent(m, name)
                == seq![ctx.method]
            &&& name == "x-original-uri"@ || name == "x-forwarded-uri"@ ==> sent(m, name)
                == seq![ctx.uri]
            &&& name == "x-forwarded-proto"@ ==> sent(m, name) == seq![
                if ctx.tls {
                    "https"@
                } else {
                    "http"@
                },
            ]
            &&& name == "x-forwarded-host"@ ==> sent(m, name) == at_most_one(
                first_text(ctx.headers, "host"@),
            )
            &&& name == "x-forwarded-for"@ ==> sent(m, name) == at_most_one(ctx.peer)
            &&& !is_synthesized(name) ==> sent(m, name).len() == 0
        }),
{
    reveal_with_fuel(sent, 6);
    reveal_strlit("x-original-method");
    reveal_strlit("x-original-uri");
    reveal_strlit("x-forwarded-method");
    reveal_strlit("x-forwarded-uri");
    reveal_strlit("x-forwarded-proto");
    reveal_strlit("x-forwarded-host");
    reveal_strlit("x-forwarded-for");
    assert("x-original-method"@.len() == 17);
    assert("x-forwarded-method"@.len() == 18);
    assert("x-original-uri"@.len() == 14);
    assert("x-forwarded-uri"@.len() == 15 && "x-forwarded-uri"@[12] == 'u');
    assert("x-forwarded-for"@.len() == 15 && "x-forwarded-for"@[12] == 'f');
    assert("x-forwarded-proto"@.len() == 17 && "x-forwarded-proto"@[2] == 'f');
    assert("x-original-method"@[2] == 'o');
    assert("x-forwarded-host"@.len() == 16);
    let scheme = if ctx.tls {
        "https"@
    } else {
        "http"@
    };
    let p1 = seq![("x-original-method"@, ctx.method)];
    let p2 = p1.push(("x-original-uri"@, ctx.uri));
    let p3 = p2.push(("x-forwarded-method"@, ctx.method));
    let p4 = p3.push(("x-forwarded-uri"@, ctx.uri));
    let p5 = p4.push(("x-forwarded-proto"@, scheme));
    assert(p1.drop_last() =~= Seq::empty());
    assert(p2.drop_last() =~= p1);
    assert(p3.drop_last() =~= p2);
    assert(p4.drop_last() =~= p3);
    assert(p5.drop_last() =~= p4);
    let host = optional_header("x-forwarded-host"@, first_text(ctx.headers, "host"@));
    let address = optional_header("x-forwarded-for"@, ctx.peer);
    assert(metadata(ctx) =~= p5 + host + address);
    lemma_sent_joined(p5, host, name);
    lemma_sent_joined(p5 + host, address, name);
    if host.len() > 0 {
        assert(host.drop_last() =~= Seq::empty());
    }
    if address.len() > 0 {
        assert(address.drop_last() =~= Seq::empty());
    }
    let first = Seq::<Seq<char>>::empty();
    assert(first.push(ctx.method) =~= seq![ctx.method]);
    assert(first.push(ctx.uri) =~= seq![ctx.uri]);
    assert(first.push(scheme) =~= seq![scheme]);
    assert(sent(metadata(ctx), name) =~= sent(p5, name) + sent(host, name) + sent(address, name));
}

/// The subrequest says what the request is: its method and its URI, each under both names, whether it
/// came over TLS, the host that it names and the address that it came from. Each of these is said once,
/// or not at all where there is nothing to say, whatever headers are copied and whatever the client
/// sent under those names.
pub proof fn law_the_subrequest_describes_the_request(
    cfg: ForwardAuthConfigView,
    ctx: RequestContextView,
)
    ensures
        ({
            let headers = subrequest_for(cfg, ctx).headers;
            &&& sent(headers, "x-original-method"@) == seq![ctx.method]
            &&& sent(headers, "x-forwarded-method"@) == seq![ctx.method]
            &&& sent(headers, "x-original-uri"@) == seq![ctx.uri]
            &&& sent(headers, "x-forwarded-uri"@) == seq![ctx.uri]
            &&& ctx.tls ==> sent(headers, "x-forwarded-proto"@) == seq!["https"@]
            &&& !ctx.tls ==> sent(headers, "x-forwarded-proto"@) == seq!["http"@]
            &&& sent(headers, "x-forwarded-host"@) == at_most_one(first_text(ctx.headers, "host"@))
            &&& sent(headers, "x-forwarded-for"@) == at_most_one(ctx.peer)
        }),
{
    lemma_described(cfg, ctx, "x-original-method"@);
    lemma_described(cfg, ctx, "x-forwarded-method"@);
    lemma_described(cfg, ctx, "x-original-uri"@);
    lemma_described(cfg, ctx, "x-forwarded-uri"@);
    lemma_described(cfg, ctx, "x-forwarded-proto"@);
    lemma_described(cfg, ctx, "x-forwarded-host"@);
    lemma_described(cfg, ctx, "x-forwarded-for"@);
    lemma_metadata_sent(ctx, "x-original-method"@);
    lemma_metadata_sent(ctx, "x-forwarded-method"@);
    lemma_metadata_sent(ctx, "x-original-uri"@);
    lemma_metadata_sent(ctx, "x-forwarded-uri"@);
    lemma_metadata_sent(ctx, "x-forwarded-proto"@);
    lemma_metadata_sent(ctx, "x-forwarded-host"@);
    lemma_metadata_sent(ctx, "x-forwarded-for"@);
}

/// Under a name that describes the request, only the description is sent.
proof fn lemma_described(cfg: ForwardAuthConfigView, ctx: RequestContextView, name: Seq<char>)
    requires
        is_synthesized(name),
    ensures
        sent(subrequest_for(cfg, ctx).headers, name) == sent(metadata(ctx), name),
{
    let names = forwarded_header_names(cfg.request_headers);
    let copied = copied_headers(names, ctx.headers);
    lemma_copied_names(names, ctx.headers);
    assert forall|i: int| 0 <= i < copied.len() implies (#[trigger] copied[i]).0 != name by {}
    lemma_not_sent(copied, name);
    lemma_sent_joined(copied, metadata(ctx), name);
    assert(sent(copied, name) + sent(metadata(ctx), name) =~= sent(metadata(ctx), name));
}

/// The texts of those values that can be shown, in order.
pub open spec fn shown(values: Seq<Seq<u8>>) -> Seq<Seq<char>> {
    values.filter(|v: Seq<u8>| value_text(v) is Some).map_values(|v: Seq<u8>| value_text(v)->0)
}

/// What is copied of a header is sent under its name.
proof fn lemma_shown_sent(name: Seq<char>, values: Seq<Seq<u8>>)
    ensures
        sent(shown_values(name, values), name) == shown(values),
    decreases values.len(),
{
    reveal(Seq::filter);
    if values.len() > 0 {
        lemma_shown_sent(name, values.drop_last());
        let before = shown_values(name, values.drop_last());
        match value_text(values.last()) {
            Some(text) => {
                assert(before.push((name, text)).drop_last() =~= before);
                assert(shown(values) =~= shown(values.drop_last()).push(text));
            },
            None => {
                assert(shown(values) =~= shown(values.drop_last()));
            },
        }
    } else {
        assert(shown(values) =~= Seq::empty());
    }
}

/// What is copied under a name that is listed once, or not at all.
proof fn lemma_copied_sent(names: Seq<Seq<char>>, headers: Seq<HeaderView>, name: Seq<char>, k: int)
    requires
        0 <= k <= names.len(),
        k < names.len() ==> names[k] == name,
        forall|j: int| 0 <= j < names.len() && j != k ==> #[trigger] names[j] != name,
        !is_synthesized(name),
    ensures
        k < names.len() ==> sent(copied_headers(names, headers), name) == shown(
            values_of(headers, name),
        ),
        k == names.len() ==> sent(copied_headers(names, headers), name).len() == 0,
    decreases names.len(),
{
    if names.len() > 0 {
        let before = names.drop_last();
        let last = names.last();
        assert(last == names[names.len() - 1]);
        let values = values_of(headers, last);
        let added = if is_synthesized(last) {
            Seq::empty()
        } else {
            shown_values(last, values)
        };
        assert(copied_headers(names, headers) =~= copied_headers(before, headers) + added);
        lemma_sent_joined(copied_headers(before, headers), added, name);
        assert forall|j: int| 0 <= j < before.len() && j != k implies #[trigger] before[j] != name by {
            assert(before[j] == names[j]);
        }
        if k == names.len() - 1 {
            lemma_copied_sent(before, headers, name, k);
            lemma_shown_sent(name, values);
            assert(sent(copied_headers(names, headers), name) =~= shown(values_of(headers, name)));
        } else {
            if k < before.len() {
                assert(before[k] == names[k]);
                lemma_copied_sent(before, headers, name, k);
            } else {
                lemma_copied_sent(before, headers, name, before.len() as int);
            }
            lemma_shown_names(last, values);
            assert forall|i: int| 0 <= i < added.len() implies (#[trigger] added[i]).0 != name by {}
            lemma_not_sent(added, name);
            assert(sent(copied_headers(names, headers), name) =~= sent(
                copied_headers(before, headers),
                name,
            ));
        }
    }
}

/// Each header that is to be copied goes into the subrequest with all of its values that can be shown,
/// in order; a header that is not to be copied, and does not describe the request, does not.
pub proof fn law_the_configured_headers_are_copied(
    cfg: ForwardAuthConfigView,
    ctx: RequestContextView,
    name: Seq<char>,
    k: int,
)
    requires
        ({
            let names = forwarded_header_names(cfg.request_headers);
            &&& 0 <= k <= names.len()
            &&& k < names.len() ==> names[k] == name
            &&& forall|j: int| 0 <= j < names.len() && j != k ==> #[trigger] names[j] != name
        }),
        !is_synthesized(name),
    ensures
        k < forwarded_header_names(cfg.request_headers).len() ==> sent(
            subrequest_for(cfg, ctx).headers,
            name,
        ) == shown(values_of(ctx.headers, name)),
        k == forwarded_header_names(cfg.request_headers).len() ==> sent(
            subrequest_for(cfg, ctx).headers,
            name,
        ).len() == 0,
{
    let names = forwarded_header_names(cfg.request_headers);
    lemma_copied_sent(names, ctx.headers, name, k);
    lemma_sent_joined(copied_headers(names, ctx.headers), metadata(ctx), name);
    lemma_metadata_sent(ctx, name);
    assert(sent(subrequest_for(cfg, ctx).headers, name) =~= sent(
        copied_headers(names, ctx.headers),
        name,
    ));
}

/// The headers to copy are the configured ones, in lower case and in their order; where none is
/// configured they are those that a login usually lives in.
pub proof fn law_the_headers_to_copy(configured: Seq<Seq<char>>, i: int)
    ensures
        configured.len() > 0 ==> forwarded_header_names(configured).len() == configured.len(),
        0 <= i < configured.len() ==> forwarded_header_names(configured)[i] == lower(configured[i]),
        configured.len() == 0 ==> forwarded_header_names(configured) == seq![
            "cookie"@,
            "authorization"@,
        ],
{
}

/// The subrequest goes to the configured URL with the configured method, or with `GET` where that is no
/// method.
pub proof fn law_the_subrequest_goes_to_the_endpoint(
    cfg: ForwardAuthConfigView,
    ctx: RequestContextView,
)
    ensures
        subrequest_for(cfg, ctx).url == cfg.url,
        is_method(encode_utf8(cfg.method)) ==> subrequest_for(cfg, ctx).method == cfg.method,
        !is_method(encode_utf8(cfg.method)) ==> subrequest_for(cfg, ctx).method == "GET"@,
{
}

/// A decision about one request says nothing about another one: what was kept under other keys stays
/// as it was, whether the endpoint is asked or has answered.
pub proof fn law_decisions_are_kept_apart(
    cfg: ForwardAuthConfigView,
    before: Map<Seq<char>, Option<Seq<char>>>,
    ctx: RequestContextView,
    reply: ReplyView,
    key: Seq<char>,
)
    requires
        key != request_key(cfg, ctx),
    ensures
        ({
            let asked = after_ask(cfg, before, ctx);
            let answered = after_reply(cfg, before, ctx, reply);
            &&& asked.dom().contains(key) == before.dom().contains(key)
            &&& answered.dom().contains(key) == before.dom().contains(key)
            &&& before.dom().contains(key) ==> asked[key] == before[key] && answered[key]
                == before[key]
        }),
        !after_ask(cfg, before, ctx).dom().contains(request_key(cfg, ctx)),
{
}

/// Seven names describe the request, and no other name does.
pub proof fn law_seven_names_describe_the_request(name: Seq<char>)
    ensures
        is_synthesized(name) <==> {
            ||| name == "x-original-"@ + "method"@ || name == "x-original-"@ + "uri"@
            ||| name == "x-forwarded-"@ + "method"@ || name == "x-forwarded-"@ + "uri"@
            ||| name == "x-forwarded-"@ + "proto"@ || name == "x-forwarded-"@ + "host"@
            ||| name == "x-forwarded-"@ + "for"@
        },
{
    reveal_strlit("x-original-");
    reveal_strlit("x-forwarded-");
    reveal_strlit("method");
    reveal_strlit("uri");
    reveal_strlit("proto");
    reveal_strlit("host");
    reveal_strlit("for");
    reveal_strlit("x-original-method");
    reveal_strlit("x-original-uri");
    reveal_strlit("x-forwarded-method");
    reveal_strlit("x-forwarded-uri");
    reveal_strlit("x-forwarded-proto");
    reveal_strlit("x-forwarded-host");
    reveal_strlit("x-forwarded-for");
    assert("x-original-"@ + "method"@ =~= "x-original-method"@);
    assert("x-original-"@ + "uri"@ =~= "x-original-uri"@);
    assert("x-forwarded-"@ + "method"@ =~= "x-forwarded-method"@);
    assert("x-forwarded-"@ + "uri"@ =~= "x-forwarded-uri"@);
    assert("x-forwarded-"@ + "proto"@ =~= "x-forwarded-proto"@);
    assert("x-forwarded-"@ + "host"@ =~= "x-forwarded-host"@);
    assert("x-forwarded-"@ + "for"@ =~= "x-forwarded-for"@);
}

/// Two requests about which the endpoint would be asked the same share their kept decision.
pub proof fn law_equal_questions_share_a_decision(
    cfg: ForwardAuthConfigView,
    ctx: RequestContextView,
    other: RequestContextView,
)
    requires
        subrequest_for(cfg, ctx) == subrequest_for(cfg, other),
    ensures
        request_key(cfg, ctx) == request_key(cfg, other),
{
    law_the_subrequest_describes_the_request(cfg, ctx);
    law_the_subrequest_describes_the_request(cfg, other);
    assert(seq![ctx.uri][0] == seq![other.uri][0]);
}

/// A request that is let in goes on as the user it was let in as, and one that is refused as nobody.
pub proof fn law_the_user_is_who_was_let_in(
    user: Option<Seq<char>>,
    status: u16,
    headers: Seq<HeaderView>,
)
    ensures
        user_of(DecisionView::Allow { user }) == user,
        user_of(DecisionView::Deny { status, headers }) is None,
{
}

/// Only forward authentication keeps decisions: in every other way of authentication a request is decided
/// on its own, whatever was kept.
pub proof fn law_other_ways_keep_nothing(
    mode: AuthModeView,
    before: Map<Seq<char>, Option<Seq<char>>>,
    ctx: RequestContextView,
    step: StepView,
    cached: Option<Option<Seq<char>>>,
)
    requires
        !(mode is Forward),
        may_follow(mode, before, ctx, step),
    ensures
        step == next_step(mode, ctx, cached),
        step is Done,
{
}

/// Decisions are kept exactly as long as forward authentication is told to, and by nothing else.
pub proof fn law_decisions_are_kept_as_long_as_told(mode: AuthModeView)
    ensures
        mode matches AuthModeView::Forward(cfg) ==> window_for(mode) == cfg.cache_ttl,
        !(mode is Forward) ==> window_for(mode) == 0,
{
}

/// A user name that fits into twenty-nine bytes is kept, and a longer one is cut down to as much of it as
/// fits.
pub proof fn law_user_names_are_bounded(user: Seq<char>)
    ensures
        encode_utf8(user).len() <= 29 ==> bounded_user(user) == user,
        bounded_user(user).is_prefix_of(user),
        encode_utf8(bounded_user(user)).len() <= 29,
        encode_utf8(user).len() > 29 ==> encode_utf8(
            user.take(bounded_user(user).len() as int + 1),
        ).len() > 29,
{
    crate::cli::values::law_truncation_keeps_what_fits(user, 29);
}

} // verus!
