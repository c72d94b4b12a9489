//! Authentication of requests.
//!
//! There are three ways: basic authentication against a fixed credential, a header that a trusted
//! reverse proxy sets, and forward authentication, where an outside endpoint is asked about every
//! request.

pub mod forward;
pub mod laws;

use crate::cli::config::{AuthMode, AuthModeView};
use crate::cli::values::{truncate, truncated};
use crate::headers::{Header, HeaderView, first_text, header, header_text, headers_view};
use crate::text::{
    chars_of, find_char, opt_text, same_ignoring_case, same_text_ignoring_case, split_once,
    string_of,
};
use self::forward::{
    Reply, Subrequest, SubrequestView, after_ask, after_reply, decision_key, decision_to_keep, judge,
    request_key, subrequest, subrequest_for, verdict,
};
use vstd::prelude::*;
use vstd::utf8::encode_utf8;

verus! {

/// The most bytes of a user name that a fixed buffer of the child's environment holds.
pub const MAX_USER: usize = 29;

/// Seconds to wait for the endpoint of forward authentication.
pub const FORWARD_AUTH_TIMEOUT: u64 = 10;

/// How many decisions are kept at most.
pub const CACHE_CAPACITY: u64 = 1024;

/// The most seconds for which decisions can be kept: a thousand years of 365 days.
pub const MAX_CACHE_TTL: u64 = 31_536_000_000;

/// What was decided about a request.
#[derive(Debug, Clone)]
pub enum Decision {
    /// It may go on. The user becomes `TTYD_USER` in the child process.
    Allow { user: Option<String> },
    /// It is refused, with this status and these header fields.
    Deny { status: u16, headers: Vec<Header> },
}

/// What a decision holds.
#[verifier::ext_equal]
pub enum DecisionView {
    Allow { user: Option<Seq<char>> },
    Deny { status: u16, headers: Seq<HeaderView> },
}

impl View for Decision {
    type V = DecisionView;

    open spec fn view(&self) -> DecisionView {
        match self {
            Decision::Allow { user } => DecisionView::Allow { user: opt_text(*user) },
            Decision::Deny { status, headers } => DecisionView::Deny {
                status: *status,
                headers: headers_view(headers@),
            },
        }
    }
}

/// A refusal with one header field.
pub open spec fn refusal(status: u16, name: Seq<char>, value: Seq<char>) -> DecisionView {
    DecisionView::Deny {
        status,
        headers: seq![HeaderView { name, value: encode_utf8(value) }],
    }
}

/// The user, if the request may go on and one is known.
pub open spec fn user_of(decision: DecisionView) -> Option<Seq<char>> {
    match decision {
        DecisionView::Allow { user } => user,
        DecisionView::Deny { .. } => None,
    }
}

impl Decision {
    /// Whether the request may go on.
    pub fn is_allowed(&self) -> (r: bool)
        ensures
            r == (self@ is Allow),
    {
        match self {
            Decision::Allow { .. } => true,
            Decision::Deny { .. } => false,
        }
    }

    /// The user, if the request may go on and one is known.
    pub fn user(&self) -> (r: Option<&str>)
        ensures
            match r {
                Some(name) => user_of(self@) == Some(name@),
                None => user_of(self@) is None,
            },
    {
        match self {
            Decision::Allow { user: Some(name) } => Some(name.as_str()),
            _ => None,
        }
    }

    /// A refusal with one header field.
    fn deny(status: u16, name: &str, value: &str) -> (r: Decision)
        ensures
            r@ == refusal(status, name@, value@),
    {
        let mut headers: Vec<Header> = Vec::new();
        headers.push(header(name, value));
        assert(headers_view(headers@) =~= seq![
            HeaderView { name: name@, value: encode_utf8(value@) },
        ]);
        Decision::Deny { status, headers }
    }
}

/// What is known of a request.
#[derive(Debug, Clone)]
pub struct RequestContext {
    pub method: String,
    /// The path and the query, as they stood in the request line.
    pub uri: String,
    pub headers: Vec<Header>,
    /// The address that the request came from, unless it came over a UNIX domain socket.
    pub peer: Option<String>,
    pub tls: bool,
}

/// What the knowledge of a request holds.
#[verifier::ext_equal]
pub struct RequestContextView {
    pub method: Seq<char>,
    pub uri: Seq<char>,
    pub headers: Seq<HeaderView>,
    pub peer: Option<Seq<char>>,
    pub tls: bool,
}

impl View for RequestContext {
    type V = RequestContextView;

    open spec fn view(&self) -> RequestContextView {
        RequestContextView {
            method: self.method@,
            uri: self.uri@,
            headers: headers_view(self.headers@),
            peer: opt_text(self.peer),
            tls: self.tls,
        }
    }
}

/// `subtle`'s `ct_eq` on byte slices: whether they are the same, in a time that does not depend on
/// where they differ.
#[verifier::external_body]
fn same_secret_bytes(a: &[u8], b: &[u8]) -> (r: bool)
    ensures
        r == (a@ == b@),
{
    subtle::ConstantTimeEq::ct_eq(a, b).into()
}

/// Whether two secrets are the same.
pub fn same_secret(a: &str, b: &str) -> (r: bool)
    ensures
        r == (a@ == b@),
{
    proof {
        vstd::utf8::encode_utf8_decode_utf8(a@);
        vstd::utf8::encode_utf8_decode_utf8(b@);
    }
    same_secret_bytes(a.as_bytes(), b.as_bytes())
}

/// The credential that a request presents: what follows the scheme `Basic` in its `Authorization`.
pub open spec fn presented_credential(headers: Seq<HeaderView>) -> Option<Seq<char>> {
    match first_text(headers, "authorization"@) {
        Some(text) => match split_once(text, ' ') {
            Some((scheme, rest)) => if same_ignoring_case(scheme, "basic"@) {
                Some(rest)
            } else {
                None
            },
            None => None,
        },
        None => None,
    }
}

/// What basic authentication decides.
pub open spec fn basic_decision(headers: Seq<HeaderView>, credential: Seq<char>) -> DecisionView {
    if presented_credential(headers) == Some(credential) {
        DecisionView::Allow { user: None }
    } else {
        refusal(401, "www-authenticate"@, "Basic realm=\"ttyd\""@)
    }
}

/// Basic authentication: the credential behind `Authorization: Basic` has to be the configured
/// one. The scheme may be written in any case.
pub fn check_basic(headers: &[Header], credential: &str) -> (r: Decision)
    ensures
        r@ == basic_decision(headers_view(headers@), credential@),
{
    if let Some(text) = header_text(headers, "authorization") {
        let chars = chars_of(text.as_str());
        let k: usize = find_char(&chars, ' ');
        if k < chars.len() {
            let head = vstd::slice::slice_subrange(chars.as_slice(), 0, k);
            assert(head@ =~= text@.take(k as int));
            let tail = vstd::slice::slice_subrange(chars.as_slice(), k + 1, chars.len());
            assert(tail@ =~= text@.skip(k + 1));
            let scheme = string_of(head);
            let presented = string_of(tail);
            if same_text_ignoring_case(scheme.as_str(), "basic") && same_secret(
                presented.as_str(),
                credential,
            ) {
                return Decision::Allow { user: None };
            }
        }
    }
    Decision::deny(401, "www-authenticate", "Basic realm=\"ttyd\"")
}

/// What a trusted header decides.
pub open spec fn trusted_decision(headers: Seq<HeaderView>, name: Seq<char>) -> DecisionView {
    match first_text(headers, name) {
        Some(user) => if user.len() > 0 {
            DecisionView::Allow { user: Some(user) }
        } else {
            refusal(407, "proxy-authenticate"@, "Basic realm=\"ttyd\""@)
        },
        None => refusal(407, "proxy-authenticate"@, "Basic realm=\"ttyd\""@),
    }
}

/// A trusted header: the reverse proxy has to name a user in it.
pub fn check_trusted_header(headers: &[Header], name: &str) -> (r: Decision)
    ensures
        r@ == trusted_decision(headers_view(headers@), name@),
{
    match header_text(headers, name) {
        Some(user) => {
            if user.as_str().is_empty() {
                Decision::deny(407, "proxy-authenticate", "Basic realm=\"ttyd\"")
            } else {
                Decision::Allow { user: Some(user) }
            }
        },
        None => Decision::deny(407, "proxy-authenticate", "Basic realm=\"ttyd\""),
    }
}

/// A user name cut down to what a fixed buffer of the child's environment holds.
pub open spec fn bounded_user(user: Seq<char>) -> Seq<char> {
    truncated(user, MAX_USER as int)
}

/// A user name cut down to what a fixed buffer of the child's environment holds.
pub fn truncate_user(user: &str) -> (r: String)
    ensures
        r@ == bounded_user(user@),
{
    truncate(user, MAX_USER)
}

/// A cache of `moka`.
#[verifier::external_type_specification]
#[verifier::external_body]
#[verifier::reject_recursive_types(K)]
#[verifier::reject_recursive_types(V)]
#[verifier::reject_recursive_types(S)]
pub struct ExCache<K, V, S>(moka::sync::Cache<K, V, S>);

/// What a cache may still hold: for each key the user that was put in last, unless that was found
/// to be gone. A cache may have dropped any of it since.
pub uninterp spec fn may_hold(cache: moka::sync::Cache<String, Option<String>>) -> Map<
    Seq<char>,
    Option<Seq<char>>,
>;

/// The time to live that a cache was made with, in seconds: it gives nothing back that was put in
/// longer ago.
pub uninterp spec fn lifetime(cache: moka::sync::Cache<String, Option<String>>) -> u64;

/// The capacity that a cache was made with, in entries: it evicts some of them to come down to it.
pub uninterp spec fn capacity(cache: moka::sync::Cache<String, Option<String>>) -> u64;

/// `moka`'s cache builder: a cache with this capacity and this time to live, in seconds, that
/// nothing was put into. Building with a longer time to live than a thousand years panics, so that
/// is left out. When the cache drops what is put in depends on the clock and on what it evicts, so
/// nothing is said about that beyond the two limits.
#[verifier::external_body]
fn new_cache(max_capacity: u64, ttl: u64) -> (r: moka::sync::Cache<String, Option<String>>)
    requires
        ttl <= MAX_CACHE_TTL,
    ensures
        may_hold(r).dom() == Set::<Seq<char>>::empty(),
        lifetime(r) == ttl,
        capacity(r) == max_capacity,
{
    let ttl = std::time::Duration::from_secs(ttl);
    moka::sync::Cache::builder().max_capacity(max_capacity).time_to_live(ttl).build()
}

/// `moka`'s `get`: nothing, or a copy of what was put in last under the key. Whether it is still
/// there depends on the time and on what was evicted, so that is left open. What has expired or was
/// evicted does not come back: a key under which nothing was found is free until something is put
/// in again. The limits of the cache stay as they are.
#[verifier::external_body]
fn look_up(cache: &mut moka::sync::Cache<String, Option<String>>, key: &String) -> (r: Option<
    Option<String>,
>)
    ensures
        match r {
            Some(user) => {
                &&& may_hold(*old(cache)).dom().contains(key@)
                &&& may_hold(*old(cache))[key@] == opt_text(user)
                &&& may_hold(*final(cache)) == may_hold(*old(cache))
            },
            None => may_hold(*final(cache)) == may_hold(*old(cache)).remove(key@),
        },
        lifetime(*final(cache)) == lifetime(*old(cache)),
        capacity(*final(cache)) == capacity(*old(cache)),
{
    cache.get(key)
}

/// `moka`'s `insert`: what was put in under the key before is replaced. The limits of the cache stay
/// as they are.
#[verifier::external_body]
fn keep(cache: &mut moka::sync::Cache<String, Option<String>>, key: String, user: Option<String>)
    ensures
        may_hold(*final(cache)) == may_hold(*old(cache)).insert(key@, opt_text(user)),
        lifetime(*final(cache)) == lifetime(*old(cache)),
        capacity(*final(cache)) == capacity(*old(cache)),
{
    cache.insert(key, user);
}

/// What is to be done about a request.
#[derive(Debug, Clone)]
pub enum Step {
    /// It is decided.
    Done(Decision),
    /// The endpoint of forward authentication is to be asked.
    Ask(Subrequest),
}

/// What a step holds.
#[verifier::ext_equal]
pub enum StepView {
    Done(DecisionView),
    Ask(SubrequestView),
}

impl View for Step {
    type V = StepView;

    open spec fn view(&self) -> StepView {
        match self {
            Step::Done(decision) => StepView::Done(decision@),
            Step::Ask(subrequest) => StepView::Ask(subrequest@),
        }
    }
}

/// What is to be done about a request, given what was kept of an earlier decision.
pub open spec fn next_step(
    mode: AuthModeView,
    ctx: RequestContextView,
    cached: Option<Option<Seq<char>>>,
) -> StepView {
    match mode {
        AuthModeView::Disabled => StepView::Done(DecisionView::Allow { user: None }),
        AuthModeView::Basic { credential } => StepView::Done(
            basic_decision(ctx.headers, credential),
        ),
        AuthModeView::TrustedHeader { header } => StepView::Done(
            trusted_decision(ctx.headers, header),
        ),
        AuthModeView::Forward(cfg) => match cached {
            Some(user) => StepView::Done(DecisionView::Allow { user }),
            None => StepView::Ask(subrequest_for(cfg, ctx)),
        },
    }
}

/// What is to be done about a request, given what was kept of an earlier decision.
pub fn decide(mode: &AuthMode, ctx: &RequestContext, cached: Option<Option<String>>) -> (r: Step)
    ensures
        r@ == next_step(
            mode@,
            ctx@,
            match cached {
                Some(user) => Some(opt_text(user)),
                None => None,
            },
        ),
{
    match mode {
        AuthMode::Disabled => Step::Done(Decision::Allow { user: None }),
        AuthMode::Basic { credential } => Step::Done(
            check_basic(&ctx.headers, credential.as_str()),
        ),
        AuthMode::TrustedHeader { header } => Step::Done(
            check_trusted_header(&ctx.headers, header.as_str()),
        ),
        AuthMode::Forward(cfg) => match cached {
            Some(user) => Step::Done(Decision::Allow { user }),
            None => Step::Ask(subrequest(cfg, ctx)),
        },
    }
}

/// A step that may follow for a request when some decisions were kept: the one without a kept
/// decision, or the one with the decision that was kept under the request's key.
pub open spec fn may_follow(
    mode: AuthModeView,
    kept: Map<Seq<char>, Option<Seq<char>>>,
    ctx: RequestContextView,
    step: StepView,
) -> bool {
    ||| step == next_step(mode, ctx, None)
    ||| match mode {
        AuthModeView::Forward(cfg) => kept.dom().contains(request_key(cfg, ctx)) && step
            == next_step(mode, ctx, Some(kept[request_key(cfg, ctx)])),
        _ => false,
    }
}

/// The seconds for which a way of authentication keeps its decisions; none are kept for zero seconds.
pub open spec fn window_for(mode: AuthModeView) -> u64 {
    match mode {
        AuthModeView::Forward(cfg) => cfg.cache_ttl,
        _ => 0,
    }
}

/// Authentication in one of its ways, with the decisions it keeps.
pub struct Authenticator {
    mode: AuthMode,
    cache: Option<moka::sync::Cache<String, Option<String>>>,
}

impl Authenticator {
    /// The way of authentication.
    pub closed spec fn mode(&self) -> AuthModeView {
        self.mode@
    }

    /// Whether decisions are kept.
    pub closed spec fn keeps_decisions(&self) -> bool {
        self.cache is Some
    }

    /// The decisions that were kept, each under its key, but for those that were found to be gone.
    /// Any of them may have been dropped since.
    pub closed spec fn kept_decisions(&self) -> Map<Seq<char>, Option<Seq<char>>> {
        match self.cache {
            Some(cache) => may_hold(cache),
            None => Map::empty(),
        }
    }

    /// The seconds for which a decision is kept at most.
    pub closed spec fn window(&self) -> u64 {
        match self.cache {
            Some(cache) => lifetime(cache),
            None => 0,
        }
    }

    /// The number of decisions that there is room for.
    pub closed spec fn room(&self) -> u64 {
        match self.cache {
            Some(cache) => capacity(cache),
            None => 0,
        }
    }

    /// Authentication in the given way. Decisions are kept only by forward authentication with a
    /// time to live, and for no longer than that.
    pub fn new(mode: AuthMode) -> (r: Authenticator)
        requires
            mode@ matches AuthModeView::Forward(cfg) ==> cfg.cache_ttl <= MAX_CACHE_TTL,
        ensures
            r.mode() == mode@,
            r.keeps_decisions() == (window_for(mode@) > 0),
            r.kept_decisions().dom() == Set::<Seq<char>>::empty(),
            r.window() == window_for(mode@),
            r.room() == if r.keeps_decisions() {
                CACHE_CAPACITY
            } else {
                0
            },
    {
        let cache = match &mode {
            AuthMode::Forward(cfg) => if cfg.cache_ttl > 0 {
                Some(new_cache(CACHE_CAPACITY, cfg.cache_ttl))
            } else {
                None
            },
            _ => None,
        };
        Authenticator { mode, cache }
    }

    /// Whether requests are authenticated at all.
    pub fn is_enabled(&self) -> (r: bool)
        ensures
            r == !(self.mode() is Disabled),
    {
        match &self.mode {
            AuthMode::Disabled => false,
            _ => true,
        }
    }

    /// What is to be done about a request. Only forward authentication that keeps decisions may
    /// find that a request like it was admitted before, and then admits the same user. Whether a
    /// kept decision is still there is left open; once the endpoint is to be asked, it is not.
    pub fn authenticate(&mut self, ctx: &RequestContext) -> (r: Step)
        ensures
            may_follow(old(self).mode(), old(self).kept_decisions(), ctx@, r@),
            !old(self).keeps_decisions() ==> r@ == next_step(old(self).mode(), ctx@, None),
            final(self).mode() == old(self).mode(),
            final(self).keeps_decisions() == old(self).keeps_decisions(),
            final(self).window() == old(self).window(),
            final(self).room() == old(self).room(),
            final(self).kept_decisions() == match (old(self).mode(), r@) {
                (AuthModeView::Forward(cfg), StepView::Ask(_)) => after_ask(
                    cfg,
                    old(self).kept_decisions(),
                    ctx@,
                ),
                _ => old(self).kept_decisions(),
            },
    {
        let cached = match &self.mode {
            AuthMode::Forward(cfg) => match &mut self.cache {
                Some(cache) => look_up(cache, &decision_key(cfg, ctx)),
                None => None,
            },
            _ => None,
        };
        decide(&self.mode, ctx, cached)
    }

    /// What is decided about a request, given what came of its subrequest. A decision that admits
    /// the request is kept for the next one like it, where decisions are kept; a refusal never is.
    pub fn conclude(&mut self, ctx: &RequestContext, reply: &Reply) -> (r: Decision)
        ensures
            r@ == match old(self).mode() {
                AuthModeView::Forward(cfg) => verdict(cfg.user_header, reply@),
                _ => DecisionView::Deny { status: 500, headers: Seq::empty() },
            },
            final(self).mode() == old(self).mode(),
            final(self).keeps_decisions() == old(self).keeps_decisions(),
            final(self).window() == old(self).window(),
            final(self).room() == old(self).room(),
            final(self).kept_decisions() == match old(self).mode() {
                AuthModeView::Forward(cfg) => if old(self).keeps_decisions() {
                    after_reply(cfg, old(self).kept_decisions(), ctx@, reply@)
                } else {
                    old(self).kept_decisions()
                },
                _ => old(self).kept_decisions(),
            },
    {
        match &self.mode {
            AuthMode::Forward(cfg) => {
                let decision = judge(cfg.user_header.as_str(), reply);
                if let Some(cache) = &mut self.cache {
                    if let Some(user) = decision_to_keep(&decision) {
                        keep(cache, decision_key(cfg, ctx), user);
                    }
                }
                decision
            },
            _ => {
                let headers: Vec<Header> = Vec::new();
                assert(headers_view(headers@) =~= Seq::empty());
                Decision::Deny { status: 500, headers }
            },
        }
    }
}

} // verus!
