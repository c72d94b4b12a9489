//! What each option of a command line determines.

use crate::cli::config::{AuthModeView, ConfigView, endpoints_for, root_endpoints};
use crate::cli::draft::{
    DraftView, Effect, EnvironmentView, PathProbeView, effect, empty_draft, expanded_path, preference, probe,
    takes_number,
};
use crate::cli::help::help_for;
use crate::cli::options::{Opt, ParsedView, collected, command_start};
use crate::cli::parse::{OutcomeView, applied, argument, index_paths_of, parsed};
use crate::cli::spelling::name_of;
use crate::cli::values::{
    credential_for, integer_value, is_http_url, is_method, truncated, uri_parts,
};
use crate::jsonc::{JsonView, spaced, with_field};
use crate::number::decimal;
use crate::text::laws::law_the_first_place_is_found;
use crate::text::{find, join, lower, split_once, upper};
use crate::utils::{sig_label, signal_number};
use vstd::prelude::*;
use vstd::utf8::encode_utf8;

verus! {

/// The value that an option was given last, if it was given at all.
pub open spec fn last_given(items: Seq<ParsedView>, opt: Opt) -> Option<Seq<char>>
    decreases items.len(),
{
    if items.len() == 0 {
        None
    } else if items.last().opt == opt {
        Some(argument(items.last().value))
    } else {
        last_given(items.drop_last(), opt)
    }
}

/// The values that an option was given, in order.
pub open spec fn all_given(items: Seq<ParsedView>, opt: Opt) -> Seq<Seq<char>>
    decreases items.len(),
{
    if items.len() == 0 {
        Seq::empty()
    } else if items.last().opt == opt {
        all_given(items.drop_last(), opt).push(argument(items.last().value))
    } else {
        all_given(items.drop_last(), opt)
    }
}

/// The options of a command line.
pub open spec fn options_of(args: Seq<Seq<char>>) -> Seq<ParsedView> {
    collected(args, command_start(args, 1), 1).items
}

/// A value cut down to what fits into some bytes.
pub open spec fn cut(value: Option<Seq<char>>, max: int) -> Option<Seq<char>> {
    match value {
        Some(value) => Some(truncated(value, max)),
        None => None,
    }
}

/// A value, or another one where there is none.
pub open spec fn given_or(value: Option<Seq<char>>, other: Seq<char>) -> Seq<char> {
    match value {
        Some(value) => value,
        None => other,
    }
}

/// A configuration holds the texts that the options said.
pub open spec fn texts_said(cfg: ConfigView, items: Seq<ParsedView>, env: EnvironmentView) -> bool {
    &&& cfg.iface == cut(last_given(items, Opt::Interface), 127)
    &&& cfg.socket_owner == cut(last_given(items, Opt::SocketOwner), 127)
    &&& cfg.ssl_cert == cut(last_given(items, Opt::SslCert), 1023)
    &&& cfg.ssl_key == cut(last_given(items, Opt::SslKey), 1023)
    &&& cfg.ssl_ca == cut(last_given(items, Opt::SslCa), 1023)
    &&& cfg.cwd == last_given(items, Opt::Cwd)
    &&& cfg.title == last_given(items, Opt::Title)
    &&& cfg.terminal_type == given_or(
        cut(last_given(items, Opt::TerminalType), 29),
        "xterm-256color"@,
    )
    &&& cfg.index == match last_given(items, Opt::Index) {
        Some(path) => Some(expanded_path(path, env.home)),
        None => None,
    }
    &&& match last_given(items, Opt::Signal) {
        Some(name) => cfg.sig_code == signal_number(env.system, name) && cfg.sig_name == "SIG"@
            + upper(sig_label(env.system, signal_number(env.system, name))),
        None => cfg.sig_code == 1 && cfg.sig_name == "SIGHUP"@,
    }
}

/// An integer that is not negative, and else zero.
pub open spec fn not_negative(v: int) -> int {
    if v > 0 {
        v
    } else {
        0
    }
}

/// A configuration holds the numbers that the options said.
pub open spec fn numbers_said(cfg: ConfigView, items: Seq<ParsedView>) -> bool {
    &&& match last_given(items, Opt::Port) {
        Some(value) => integer_value(value) == Some(cfg.port as int),
        None => cfg.port == 7681,
    }
    &&& match last_given(items, Opt::Uid) {
        Some(value) => integer_value(value) matches Some(v) && cfg.uid == Some(
            not_negative(v) as u32,
        ),
        None => cfg.uid is None,
    }
    &&& match last_given(items, Opt::Gid) {
        Some(value) => integer_value(value) matches Some(v) && cfg.gid == Some(
            not_negative(v) as u32,
        ),
        None => cfg.gid is None,
    }
    &&& match last_given(items, Opt::MaxClients) {
        Some(value) => integer_value(value) matches Some(v) && cfg.max_clients == not_negative(
            v,
        ) as usize,
        None => cfg.max_clients == 0,
    }
    &&& match last_given(items, Opt::PingInterval) {
        Some(value) => integer_value(value) == Some(cfg.ping_interval as int),
        None => cfg.ping_interval == 5,
    }
    &&& match last_given(items, Opt::Debug) {
        Some(value) => integer_value(value) matches Some(v) && cfg.debug_level == v as i32,
        None => cfg.debug_level == 7,
    }
    &&& match last_given(items, Opt::SrvBufSize) {
        Some(value) => integer_value(value) matches Some(v) && v >= 0 && (v > 0 ==> (if v
            <= 16_777_216 {
            cfg.srv_buf_size == v
        } else {
            cfg.srv_buf_size == 16_777_216
        })),
        None => cfg.srv_buf_size == 4096,
    }
}

/// A draft holds what the options said about authentication and the base path.
spec fn auth_said(d: DraftView, items: Seq<ParsedView>) -> bool {
    &&& d.credential == match last_given(items, Opt::Credential) {
        Some(login) => Some(credential_for(login)),
        None => None,
    }
    &&& d.auth_header == last_given(items, Opt::AuthHeader)
    &&& d.auth_url == last_given(items, Opt::AuthUrl)
    &&& d.auth_method == match last_given(items, Opt::AuthMethod) {
        Some(method) => Some(upper(method)),
        None => None,
    }
    &&& d.auth_user_header == last_given(items, Opt::AuthUserHeader)
    &&& d.auth_request_headers == all_given(items, Opt::AuthRequestHeader)
    &&& match last_given(items, Opt::AuthCacheTtl) {
        Some(value) => integer_value(value) matches Some(v) && d.auth_cache_ttl == Some(
            not_negative(v) as u64,
        ),
        None => d.auth_cache_ttl is None,
    }
    &&& d.base_path == cut(last_given(items, Opt::BasePath), 127)
    &&& d.cfg.endpoints == root_endpoints()
}

/// An option that is applied changes the texts of the draft as it says.
#[verifier::rlimit(40)]
proof fn lemma_texts_step(items: Seq<ParsedView>, d: DraftView, env: EnvironmentView)
    requires
        items.len() > 0,
        texts_said(d.cfg, items.drop_last(), env),
    ensures
        effect(d, items.last().opt, argument(items.last().value), env) matches Effect::Next {
            draft,
            ..
        } ==> texts_said(draft.cfg, items, env),
{
    crate::utils::lemma_signal_in_range(env.system, argument(items.last().value));
}

/// The numbers of two configurations are the same.
spec fn same_numbers(a: ConfigView, b: ConfigView) -> bool {
    &&& a.port == b.port && a.uid == b.uid && a.gid == b.gid && a.max_clients == b.max_clients
    &&& a.ping_interval == b.ping_interval && a.debug_level == b.debug_level
    &&& a.srv_buf_size == b.srv_buf_size
}

/// An option whose value is no number leaves the numbers of the draft as they are.
proof fn lemma_other_options(d: DraftView, opt: Opt, value: Seq<char>, env: EnvironmentView)
    requires
        !takes_number(opt),
    ensures
        effect(d, opt, value, env) matches Effect::Next { draft, .. } ==> same_numbers(
            draft.cfg,
            d.cfg,
        ),
{
}

/// An option with the number `v` has changed its own number of a configuration and no other.
spec fn number_taken(before: ConfigView, after: ConfigView, opt: Opt, v: int) -> bool {
    &&& after.port == if opt is Port {
        v
    } else {
        before.port as int
    }
    &&& after.uid == if opt is Uid {
        Some(not_negative(v) as u32)
    } else {
        before.uid
    }
    &&& after.gid == if opt is Gid {
        Some(not_negative(v) as u32)
    } else {
        before.gid
    }
    &&& after.max_clients == if opt is MaxClients {
        not_negative(v) as usize
    } else {
        before.max_clients
    }
    &&& after.ping_interval == if opt is PingInterval {
        v
    } else {
        before.ping_interval as int
    }
    &&& after.debug_level == if opt is Debug {
        v as i32
    } else {
        before.debug_level
    }
    &&& opt is SrvBufSize ==> v >= 0
    &&& after.srv_buf_size == if opt is SrvBufSize && v > 16_777_216 {
        16_777_216
    } else if opt is SrvBufSize && v > 0 {
        v
    } else {
        before.srv_buf_size as int
    }
}

/// An option with a number changes its own number of the draft and no other.
#[verifier::rlimit(40)]
proof fn lemma_number_options(d: DraftView, opt: Opt, value: Seq<char>, env: EnvironmentView)
    requires
        takes_number(opt),
    ensures
        effect(d, opt, value, env) matches Effect::Next { draft, .. } ==> (integer_value(
            value,
        ) matches Some(v) && number_taken(d.cfg, draft.cfg, opt, v)),
{
}

/// A number that its option has changed is what the options said.
#[verifier::rlimit(40)]
proof fn lemma_numbers_told(items: Seq<ParsedView>, before: ConfigView, after: ConfigView)
    requires
        items.len() > 0,
        numbers_said(before, items.drop_last()),
        integer_value(argument(items.last().value)) matches Some(v) && number_taken(
            before,
            after,
            items.last().opt,
            v,
        ),
        takes_number(items.last().opt),
    ensures
        numbers_said(after, items),
{
}

/// Numbers that an option has left as they are stay what the options said.
proof fn lemma_numbers_kept(items: Seq<ParsedView>, before: ConfigView, after: ConfigView)
    requires
        items.len() > 0,
        numbers_said(before, items.drop_last()),
        same_numbers(after, before),
        !takes_number(items.last().opt),
    ensures
        numbers_said(after, items),
{
}

/// An option that is applied changes the numbers of the draft as it says.
proof fn lemma_numbers_step(items: Seq<ParsedView>, d: DraftView, env: EnvironmentView)
    requires
        items.len() > 0,
        numbers_said(d.cfg, items.drop_last()),
    ensures
        effect(d, items.last().opt, argument(items.last().value), env) matches Effect::Next {
            draft,
            ..
        } ==> numbers_said(draft.cfg, items),
{
    let opt = items.last().opt;
    let value = argument(items.last().value);
    let e = effect(d, opt, value, env);
    if takes_number(opt) {
        lemma_number_options(d, opt, value, env);
        match e {
            Effect::Next { draft, .. } => {
                lemma_numbers_told(items, d.cfg, draft.cfg);
            },
            Effect::Exit { .. } => {},
        }
    } else {
        lemma_other_options(d, opt, value, env);
        match e {
            Effect::Next { draft, .. } => {
                lemma_numbers_kept(items, d.cfg, draft.cfg);
            },
            Effect::Exit { .. } => {},
        }
    }
}

/// An option that is applied changes what the draft holds about authentication as it says.
#[verifier::rlimit(40)]
proof fn lemma_auth_step(items: Seq<ParsedView>, d: DraftView, env: EnvironmentView)
    requires
        items.len() > 0,
        auth_said(d, items.drop_last()),
    ensures
        effect(d, items.last().opt, argument(items.last().value), env) matches Effect::Next {
            draft,
            ..
        } ==> auth_said(draft, items),
{
}

/// The draft holds what the options said.
proof fn lemma_said(items: Seq<ParsedView>, env: EnvironmentView)
    ensures
        applied(items, env) matches Effect::Next { draft, .. } ==> texts_said(
            draft.cfg,
            items,
            env,
        ) && numbers_said(draft.cfg, items) && auth_said(draft, items),
    decreases items.len(),
{
    if items.len() > 0 {
        lemma_said(items.drop_last(), env);
        match applied(items.drop_last(), env) {
            Effect::Next { draft, .. } => {
                lemma_texts_step(items, draft, env);
                lemma_numbers_step(items, draft, env);
                lemma_auth_step(items, draft, env);
            },
            Effect::Exit { .. } => {},
        }
    }
}

/// Each option with a text determines its own field and no other: a configuration that is served has
/// in it the value that the option was given last, cut down where the field is bounded, and what is
/// usual where the option was not given.
pub proof fn law_texts_follow_their_options(args: Seq<Seq<char>>, env: EnvironmentView)
    ensures
        parsed(args, env).outcome matches OutcomeView::Run(cfg) ==> texts_said(
            cfg,
            options_of(args),
            env,
        ),
{
    lemma_said(options_of(args), env);
}

/// Each option with a number determines its own field and no other: a configuration that is served has
/// in it the number that the option was given last, and what is usual where it was not given. A size of
/// zero for the send buffer is no size; a negative number counts as zero where it is let through.
pub proof fn law_numbers_follow_their_options(args: Seq<Seq<char>>, env: EnvironmentView)
    ensures
        parsed(args, env).outcome matches OutcomeView::Run(cfg) ==> numbers_said(
            cfg,
            options_of(args),
        ),
{
    lemma_said(options_of(args), env);
}

/// The way of authentication is made of what its options were given last: a URL with the method, the
/// header of the user, the headers to copy and the time to keep decisions; else a trusted header, in
/// lower case; else a credential.
pub proof fn law_authentication_follows_its_options(args: Seq<Seq<char>>, env: EnvironmentView)
    ensures
        parsed(args, env).outcome matches OutcomeView::Run(cfg) ==> {
            let items = options_of(args);
            match (
                last_given(items, Opt::AuthUrl),
                last_given(items, Opt::AuthHeader),
                last_given(items, Opt::Credential),
            ) {
                (Some(url), _, _) => cfg.auth matches AuthModeView::Forward(f) && {
                    &&& f.url == url
                    &&& f.method == match last_given(items, Opt::AuthMethod) {
                        Some(method) => upper(method),
                        None => "GET"@,
                    }
                    &&& f.user_header == given_or(
                        last_given(items, Opt::AuthUserHeader),
                        "X-Auth-User"@,
                    )
                    &&& f.request_headers == all_given(items, Opt::AuthRequestHeader)
                    &&& match last_given(items, Opt::AuthCacheTtl) {
                        Some(value) => integer_value(value) matches Some(v) && f.cache_ttl
                            == not_negative(v),
                        None => f.cache_ttl == 0,
                    }
                },
                (None, Some(header), _) => cfg.auth == (AuthModeView::TrustedHeader {
                    header: lower(header),
                }),
                (None, None, Some(login)) => cfg.auth == (AuthModeView::Basic {
                    credential: credential_for(login),
                }),
                (None, None, None) => cfg.auth is Disabled,
            }
        },
{
    lemma_said(options_of(args), env);
}

/// The endpoints are those of the base path that was given last, cut down, and those at the root where
/// none was given; the command is all of the words from where it starts.
pub proof fn law_paths_and_command_follow_the_words(args: Seq<Seq<char>>, env: EnvironmentView)
    ensures
        parsed(args, env).outcome matches OutcomeView::Run(cfg) ==> {
            &&& match last_given(options_of(args), Opt::BasePath) {
                Some(base) => endpoints_for(truncated(base, 127)) matches Ok(e) && cfg.endpoints == e,
                None => cfg.endpoints.index == "/"@ && cfg.endpoints.token == "/token"@
                    && cfg.endpoints.ws == "/ws"@ && cfg.endpoints.parent.len() == 0,
            }
            &&& cfg.argv == args.skip(command_start(args, 1))
            &&& cfg.command == join(cfg.argv, " "@)
        },
{
    lemma_said(options_of(args), env);
}

/// The value of a field.
pub open spec fn field_of(fields: Seq<(Seq<char>, JsonView)>, key: Seq<char>) -> Option<JsonView>
    decreases fields.len(),
{
    if fields.len() == 0 {
        None
    } else if fields[0].0 == key {
        Some(fields[0].1)
    } else {
        field_of(fields.drop_first(), key)
    }
}

/// What the client options said about a key last.
pub open spec fn last_preference(items: Seq<ParsedView>, key: Seq<char>) -> Option<JsonView>
    decreases items.len(),
{
    if items.len() == 0 {
        None
    } else {
        match split_once(argument(items.last().value), '=') {
            Some((name, value)) if items.last().opt is ClientOption && name == key => Some(
                preference(value),
            ),
            _ => last_preference(items.drop_last(), key),
        }
    }
}

/// A field that is set has its value, and every other one keeps its own.
proof fn lemma_field_set(
    fields: Seq<(Seq<char>, JsonView)>,
    name: Seq<char>,
    value: JsonView,
    key: Seq<char>,
)
    ensures
        field_of(with_field(fields, name, value), key) == if key == name {
            Some(value)
        } else {
            field_of(fields, key)
        },
    decreases fields.len(),
{
    let after = with_field(fields, name, value);
    if fields.len() == 0 {
        assert(after.drop_first() =~= Seq::empty());
        assert(field_of(after.drop_first(), key) is None);
    } else if fields[0].0 == name {
        assert(after.drop_first() =~= fields.drop_first());
    } else {
        lemma_field_set(fields.drop_first(), name, value, key);
        assert(after.drop_first() =~= with_field(fields.drop_first(), name, value));
    }
}

/// The preferences of a draft are what the client options said.
proof fn lemma_preferences(items: Seq<ParsedView>, env: EnvironmentView, key: Seq<char>)
    ensures
        applied(items, env) matches Effect::Next { draft, .. } ==> field_of(draft.prefs, key)
            == last_preference(items, key),
    decreases items.len(),
{
    if items.len() > 0 {
        lemma_preferences(items.drop_last(), env, key);
        match applied(items.drop_last(), env) {
            Effect::Next { draft, .. } => {
                match split_once(argument(items.last().value), '=') {
                    Some((name, raw)) => {
                        lemma_field_set(draft.prefs, name, preference(raw), key);
                    },
                    None => {},
                }
            },
            Effect::Exit { .. } => {},
        }
    }
}

/// The keys that the client options set, in the order in which they were named first.
pub open spec fn keys_named(items: Seq<ParsedView>) -> Seq<Seq<char>>
    decreases items.len(),
{
    if items.len() == 0 {
        Seq::empty()
    } else {
        let before = keys_named(items.drop_last());
        match split_once(argument(items.last().value), '=') {
            Some((name, _)) if items.last().opt is ClientOption && !before.contains(name) => {
                before.push(name)
            },
            _ => before,
        }
    }
}

/// The keys of some fields, in order.
pub open spec fn keys_of(fields: Seq<(Seq<char>, JsonView)>) -> Seq<Seq<char>> {
    fields.map_values(|f: (Seq<char>, JsonView)| f.0)
}

/// A field that is set keeps its place, or comes last.
proof fn lemma_key_set(fields: Seq<(Seq<char>, JsonView)>, name: Seq<char>, value: JsonView)
    ensures
        keys_of(with_field(fields, name, value)) == if keys_of(fields).contains(name) {
            keys_of(fields)
        } else {
            keys_of(fields).push(name)
        },
    decreases fields.len(),
{
    let keys = keys_of(fields);
    let after = keys_of(with_field(fields, name, value));
    if fields.len() == 0 {
        assert(after =~= keys.push(name));
    } else if fields[0].0 == name {
        assert(keys[0] == name);
        assert(keys.contains(name));
        assert(after =~= keys);
    } else {
        let rest = fields.drop_first();
        lemma_key_set(rest, name, value);
        assert(keys =~= seq![fields[0].0] + keys_of(rest));
        assert(after =~= seq![fields[0].0] + keys_of(with_field(rest, name, value)));
        if keys_of(rest).contains(name) {
            let i = choose|i: int| 0 <= i < keys_of(rest).len() && keys_of(rest)[i] == name;
            assert(keys[i + 1] == name);
            assert(after =~= keys);
        } else {
            if keys.contains(name) {
                let i = choose|i: int| 0 <= i < keys.len() && keys[i] == name;
                assert(keys_of(rest)[i - 1] == name);
            }
            assert(after =~= keys.push(name));
        }
    }
}

/// The keys of a draft's preferences are those that the client options named.
proof fn lemma_keys(items: Seq<ParsedView>, env: EnvironmentView)
    ensures
        applied(items, env) matches Effect::Next { draft, .. } ==> keys_of(draft.prefs) == keys_named(
            items,
        ),
    decreases items.len(),
{
    if items.len() > 0 {
        lemma_keys(items.drop_last(), env);
        match applied(items.drop_last(), env) {
            Effect::Next { draft, .. } => {
                match split_once(argument(items.last().value), '=') {
                    Some((name, raw)) => {
                        lemma_key_set(draft.prefs, name, preference(raw));
                    },
                    None => {},
                }
            },
            Effect::Exit { .. } => {},
        }
    } else {
        assert(keys_of(Seq::empty()) =~= Seq::empty());
    }
}

/// The fields are what the client options said, key by key, in the order in which the keys were named.
pub open spec fn are_preferences(
    fields: Seq<(Seq<char>, JsonView)>,
    items: Seq<ParsedView>,
) -> bool {
    &&& keys_of(fields) == keys_named(items)
    &&& forall|key: Seq<char>| #[trigger] field_of(fields, key) == last_preference(items, key)
}

/// The client's preferences are the JSON object in which every key has what the client options said
/// about it last, in the order in which the keys were named first, and no other key occurs.
pub proof fn law_preferences_follow_their_options(args: Seq<Seq<char>>, env: EnvironmentView)
    ensures
        parsed(args, env).outcome matches OutcomeView::Run(cfg) ==> exists|
            fields: Seq<(Seq<char>, JsonView)>,
        | #[trigger]
            are_preferences(fields, options_of(args)) && cfg.prefs_json == spaced(
                JsonView::Object(fields),
            ),
{
    match parsed(args, env).outcome {
        OutcomeView::Run(cfg) => {
            match applied(options_of(args), env) {
                Effect::Next { draft, .. } => {
                    lemma_keys(options_of(args), env);
                    assert forall|key: Seq<char>| #[trigger] field_of(draft.prefs, key)
                        == last_preference(options_of(args), key) by {
                        lemma_preferences(options_of(args), env, key);
                    }
                    assert(are_preferences(draft.prefs, options_of(args)));
                },
                Effect::Exit { .. } => {},
            }
        },
        OutcomeView::Exit(_) => {},
    }
}

/// An option can be served with: it does not ask for help or the version, and its value is what it is
/// to be.
pub open spec fn is_acceptable(item: ParsedView, env: EnvironmentView) -> bool {
    let value = argument(item.value);
    match item.opt {
        Opt::Help => false,
        Opt::Version => false,
        Opt::Port => integer_value(value) matches Some(v) && 0 <= v <= 65535,
        Opt::PingInterval => integer_value(value) matches Some(v) && v >= 0,
        Opt::SrvBufSize => integer_value(value) matches Some(v) && v >= 0,
        Opt::Uid => integer_value(value) is Some,
        Opt::Gid => integer_value(value) is Some,
        Opt::MaxClients => integer_value(value) is Some,
        Opt::Debug => integer_value(value) is Some,
        Opt::AuthCacheTtl => integer_value(value) is Some,
        Opt::Credential => value.contains(':'),
        Opt::ClientOption => value.contains('='),
        Opt::Signal => signal_number(env.system, value) > 0,
        Opt::Index => probe(env.probes, expanded_path(value, env.home)) is File,
        Opt::AuthUrl => is_http_url(uri_parts(value)),
        Opt::AuthMethod => is_method(encode_utf8(upper(value))),
        _ => true,
    }
}

/// A character is found exactly if it occurs.
proof fn lemma_found(s: Seq<char>, c: char)
    ensures
        find(s, c) < s.len() <==> s.contains(c),
{
    law_the_first_place_is_found(s, c);
    if s.contains(c) {
        let i = choose|i: int| 0 <= i < s.len() && s[i] == c;
        assert(s[i] == c);
    }
}

/// An option goes on exactly if it is acceptable, and otherwise ends the process with its status.
#[verifier::rlimit(40)]
proof fn lemma_acceptance(d: DraftView, item: ParsedView, env: EnvironmentView)
    ensures
        ({
            let e = effect(d, item.opt, argument(item.value), env);
            &&& e is Next <==> is_acceptable(item, env)
            &&& e matches Effect::Exit { code, out, err } ==> {
                &&& code == bad_status(item)
                &&& out.len() + err.len() == 1
                &&& out.len() == 1 <==> item.opt is Version
            }
        }),
{
    lemma_found(argument(item.value), ':');
    lemma_found(argument(item.value), '=');
}

/// All options of a list can be served with.
pub open spec fn are_acceptable(items: Seq<ParsedView>, env: EnvironmentView) -> bool {
    forall|i: int| 0 <= i < items.len() ==> is_acceptable(#[trigger] items[i], env)
}

/// A list of options goes on exactly if all of them are acceptable.
proof fn lemma_all_acceptable(items: Seq<ParsedView>, env: EnvironmentView)
    ensures
        applied(items, env) is Next <==> are_acceptable(items, env),
    decreases items.len(),
{
    if items.len() > 0 {
        let before = items.drop_last();
        lemma_all_acceptable(before, env);
        assert(items.last() == items[items.len() - 1]);
        match applied(before, env) {
            Effect::Next { draft, .. } => {
                lemma_acceptance(draft, items.last(), env);
                if is_acceptable(items.last(), env) {
                    assert forall|i: int| 0 <= i < items.len() implies is_acceptable(
                        #[trigger] items[i],
                        env,
                    ) by {
                        if i < before.len() {
                            assert(before[i] == items[i]);
                        }
                    }
                }
            },
            Effect::Exit { .. } => {
                let i = choose|i: int|
                    0 <= i < before.len() && !is_acceptable(#[trigger] before[i], env);
                assert(items[i] == before[i]);
            },
        }
    }
}

/// A command line is served exactly if it can be: every option has the value that it needs, all of the
/// values are acceptable, the base path can be routed, and there is a command.
pub proof fn law_what_is_served(args: Seq<Seq<char>>, env: EnvironmentView)
    ensures
        parsed(args, env).outcome is Run <==> {
            let start = command_start(args, 1);
            &&& args.len() > 1
            &&& collected(args, start, 1).failure is None
            &&& are_acceptable(options_of(args), env)
            &&& last_given(options_of(args), Opt::BasePath) matches Some(base) ==> endpoints_for(
                truncated(base, 127),
            ) is Ok
            &&& join(args.skip(start), " "@).len() > 0
        },
{
    lemma_all_acceptable(options_of(args), env);
    lemma_said(options_of(args), env);
}

/// The status of an option that cannot be served with: zero where it asked for something, one where its
/// value is to be a number and is none, and else 255.
pub open spec fn bad_status(item: ParsedView) -> int {
    if item.opt is Help || item.opt is Version {
        0
    } else if (item.opt is Port || item.opt is PingInterval || item.opt is SrvBufSize || item.opt is Uid
        || item.opt is Gid || item.opt is MaxClients || item.opt is Debug || item.opt is AuthCacheTtl)
        && integer_value(argument(item.value)) is None {
        1
    } else {
        255
    }
}

/// What an option that cannot be served with tells: its own lines, behind remarks about those before it.
pub open spec fn told_by(
    item: ParsedView,
    env: EnvironmentView,
    out: Seq<Seq<char>>,
    err: Seq<Seq<char>>,
) -> bool {
    effect(empty_draft(), item.opt, argument(item.value), env) matches Effect::Exit {
        out: said,
        err: complained,
        ..
    } && out == said && exists|remarks: Seq<Seq<char>>| err == #[trigger] (remarks + complained)
}

/// What an option that cannot be served with tells does not depend on the options before it.
proof fn lemma_told(d: DraftView, item: ParsedView, env: EnvironmentView)
    requires
        !is_acceptable(item, env),
    ensures
        effect(d, item.opt, argument(item.value), env) == effect(
            empty_draft(),
            item.opt,
            argument(item.value),
            env,
        ),
{
    lemma_acceptance(d, item, env);
    lemma_acceptance(empty_draft(), item, env);
}

/// Nothing behind an option that ends the process matters.
proof fn lemma_rest_ignored(items: Seq<ParsedView>, env: EnvironmentView, k: int, n: int)
    requires
        0 <= k < n <= items.len(),
        are_acceptable(items.take(k), env),
        !is_acceptable(items[k], env),
    ensures
        applied(items.take(n), env) matches Effect::Exit { code, out, err } && code == bad_status(
            items[k],
        ) && told_by(items[k], env, out, err),
    decreases n,
{
    assert(items.take(n).drop_last() =~= items.take(n - 1));
    assert(items.take(n).last() == items[n - 1]);
    if n == k + 1 {
        lemma_all_acceptable(items.take(k), env);
        match applied(items.take(k), env) {
            Effect::Next { draft, notes } => {
                lemma_acceptance(draft, items[k], env);
                lemma_told(draft, items[k], env);
                match effect(draft, items[k].opt, argument(items[k].value), env) {
                    Effect::Exit { err, .. } => {
                        assert(applied(items.take(n), env)->err == notes + err);
                    },
                    Effect::Next { .. } => {},
                }
            },
            Effect::Exit { .. } => {},
        }
    } else {
        lemma_rest_ignored(items, env, k, n - 1);
    }
}

/// The first option that cannot be served with decides how the process ends: with status zero where it
/// asks for help or the version, with status one where its number is none, and else with 255. It tells
/// what it would tell alone, behind the remarks about the words and about the options before it. Only the
/// version goes to the standard output.
pub proof fn law_the_first_bad_option_decides(args: Seq<Seq<char>>, env: EnvironmentView, k: int)
    requires
        args.len() > 1,
        collected(args, command_start(args, 1), 1).failure is None,
        0 <= k < options_of(args).len(),
        are_acceptable(options_of(args).take(k), env),
        !is_acceptable(options_of(args)[k], env),
    ensures
        parsed(args, env).outcome matches OutcomeView::Exit(code) && code == bad_status(
            options_of(args)[k],
        ),
        told_by(options_of(args)[k], env, parsed(args, env).out, parsed(args, env).err),
        parsed(args, env).out.len() > 0 <==> options_of(args)[k].opt is Version,
        collected(args, command_start(args, 1), 1).notes.is_prefix_of(parsed(args, env).err),
{
    let items = options_of(args);
    lemma_rest_ignored(items, env, k, items.len() as int);
    assert(items.take(items.len() as int) =~= items);
    lemma_acceptance(empty_draft(), items[k], env);
    let words = collected(args, command_start(args, 1), 1).notes;
    match applied(items, env) {
        Effect::Exit { err, .. } => {
            let complained = effect(
                empty_draft(),
                items[k].opt,
                argument(items[k].value),
                env,
            )->err;
            let remarks = choose|remarks: Seq<Seq<char>>| err == #[trigger] (remarks + complained);
            assert(words + err =~= (words + remarks) + complained);
        },
        Effect::Next { .. } => {},
    }
}

/// A command line without any word asks for help and ends well; one whose last option lacks its value,
/// whose base path cannot be routed or that has no command ends with 255.
pub proof fn law_how_a_command_line_fails(args: Seq<Seq<char>>, env: EnvironmentView)
    ensures
        args.len() <= 1 ==> parsed(args, env).outcome == OutcomeView::Exit(0),
        args.len() > 1 && collected(args, command_start(args, 1), 1).failure is Some ==> parsed(
            args,
            env,
        ).outcome == OutcomeView::Exit(255) && parsed(args, env).out.len() == 0 && parsed(args, env).err
            == collected(args, command_start(args, 1), 1).notes.push(
            collected(args, command_start(args, 1), 1).failure->0,
        ),
        args.len() > 1 && collected(args, command_start(args, 1), 1).failure is None
            && are_acceptable(options_of(args), env) && !(parsed(args, env).outcome is Run)
            ==> parsed(args, env).outcome == OutcomeView::Exit(255) && parsed(args, env).err.last()
            == match last_given(options_of(args), Opt::BasePath) {
            Some(base) => match endpoints_for(truncated(base, 127)) {
                Err(message) => message,
                Ok(_) => "ttyd: missing start command"@,
            },
            None => "ttyd: missing start command"@,
        },
{
    lemma_all_acceptable(options_of(args), env);
    lemma_said(options_of(args), env);
}

/// A value that is to be a number and is none is reported under the name of its option.
pub proof fn law_numbers_are_reported_by_name(
    d: DraftView,
    opt: Opt,
    value: Seq<char>,
    env: EnvironmentView,
)
    requires
        takes_number(opt),
        integer_value(value) is None,
    ensures
        effect(d, opt, value, env) == (Effect::Exit {
            code: 1,
            out: Seq::empty(),
            err: seq!["ttyd: invalid value for "@ + name_of(opt) + ": "@ + value],
        }),
{
}

/// Any other value that cannot be served with is named in the one line that refuses it.
#[verifier::rlimit(40)]
pub proof fn law_refusals_name_the_value(
    d: DraftView,
    opt: Opt,
    value: Seq<char>,
    env: EnvironmentView,
)
    requires
        !is_acceptable(ParsedView { opt, value: Some(value) }, env),
        !(opt is Help || opt is Version),
        takes_number(opt) ==> integer_value(value) is Some,
    ensures
        ({
            let path = expanded_path(value, env.home);
            effect(d, opt, value, env) == (Effect::Exit {
                code: 255,
                out: Seq::empty(),
                err: seq![
                    match opt {
                        Opt::Port => "ttyd: invalid port: "@ + value,
                        Opt::PingInterval => "ttyd: invalid ping interval: "@ + value,
                        Opt::SrvBufSize => "ttyd: invalid srv-buf-size: "@ + value,
                        Opt::Signal => "ttyd: invalid signal: "@ + value,
                        Opt::AuthUrl => "ttyd: invalid auth-url: "@ + value,
                        Opt::AuthMethod => "ttyd: invalid auth-method: "@ + value,
                        Opt::ClientOption => "ttyd: invalid client option: "@ + value
                            + ", format: key=value"@,
                        Opt::Credential => "ttyd: invalid credential, format: username:password"@,
                        _ => match probe(env.probes, path) {
                            PathProbeView::Missing { error } => "Can not stat index.html: "@ + path
                                + ", error: "@ + error,
                            _ => "Invalid index.html path: "@ + path + ", is it a dir?"@,
                        },
                    },
                ],
            })
        }),
{
    lemma_found(value, ':');
    lemma_found(value, '=');
}

/// Help goes to the standard error and the version to the standard output, and the process ends well.
pub proof fn law_help_and_version_are_told(d: DraftView, value: Seq<char>, env: EnvironmentView)
    ensures
        effect(d, Opt::Help, value, env) == (Effect::Exit {
            code: 0,
            out: Seq::empty(),
            err: seq![help_for(env.version)],
        }),
        effect(d, Opt::Version, value, env) == (Effect::Exit {
            code: 0,
            out: seq!["ttyd version "@ + env.version],
            err: Seq::empty(),
        }),
{
}

/// A command line that is served prints nothing but remarks, first those about its words.
pub proof fn law_serving_prints_only_remarks(args: Seq<Seq<char>>, env: EnvironmentView)
    requires
        parsed(args, env).outcome is Run,
    ensures
        parsed(args, env).out.len() == 0,
        collected(args, command_start(args, 1), 1).notes.is_prefix_of(parsed(args, env).err),
{
}

/// The paths that are looked at are those that the command line names for a page of its own, in order,
/// each as it will be opened.
pub proof fn law_the_paths_that_are_looked_at(items: Seq<ParsedView>, home: Option<Seq<char>>)
    ensures
        index_paths_of(items, home) == all_given(items, Opt::Index).map_values(
            |path: Seq<char>| expanded_path(path, home),
        ),
    decreases items.len(),
{
    if items.len() > 0 {
        law_the_paths_that_are_looked_at(items.drop_last(), home);
    }
    assert(index_paths_of(items, home) =~= all_given(items, Opt::Index).map_values(
        |path: Seq<char>| expanded_path(path, home),
    ));
}

/// A send buffer beyond the largest is cut down with a remark that names both sizes; no other value of an
/// option that is served with is remarked on.
pub proof fn law_only_a_cut_buffer_is_remarked_on(
    d: DraftView,
    opt: Opt,
    value: Seq<char>,
    env: EnvironmentView,
)
    ensures
        effect(d, opt, value, env) matches Effect::Next { notes, .. } ==> if opt is SrvBufSize
            && integer_value(value)->0 > 16_777_216 {
            notes == seq![
                "ttyd: srv-buf-size "@ + decimal(integer_value(value)->0 as nat) + " is above the "@
                    + decimal(16_777_216) + " byte maximum, using "@ + decimal(16_777_216),
            ]
        } else {
            notes.len() == 0
        },
{
}

} // verus!
