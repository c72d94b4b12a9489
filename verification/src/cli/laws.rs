//! What holds of every command line.

use crate::cli::config::{
    ConfigView, EndpointsView, endpoints_for, is_literal_path, normalized_base, root_endpoints,
    title_on,
};
use crate::cli::draft::{
    DraftView, Effect, EnvironmentView, MAX_IFACE, MAX_SOCKET_OWNER, MAX_SRV_BUF_SIZE,
    MAX_SSL_PATH, MAX_TERMINAL_TYPE, effect, empty_draft, flag_effect, number_effect, text_effect,
};
use crate::cli::options::{
    Opt, ParsedView, behind, collected, command_start, law_words_behind_the_command_are_no_options,
    lemma_start_in_range, reading,
};
use crate::cli::parse::{OutcomeView, applied, parsed};
use crate::cli::values::law_truncation_keeps_what_fits;
use crate::text::{join, upper};
use crate::utils::{System, sig_label};
use vstd::prelude::*;
use vstd::utf8::encode_utf8;

verus! {

/// The process ends at once only with status 0, 1 or 255.
pub proof fn law_exit_statuses(args: Seq<Seq<char>>, env: EnvironmentView)
    ensures
        match parsed(args, env).outcome {
            OutcomeView::Exit(code) => code == 0 || code == 1 || code == 255,
            OutcomeView::Run(_) => true,
        },
{
    if args.len() > 1 {
        lemma_exit_statuses(collected(args, command_start(args, 1), 1).items, env);
    }
}

/// An option ends the process only with status 0, 1 or 255.
proof fn lemma_exit_statuses(items: Seq<ParsedView>, env: EnvironmentView)
    ensures
        match applied(items, env) {
            Effect::Exit { code, .. } => code == 0 || code == 1 || code == 255,
            Effect::Next { .. } => true,
        },
    decreases items.len(),
{
    if items.len() > 0 {
        lemma_exit_statuses(items.drop_last(), env);
    }
}

/// An option occurs in a list.
pub open spec fn occurs(items: Seq<ParsedView>, opt: Opt) -> bool {
    exists|i: int| 0 <= i < items.len() && (#[trigger] items[i]).opt == opt
}

/// An option occurs in a list iff it is the last one or occurs before.
proof fn lemma_occurs(items: Seq<ParsedView>, opt: Opt)
    requires
        items.len() > 0,
    ensures
        occurs(items, opt) <==> (items.last().opt == opt || occurs(items.drop_last(), opt)),
{
    let head = items.drop_last();
    if occurs(items, opt) && items.last().opt != opt {
        let i = choose|i: int| 0 <= i < items.len() && (#[trigger] items[i]).opt == opt;
        assert(head[i] == items[i]);
    }
    if occurs(head, opt) {
        let i = choose|i: int| 0 <= i < head.len() && (#[trigger] head[i]).opt == opt;
        assert(items[i] == head[i]);
    }
    if items.last().opt == opt {
        assert(items[items.len() - 1].opt == opt);
    }
}

/// What a draft holds about authentication is what the options said.
proof fn lemma_auth_options(items: Seq<ParsedView>, env: EnvironmentView)
    ensures
        match applied(items, env) {
            Effect::Next { draft, .. } => {
                &&& draft.auth_url is Some <==> occurs(items, Opt::AuthUrl)
                &&& draft.auth_header is Some <==> occurs(items, Opt::AuthHeader)
                &&& draft.credential is Some <==> occurs(items, Opt::Credential)
            },
            Effect::Exit { .. } => true,
        },
    decreases items.len(),
{
    if items.len() > 0 {
        lemma_auth_options(items.drop_last(), env);
        lemma_occurs(items, Opt::AuthUrl);
        lemma_occurs(items, Opt::AuthHeader);
        lemma_occurs(items, Opt::Credential);
    }
}

/// Exactly one way of authentication is active: forward authentication if it was asked for, else
/// a trusted header, else basic authentication, else none.
pub proof fn law_authentication_precedence(args: Seq<Seq<char>>, env: EnvironmentView)
    ensures
        ({
            let items = collected(args, command_start(args, 1), 1).items;
            match parsed(args, env).outcome {
                OutcomeView::Run(cfg) => if occurs(items, Opt::AuthUrl) {
                    cfg.auth is Forward
                } else if occurs(items, Opt::AuthHeader) {
                    cfg.auth is TrustedHeader
                } else if occurs(items, Opt::Credential) {
                    cfg.auth is Basic
                } else {
                    cfg.auth is Disabled
                },
                OutcomeView::Exit(_) => true,
            }
        }),
{
    lemma_auth_options(collected(args, command_start(args, 1), 1).items, env);
}

/// The options that switch something on.
pub open spec fn is_switch(opt: Opt) -> bool {
    match opt {
        Opt::UrlArg => true,
        Opt::Writable => true,
        Opt::CheckOrigin => true,
        Opt::Once => true,
        Opt::ExitNoConn => true,
        Opt::Browser => true,
        Opt::Ipv6 => true,
        Opt::Ssl => true,
        _ => false,
    }
}

/// Whether a configuration has on what an option switches on.
pub open spec fn is_on(cfg: ConfigView, opt: Opt) -> bool {
    match opt {
        Opt::UrlArg => cfg.url_arg,
        Opt::Writable => cfg.writable,
        Opt::CheckOrigin => cfg.check_origin,
        Opt::Once => cfg.once,
        Opt::ExitNoConn => cfg.exit_no_conn,
        Opt::Browser => cfg.browser,
        Opt::Ipv6 => cfg.ipv6,
        Opt::Ssl => cfg.ssl,
        _ => false,
    }
}

/// What a draft has switched on is what the options said, and no option that ends the process was
/// among them.
proof fn lemma_switch(items: Seq<ParsedView>, env: EnvironmentView, opt: Opt)
    requires
        is_switch(opt),
    ensures
        match applied(items, env) {
            Effect::Next { draft, .. } => {
                &&& is_on(draft.cfg, opt) <==> occurs(items, opt)
                &&& !occurs(items, Opt::Help)
                &&& !occurs(items, Opt::Version)
            },
            Effect::Exit { .. } => true,
        },
    decreases items.len(),
{
    if items.len() > 0 {
        lemma_switch(items.drop_last(), env, opt);
        lemma_occurs(items, opt);
        lemma_occurs(items, Opt::Help);
        lemma_occurs(items, Opt::Version);
    }
}

/// A configuration that is served has something switched on exactly when the option for it was
/// given, and a command line that asks for help or for the version is never served.
pub proof fn law_switches_follow_their_options(
    args: Seq<Seq<char>>,
    env: EnvironmentView,
    opt: Opt,
)
    requires
        is_switch(opt),
    ensures
        ({
            let items = collected(args, command_start(args, 1), 1).items;
            match parsed(args, env).outcome {
                OutcomeView::Run(cfg) => {
                    &&& is_on(cfg, opt) <==> occurs(items, opt)
                    &&& !occurs(items, Opt::Help)
                    &&& !occurs(items, Opt::Version)
                },
                OutcomeView::Exit(_) => true,
            }
        }),
{
    lemma_switch(collected(args, command_start(args, 1), 1).items, env, opt);
}

/// What an optional text takes in UTF-8 is bounded.
pub open spec fn fits(text: Option<Seq<char>>, max: int) -> bool {
    match text {
        Some(text) => encode_utf8(text).len() <= max,
        None => true,
    }
}

/// What holds of the configuration in every draft.
spec fn draft_bounds(d: DraftView, system: System) -> bool {
    &&& 1 <= d.cfg.srv_buf_size <= MAX_SRV_BUF_SIZE
    &&& d.cfg.sig_code > 0
    &&& d.cfg.sig_name == "SIG"@ + upper(sig_label(system, d.cfg.sig_code as int))
    &&& d.cfg.max_clients <= i64::MAX
    &&& encode_utf8(d.cfg.terminal_type).len() <= MAX_TERMINAL_TYPE
    &&& fits(d.cfg.iface, MAX_IFACE as int)
    &&& fits(d.cfg.socket_owner, MAX_SOCKET_OWNER as int)
    &&& fits(d.cfg.ssl_cert, MAX_SSL_PATH as int)
    &&& fits(d.cfg.ssl_key, MAX_SSL_PATH as int)
    &&& fits(d.cfg.ssl_ca, MAX_SSL_PATH as int)
    &&& d.cfg.endpoints == root_endpoints()
}

/// The bounds hold from the start.
proof fn lemma_empty_draft_bounds(system: System)
    ensures
        draft_bounds(empty_draft(), system),
{
    reveal(crate::utils::linux_names);
    reveal(crate::utils::bsd_names);
    reveal_strlit("SIGHUP");
    reveal_strlit("SIG");
    reveal_strlit("HUP");
    assert(upper("HUP"@) =~= "HUP"@);
    assert("SIGHUP"@ =~= "SIG"@ + "HUP"@);
    reveal_strlit("xterm-256color");
    vstd::utf8::is_ascii_chars_encode_utf8("xterm-256color"@);
}

/// Every option without a value keeps the bounds.
proof fn lemma_flag_bounds(d: DraftView, opt: Opt, env: EnvironmentView)
    requires
        draft_bounds(d, env.system),
    ensures
        match flag_effect(d, opt, env.version) {
            Effect::Next { draft, .. } => draft_bounds(draft, env.system),
            Effect::Exit { .. } => true,
        },
{
}

/// Every option with an integer keeps the bounds.
proof fn lemma_number_bounds(d: DraftView, opt: Opt, arg: Seq<char>, env: EnvironmentView)
    requires
        draft_bounds(d, env.system),
    ensures
        match number_effect(d, opt, arg) {
            Effect::Next { draft, .. } => draft_bounds(draft, env.system),
            Effect::Exit { .. } => true,
        },
{
}

/// Every option with any other value keeps the bounds.
proof fn lemma_text_bounds(d: DraftView, opt: Opt, arg: Seq<char>, env: EnvironmentView)
    requires
        draft_bounds(d, env.system),
    ensures
        match text_effect(d, opt, arg, env) {
            Effect::Next { draft, .. } => draft_bounds(draft, env.system),
            Effect::Exit { .. } => true,
        },
{
    law_truncation_keeps_what_fits(arg, MAX_IFACE as int);
    law_truncation_keeps_what_fits(arg, MAX_SSL_PATH as int);
    law_truncation_keeps_what_fits(arg, MAX_TERMINAL_TYPE as int);
    crate::utils::lemma_signal_in_range(env.system, arg);
}

/// Every option keeps the bounds.
proof fn lemma_effect_bounds(d: DraftView, opt: Opt, arg: Seq<char>, env: EnvironmentView)
    requires
        draft_bounds(d, env.system),
    ensures
        match effect(d, opt, arg, env) {
            Effect::Next { draft, .. } => draft_bounds(draft, env.system),
            Effect::Exit { .. } => true,
        },
{
    lemma_flag_bounds(d, opt, env);
    lemma_number_bounds(d, opt, arg, env);
    lemma_text_bounds(d, opt, arg, env);
}

/// The options keep the bounds.
proof fn lemma_applied_bounds(items: Seq<ParsedView>, env: EnvironmentView)
    ensures
        match applied(items, env) {
            Effect::Next { draft, .. } => draft_bounds(draft, env.system),
            Effect::Exit { .. } => true,
        },
    decreases items.len(),
{
    if items.len() > 0 {
        lemma_applied_bounds(items.drop_last(), env);
        match applied(items.drop_last(), env) {
            Effect::Next { draft, .. } => {
                lemma_effect_bounds(
                    draft,
                    items.last().opt,
                    crate::cli::parse::argument(items.last().value),
                    env,
                );
            },
            Effect::Exit { .. } => {},
        }
    } else {
        lemma_empty_draft_bounds(env.system);
    }
}

/// A set of endpoints that can be routed: every path begins with a slash and is taken literally,
/// and no two of them are the same.
pub open spec fn routable(e: EndpointsView) -> bool {
    &&& e.index.len() > 0 && e.index[0] == '/' && is_literal_path(e.index)
    &&& e.token.len() > 0 && e.token[0] == '/' && is_literal_path(e.token)
    &&& e.ws.len() > 0 && e.ws[0] == '/' && is_literal_path(e.ws)
    &&& e.index != e.token && e.index != e.ws && e.token != e.ws
    &&& e.parent.len() > 0 ==> {
        &&& e.parent[0] == '/' && is_literal_path(e.parent)
        &&& e.parent != e.index && e.parent != e.token && e.parent != e.ws
    }
}

/// The endpoints for any base path can be routed.
pub proof fn law_endpoints_are_routable(base: Seq<char>)
    ensures
        match endpoints_for(base) {
            Ok(e) => routable(e),
            Err(_) => true,
        },
{
    reveal_strlit("/ws");
    reveal_strlit("/");
    reveal_strlit("/token");
    let path = normalized_base(base);
    assert("/"@[0] == '/');
    if path.len() > 0 && is_literal_path(path) {
        assert(path[0] == '/');
        assert((path + "/"@).len() == path.len() + 1);
        assert((path + "/ws"@).len() == path.len() + 3);
        assert((path + "/token"@).len() == path.len() + 6);
        assert forall|i: int| 0 <= i < path.len() + 1 implies !crate::cli::config::is_route_syntax(
            #[trigger] (path + "/"@)[i],
        ) by {
            if i < path.len() {
                assert((path + "/"@)[i] == path[i]);
            }
        }
        assert forall|i: int| 0 <= i < path.len() + 3 implies !crate::cli::config::is_route_syntax(
            #[trigger] (path + "/ws"@)[i],
        ) by {
            if i < path.len() {
                assert((path + "/ws"@)[i] == path[i]);
            }
        }
        assert forall|i: int| 0 <= i < path.len() + 6 implies !crate::cli::config::is_route_syntax(
            #[trigger] (path + "/token"@)[i],
        ) by {
            if i < path.len() {
                assert((path + "/token"@)[i] == path[i]);
            }
        }
    } else {
        assert("/"@.len() != "/ws"@.len());
        assert("/"@.len() != "/token"@.len());
        assert("/token"@.len() != "/ws"@.len());
    }
}

/// Every configuration that is served is within its bounds: the send buffer is never empty nor
/// beyond the largest, the close signal is a signal and goes by its name, the limit of clients fits
/// the count, the cut-down texts fit, the endpoints can be routed, the page stands right below the
/// base path, and the command is what its words spell and not empty.
pub proof fn law_configurations_are_sound(args: Seq<Seq<char>>, env: EnvironmentView)
    ensures
        match parsed(args, env).outcome {
            OutcomeView::Run(cfg) => {
                &&& 1 <= cfg.srv_buf_size <= MAX_SRV_BUF_SIZE
                &&& cfg.sig_code > 0
                &&& cfg.sig_name == "SIG"@ + upper(sig_label(env.system, cfg.sig_code as int))
                &&& cfg.max_clients <= i64::MAX
                &&& encode_utf8(cfg.terminal_type).len() <= MAX_TERMINAL_TYPE
                &&& fits(cfg.iface, MAX_IFACE as int)
                &&& fits(cfg.socket_owner, MAX_SOCKET_OWNER as int)
                &&& fits(cfg.ssl_cert, MAX_SSL_PATH as int)
                &&& fits(cfg.ssl_key, MAX_SSL_PATH as int)
                &&& fits(cfg.ssl_ca, MAX_SSL_PATH as int)
                &&& routable(cfg.endpoints)
                &&& cfg.endpoints.index == cfg.endpoints.parent + "/"@
                &&& cfg.argv.len() > 0
                &&& cfg.argv == args.skip(args.len() - cfg.argv.len())
                &&& cfg.command == join(cfg.argv, " "@)
                &&& cfg.command.len() > 0
            },
            OutcomeView::Exit(_) => true,
        },
{
    if args.len() > 1 {
        let start = command_start(args, 1);
        lemma_start_in_range(args, 1);
        let items = collected(args, start, 1).items;
        lemma_applied_bounds(items, env);
        match applied(items, env) {
            Effect::Next { draft, .. } => {
                match draft.base_path {
                    Some(base) => {
                        law_endpoints_are_routable(base);
                    },
                    None => {
                        law_endpoints_are_routable(Seq::empty());
                    },
                }
                assert(Seq::<char>::empty() + "/"@ =~= "/"@);
                assert(args.skip(start).len() == args.len() - start);
            },
            Effect::Exit { .. } => {},
        }
    }
}

/// A joined text is not empty when its first word is not.
proof fn lemma_join_not_empty(parts: Seq<Seq<char>>, sep: Seq<char>)
    requires
        parts.len() > 0,
        parts[0].len() > 0,
    ensures
        join(parts, sep).len() > 0,
    decreases parts.len(),
{
    if parts.len() > 1 {
        assert(parts.drop_last()[0] == parts[0]);
        lemma_join_not_empty(parts.drop_last(), sep);
    }
}

/// The words behind the first word of the command configure nothing: another command line with
/// the same words up to there comes to the same outcome, but for the command itself.
pub proof fn law_the_command_configures_nothing(
    args: Seq<Seq<char>>,
    other: Seq<Seq<char>>,
    env: EnvironmentView,
)
    requires
        args.len() > 1,
        command_start(args, 1) < args.len(),
        args[command_start(args, 1)].len() > 0,
        other.len() > command_start(args, 1),
        other.take(command_start(args, 1) + 1) == args.take(command_start(args, 1) + 1),
    ensures
        parsed(other, env).err == parsed(args, env).err,
        parsed(other, env).out == parsed(args, env).out,
        match parsed(args, env).outcome {
            OutcomeView::Exit(code) => parsed(other, env).outcome == OutcomeView::Exit(code),
            OutcomeView::Run(cfg) => {
                let argv = other.skip(command_start(args, 1));
                parsed(other, env).outcome == OutcomeView::Run(
                    ConfigView { argv, command: join(argv, " "@), ..cfg },
                )
            },
        },
{
    law_words_behind_the_command_are_no_options(args, other);
    let start = command_start(args, 1);
    lemma_start_in_range(args, 1);
    assert(other.take(start + 1)[start] == other[start]);
    assert(args.take(start + 1)[start] == args[start]);
    assert(args.skip(start)[0] == args[start]);
    assert(other.skip(start)[0] == other[start]);
    lemma_join_not_empty(args.skip(start), " "@);
    lemma_join_not_empty(other.skip(start), " "@);
}

/// A word that is inserted and says nothing about options moves the walk on by one.
proof fn lemma_inserted_word(args: Seq<Seq<char>>, more: Seq<Seq<char>>, end: int, i: int)
    requires
        1 <= i <= args.len(),
        end <= args.len(),
        more.len() == args.len() + 1,
        forall|j: int| 1 <= j < args.len() ==> #[trigger] args[j] == more[j + 1],
    ensures
        command_start(more, i + 1) == command_start(args, i) + 1,
        collected(more, end + 1, i + 1) == collected(args, end, i),
    decreases args.len() + 1 - i,
{
    if i < args.len() {
        assert(args[i] == more[i + 1]);
        if i + 1 < args.len() {
            assert(args[i + 1] == more[i + 2]);
        }
        lemma_inserted_word(args, more, end, i + 1);
        if i + 2 <= args.len() {
            lemma_inserted_word(args, more, end, i + 2);
        } else {
            assert(command_start(args, i + 2) == args.len());
            assert(command_start(more, i + 3) == more.len());
        }
    }
}

/// A word that is an option which nobody knows changes nothing but the remarks: the outcome is
/// that of the command line without it.
pub proof fn law_unknown_options_are_ignored(
    args: Seq<Seq<char>>,
    unknown: Seq<char>,
    env: EnvironmentView,
)
    requires
        args.len() > 1,
        reading(unknown) is Some,
        reading(unknown)->0.items.len() == 0,
        reading(unknown)->0.pending is None,
    ensures
        parsed(args.insert(1, unknown), env).outcome == parsed(args, env).outcome,
{
    let more = args.insert(1, unknown);
    let start = command_start(args, 1);
    lemma_start_in_range(args, 1);
    assert(more[1] == unknown);
    assert forall|j: int| 1 <= j < args.len() implies #[trigger] args[j] == more[j + 1] by {}
    lemma_inserted_word(args, more, start, 1);
    assert(command_start(more, 1) == start + 1);
    let read = reading(unknown)->0;
    assert(collected(more, start + 1, 1) == behind(
        read.items,
        read.notes,
        collected(more, start + 1, 2),
    ));
    assert(read.items + collected(args, start, 1).items =~= collected(args, start, 1).items);
    assert(more.skip(start + 1) =~= args.skip(start));
}

/// A configured title says nothing about the command, nor about the host.
pub proof fn law_a_title_hides_the_command(
    cfg: ConfigView,
    command: Seq<char>,
    host: Seq<char>,
    other_host: Seq<char>,
)
    requires
        cfg.title is Some,
    ensures
        title_on(cfg, host) == title_on(ConfigView { command, ..cfg }, other_host),
        title_on(cfg, host) == cfg.title->0,
{
}

} // verus!
