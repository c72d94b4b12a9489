//! Reading the command line as a whole.

use crate::cli::config::{
    AuthMode, AuthModeView, Config, ConfigView, Endpoints, ForwardAuthConfig,
    ForwardAuthConfigView, endpoints_for,
};
use crate::cli::draft::{
    Draft, DraftView, Effect, EnvironmentView, ParseEnvironment, apply, effect, empty_draft,
    expand_path, expanded_path,
};
use crate::cli::help::{help_for, help_text};
use crate::cli::options::{
    Opt, Parsed, ParsedView, collect_options, collected, command_start, find_command_start,
    lemma_start_in_range, parsed_view,
};
use crate::jsonc::{Json, JsonView, fields_view, spaced, to_string};
use crate::text::{add_text, join, join_texts, lower, lower_text, opt_text, texts};
use vstd::prelude::*;

verus! {

/// What the process does next.
pub enum Outcome {
    /// It serves with this configuration.
    Run(Box<Config>),
    /// It ends with this status.
    Exit(i32),
}

/// What an outcome holds.
#[verifier::ext_equal]
pub enum OutcomeView {
    Run(ConfigView),
    Exit(i32),
}

impl View for Outcome {
    type V = OutcomeView;

    open spec fn view(&self) -> OutcomeView {
        match self {
            Outcome::Run(cfg) => OutcomeView::Run(cfg@),
            Outcome::Exit(code) => OutcomeView::Exit(*code),
        }
    }
}

/// An outcome with the lines that go to the standard output and the standard error first.
pub struct Report {
    pub outcome: Outcome,
    pub out: Vec<String>,
    pub err: Vec<String>,
}

/// What a report holds.
#[verifier::ext_equal]
pub struct ReportView {
    pub outcome: OutcomeView,
    pub out: Seq<Seq<char>>,
    pub err: Seq<Seq<char>>,
}

impl View for Report {
    type V = ReportView;

    open spec fn view(&self) -> ReportView {
        ReportView { outcome: self.outcome@, out: texts(self.out@), err: texts(self.err@) }
    }
}

/// The text that an option is applied with.
pub open spec fn argument(value: Option<Seq<char>>) -> Seq<char> {
    match value {
        Some(v) => v,
        None => Seq::empty(),
    }
}

/// What a list of options does, one after the other, until one of them ends the process.
pub open spec fn applied(items: Seq<ParsedView>, env: EnvironmentView) -> Effect
    decreases items.len(),
{
    if items.len() == 0 {
        Effect::Next { draft: empty_draft(), notes: Seq::empty() }
    } else {
        match applied(items.drop_last(), env) {
            Effect::Exit { code, out, err } => Effect::Exit { code, out, err },
            Effect::Next { draft, notes } => match effect(
                draft,
                items.last().opt,
                argument(items.last().value),
                env,
            ) {
                Effect::Next { draft: next, notes: more } => Effect::Next {
                    draft: next,
                    notes: notes + more,
                },
                Effect::Exit { code, out, err } => Effect::Exit { code, out, err: notes + err },
            },
        }
    }
}

/// The one authentication mode that is active: forward authentication before a trusted header,
/// a trusted header before basic authentication.
pub open spec fn auth_mode(d: DraftView) -> AuthModeView {
    match (d.auth_url, d.auth_header, d.credential) {
        (Some(url), _, _) => AuthModeView::Forward(
            ForwardAuthConfigView {
                url,
                method: match d.auth_method {
                    Some(method) => method,
                    None => "GET"@,
                },
                request_headers: d.auth_request_headers,
                user_header: match d.auth_user_header {
                    Some(header) => header,
                    None => "X-Auth-User"@,
                },
                cache_ttl: match d.auth_cache_ttl {
                    Some(ttl) => ttl,
                    None => 0,
                },
            },
        ),
        (None, Some(header), _) => AuthModeView::TrustedHeader { header: lower(header) },
        (None, None, Some(credential)) => AuthModeView::Basic { credential },
        (None, None, None) => AuthModeView::Disabled,
    }
}

/// The configuration that a draft makes for a command, or the complaint that refuses it.
pub open spec fn finished(d: DraftView, argv: Seq<Seq<char>>) -> Result<ConfigView, Seq<char>> {
    let endpoints = match d.base_path {
        Some(base) => endpoints_for(base),
        None => Ok(d.cfg.endpoints),
    };
    let command = join(argv, " "@);
    match endpoints {
        Err(message) => Err(message),
        Ok(endpoints) => if command.len() == 0 {
            Err("ttyd: missing start command"@)
        } else {
            Ok(
                ConfigView {
                    prefs_json: spaced(JsonView::Object(d.prefs)),
                    endpoints,
                    auth: auth_mode(d),
                    argv,
                    command,
                    ..d.cfg
                },
            )
        },
    }
}

/// What a command line comes to.
pub open spec fn parsed(args: Seq<Seq<char>>, env: EnvironmentView) -> ReportView {
    if args.len() <= 1 {
        ReportView {
            outcome: OutcomeView::Exit(0),
            out: Seq::empty(),
            err: seq![help_for(env.version)],
        }
    } else {
        let start = command_start(args, 1);
        let found = collected(args, start, 1);
        match found.failure {
            Some(complaint) => ReportView {
                outcome: OutcomeView::Exit(255),
                out: Seq::empty(),
                err: found.notes.push(complaint),
            },
            None => match applied(found.items, env) {
                Effect::Exit { code, out, err } => ReportView {
                    outcome: OutcomeView::Exit(code),
                    out,
                    err: found.notes + err,
                },
                Effect::Next { draft, notes } => match finished(draft, args.skip(start)) {
                    Ok(cfg) => ReportView {
                        outcome: OutcomeView::Run(cfg),
                        out: Seq::empty(),
                        err: found.notes + notes,
                    },
                    Err(message) => ReportView {
                        outcome: OutcomeView::Exit(255),
                        out: Seq::empty(),
                        err: (found.notes + notes).push(message),
                    },
                },
            },
        }
    }
}

/// Once an option has ended the process, the later ones do nothing.
proof fn lemma_exit_stays(items: Seq<ParsedView>, k: int, env: EnvironmentView)
    requires
        0 <= k <= items.len(),
        applied(items.take(k), env) is Exit,
    ensures
        applied(items, env) == applied(items.take(k), env),
    decreases items.len() - k,
{
    if k < items.len() {
        assert(items.take(k + 1).drop_last() =~= items.take(k));
        lemma_exit_stays(items, k + 1, env);
    } else {
        assert(items.take(k) =~= items);
    }
}

/// Applies the options one after the other. The result is the status to end with, if the process
/// ends.
fn apply_all(
    items: Vec<Parsed>,
    draft: &mut Draft,
    env: &ParseEnvironment,
    out: &mut Vec<String>,
    err: &mut Vec<String>,
) -> (r: Option<i32>)
    requires
        old(draft)@ == empty_draft(),
        texts(old(out)@).len() == 0,
    ensures
        match applied(parsed_view(items@), env@) {
            Effect::Next { draft: d, notes } => {
                &&& r is None
                &&& final(draft)@ == d
                &&& texts(final(out)@).len() == 0
                &&& texts(final(err)@) == texts(old(err)@) + notes
            },
            Effect::Exit { code, out: o, err: e } => {
                &&& r == Some(code)
                &&& texts(final(out)@) == o
                &&& texts(final(err)@) == texts(old(err)@) + e
            },
        },
{
    let ghost all = parsed_view(items@);
    let ghost before = texts(err@);
    let ghost mut seen = Seq::<Seq<char>>::empty();
    proof {
        assert(before + seen =~= before);
        assert(all.take(0) =~= Seq::empty());
    }
    let mut i: usize = 0;
    while i < items.len()
        invariant
            i <= items@.len(),
            all == parsed_view(items@),
            all.len() == items@.len(),
            applied(all.take(i as int), env@) == (Effect::Next { draft: draft@, notes: seen }),
            texts(out@).len() == 0,
            texts(err@) == before + seen,
            before == texts(old(err)@),
        decreases items@.len() - i,
    {
        let opt = items[i].opt;
        let arg = match &items[i].value {
            Some(value) => value.clone(),
            None => String::new(),
        };
        let ghost d = draft@;
        proof {
            assert(all.take(i + 1).drop_last() =~= all.take(i as int));
            assert(all.take(i + 1).last() == all[i as int]);
            assert(all[i as int] == items@[i as int]@);
            assert(arg@ =~= argument(all[i as int].value));
        }
        let ghost e = effect(d, opt, arg@, env@);
        match apply(draft, opt, arg, env, out, err) {
            Some(code) => {
                proof {
                    lemma_exit_stays(all, i + 1, env@);
                    assert(texts(out@) =~= e->out);
                    assert(texts(err@) =~= before + (seen + e->err));
                }
                return Some(code);
            },
            None => {
                proof {
                    let more = e->notes;
                    assert(texts(err@) =~= before + (seen + more));
                    seen = seen + more;
                }
            },
        }
        i += 1;
    }
    assert(all.take(i as int) =~= all);
    None
}

/// The authentication mode of a draft.
fn choose_auth(d: Draft) -> (r: (AuthMode, Config, Vec<(String, Json)>, Option<String>))
    ensures
        r.0@ == auth_mode(d@),
        r.1@ == d@.cfg,
        fields_view(r.2@) == d@.prefs,
        opt_text(r.3) == d@.base_path,
{
    let auth = match d.auth_url {
        Some(url) => {
            let mut forward = ForwardAuthConfig::new(url);
            if let Some(method) = d.auth_method {
                forward.method = method;
            }
            if let Some(header) = d.auth_user_header {
                forward.user_header = header;
            }
            if let Some(ttl) = d.auth_cache_ttl {
                forward.cache_ttl = ttl;
            }
            forward.request_headers = d.auth_request_headers;
            AuthMode::Forward(forward)
        },
        None => match d.auth_header {
            Some(header) => AuthMode::TrustedHeader { header: lower_text(header.as_str()) },
            None => match d.credential {
                Some(credential) => AuthMode::Basic { credential },
                None => AuthMode::Disabled,
            },
        },
    };
    (auth, d.cfg, d.prefs, d.base_path)
}

/// The words from `start` on.
fn tail_of(args: &[String], start: usize) -> (r: Vec<String>)
    requires
        start <= args@.len(),
    ensures
        texts(r@) == texts(args@).skip(start as int),
{
    let mut out: Vec<String> = Vec::new();
    let ghost all = texts(args@).skip(start as int);
    assert(texts(out@) =~= all.take(0));
    let mut i: usize = start;
    while i < args.len()
        invariant
            start <= i <= args@.len(),
            all == texts(args@).skip(start as int),
            texts(out@) == all.take(i - start),
        decreases args@.len() - i,
    {
        add_text(&mut out, args[i].clone());
        assert(all.take(i - start + 1) =~= all.take(i - start).push(args@[i as int]@));
        i += 1;
    }
    assert(all.take(args@.len() - start) =~= all);
    out
}

/// Makes the configuration that a draft comes to for a command.
fn finish(d: Draft, argv: Vec<String>) -> (r: Result<Config, String>)
    ensures
        match r {
            Ok(cfg) => finished(d@, texts(argv@)) == Ok::<ConfigView, Seq<char>>(cfg@),
            Err(message) => finished(d@, texts(argv@)) == Err::<ConfigView, Seq<char>>(message@),
        },
{
    let (auth, mut cfg, prefs, base_path) = choose_auth(d);
    let prefs_json = to_string(&Json::Object(prefs));
    match base_path {
        Some(base) => match Endpoints::with_base_path(base.as_str()) {
            Ok(endpoints) => {
                cfg.endpoints = endpoints;
            },
            Err(message) => {
                return Err(message);
            },
        },
        None => {},
    }
    let command = join_texts(&argv, " ");
    if command.as_str().is_empty() {
        return Err("ttyd: missing start command".to_owned());
    }
    cfg.prefs_json = prefs_json;
    cfg.auth = auth;
    cfg.argv = argv;
    cfg.command = command;
    Ok(cfg)
}

/// Reads the command line. The report holds what is to be printed before the outcome is acted on.
pub fn parse_report(args: &[String], env: &ParseEnvironment) -> (r: Report)
    ensures
        r@ == parsed(texts(args@), env@),
{
    let mut out: Vec<String> = Vec::new();
    let mut err: Vec<String> = Vec::new();
    proof {
        assert(texts(out@) =~= Seq::empty());
        assert(texts(err@) =~= Seq::empty());
    }
    if args.len() <= 1 {
        add_text(&mut err, help_text(env.version.as_str()));
        assert(texts(err@) =~= seq![help_for(env@.version)]);
        return Report { outcome: Outcome::Exit(0), out, err };
    }
    let start: usize = find_command_start(args);
    proof {
        lemma_start_in_range(texts(args@), 1);
    }
    let ghost found = collected(texts(args@), start as int, 1);
    match collect_options(args, start, &mut err) {
        Err(complaint) => {
            assert(texts(err@) =~= found.notes);
            add_text(&mut err, complaint);
            Report { outcome: Outcome::Exit(255), out, err }
        },
        Ok(items) => {
            assert(texts(err@) =~= found.notes);
            let mut draft = Draft::new();
            match apply_all(items, &mut draft, env, &mut out, &mut err) {
                Some(code) => Report { outcome: Outcome::Exit(code), out, err },
                None => {
                    assert(texts(out@) =~= Seq::empty());
                    let argv = tail_of(args, start);
                    match finish(draft, argv) {
                        Ok(cfg) => Report { outcome: Outcome::Run(Box::new(cfg)), out, err },
                        Err(message) => {
                            add_text(&mut err, message);
                            Report { outcome: Outcome::Exit(255), out, err }
                        },
                    }
                },
            }
        },
    }
}

/// Reads the command line.
pub fn parse(args: &[String], env: &ParseEnvironment) -> (r: Outcome)
    ensures
        r@ == parsed(texts(args@), env@).outcome,
{
    parse_report(args, env).outcome
}

/// The paths that `--index` options name.
pub open spec fn index_paths_of(items: Seq<ParsedView>, home: Option<Seq<char>>) -> Seq<Seq<char>>
    decreases items.len(),
{
    if items.len() == 0 {
        Seq::empty()
    } else {
        let before = index_paths_of(items.drop_last(), home);
        if items.last().opt is Index {
            before.push(expanded_path(argument(items.last().value), home))
        } else {
            before
        }
    }
}

/// The paths to look at before the command line is read: those that its `--index` options name.
pub fn index_paths(args: &[String], home: &Option<String>) -> (r: Vec<String>)
    ensures
        texts(r@) == {
            let all = texts(args@);
            if all.len() == 0 {
                Seq::empty()
            } else {
                let found = collected(all, command_start(all, 1), 1);
                if found.failure is Some {
                    Seq::empty()
                } else {
                    index_paths_of(found.items, opt_text(*home))
                }
            }
        },
{
    let mut paths: Vec<String> = Vec::new();
    assert(texts(paths@) =~= Seq::empty());
    if args.len() == 0 {
        return paths;
    }
    let start: usize = find_command_start(args);
    proof {
        lemma_start_in_range(texts(args@), 1);
    }
    let mut notes: Vec<String> = Vec::new();
    match collect_options(args, start, &mut notes) {
        Err(_) => paths,
        Ok(items) => {
            let ghost all = parsed_view(items@);
            let mut i: usize = 0;
            assert(all.take(0) =~= Seq::empty());
            while i < items.len()
                invariant
                    i <= items@.len(),
                    all == parsed_view(items@),
                    all.len() == items@.len(),
                    texts(paths@) == index_paths_of(all.take(i as int), opt_text(*home)),
                decreases items@.len() - i,
            {
                proof {
                    assert(all.take(i + 1).drop_last() =~= all.take(i as int));
                    assert(all.take(i + 1).last() == items@[i as int]@);
                }
                match items[i].opt {
                    Opt::Index => {
                        let arg = match &items[i].value {
                            Some(value) => value.clone(),
                            None => String::new(),
                        };
                        assert(arg@ =~= argument(items@[i as int]@.value));
                        add_text(&mut paths, expand_path(arg.as_str(), home));
                    },
                    _ => {},
                }
                i += 1;
            }
            assert(all.take(i as int) =~= all);
            paths
        },
    }
}

} // verus!
