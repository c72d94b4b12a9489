//! The summary of the configuration that is logged at the start.

use crate::cli::config::{
    AuthMode, AuthModeView, Config, ConfigView, EndpointsView, forwarded_header_names,
};
use crate::number::{decimal, signed_decimal, write_decimal, write_signed_decimal};
use crate::text::{add_text, append_texts, concat, concat3, join, join_texts, opt_text, texts};
use vstd::prelude::*;

verus! {

/// One line if a condition holds.
pub open spec fn line_if(shown: bool, line: Seq<char>) -> Seq<Seq<char>> {
    if shown {
        seq![line]
    } else {
        Seq::empty()
    }
}

/// The lines about the command. That there is a credential is said; what it is, is not.
pub open spec fn command_lines(cfg: ConfigView) -> Seq<Seq<char>> {
    seq!["tty configuration:"@] + line_if(
        cfg.auth is Basic,
        "  credential: (basic auth enabled)"@,
    ) + seq![
        "  start command: "@ + cfg.command,
        "  close signal: "@ + cfg.sig_name + " ("@ + signed_decimal(cfg.sig_code as int) + ")"@,
        "  terminal type: "@ + cfg.terminal_type,
    ] + labelled("  window title: "@, cfg.title)
}

/// The lines about the endpoints, when they are shifted.
pub open spec fn endpoint_lines(e: EndpointsView) -> Seq<Seq<char>> {
    if e.parent.len() == 0 {
        Seq::empty()
    } else {
        seq![
            "endpoints:"@,
            "  base-path: "@ + e.parent,
            "  index    : "@ + e.index,
            "  token    : "@ + e.token,
            "  websocket: "@ + e.ws,
        ]
    }
}

/// The lines about authentication other than by a credential.
pub open spec fn auth_lines(auth: AuthModeView) -> Seq<Seq<char>> {
    match auth {
        AuthModeView::TrustedHeader { header } => seq!["  auth header: "@ + header],
        AuthModeView::Forward(f) => seq![
            "  forward auth: "@ + f.method + " "@ + f.url,
            "  forward auth headers: "@ + join(forwarded_header_names(f.request_headers), ", "@),
            "  forward auth user header: "@ + f.user_header,
        ] + line_if(
            f.cache_ttl > 0,
            "  forward auth cache: "@ + decimal(f.cache_ttl as nat) + "s"@,
        ),
        _ => Seq::empty(),
    }
}

/// The lines about what was switched on.
pub open spec fn switch_lines(cfg: ConfigView) -> Seq<Seq<char>> {
    line_if(cfg.check_origin, "  check origin: true"@) + line_if(
        cfg.url_arg,
        "  allow url arg: true"@,
    ) + line_if(cfg.max_clients > 0, "  max clients: "@ + decimal(cfg.max_clients as nat))
        + line_if(cfg.once, "  once: true"@) + line_if(cfg.exit_no_conn, "  exit_no_conn: true"@)
        + labelled("  custom index.html: "@, cfg.index) + labelled("  working directory: "@, cfg.cwd)
}

/// The summary of a configuration, line by line.
pub open spec fn summary(cfg: ConfigView) -> Seq<Seq<char>> {
    command_lines(cfg) + endpoint_lines(cfg.endpoints) + auth_lines(cfg.auth) + switch_lines(cfg)
}

/// Appends a line if a condition holds.
fn add_if(lines: &mut Vec<String>, shown: bool, line: String)
    ensures
        texts(final(lines)@) == texts(old(lines)@) + line_if(shown, line@),
{
    let ghost before = texts(lines@);
    if shown {
        add_text(lines, line);
    }
    assert(texts(lines@) =~= before + line_if(shown, line@));
}

/// Appends the lines about the command.
fn add_command(lines: &mut Vec<String>, cfg: &Config)
    ensures
        texts(final(lines)@) == texts(old(lines)@) + command_lines(cfg@),
{
    let ghost before = texts(lines@);
    add_text(lines, "tty configuration:".to_owned());
    add_if(lines, cfg.requires_ws_token(), "  credential: (basic auth enabled)".to_owned());
    add_text(lines, concat("  start command: ", cfg.command.as_str()));
    let code = write_signed_decimal(cfg.sig_code);
    let mut signal = concat3("  close signal: ", cfg.sig_name.as_str(), " (");
    signal.append(code.as_str());
    signal.append(")");
    add_text(lines, signal);
    add_text(lines, concat("  terminal type: ", cfg.terminal_type.as_str()));
    add_labelled(lines, "  window title: ", &cfg.title);
    assert(texts(lines@) =~= before + command_lines(cfg@));
}

/// Appends the lines about the endpoints and about authentication.
fn add_access(lines: &mut Vec<String>, cfg: &Config)
    ensures
        texts(final(lines)@) == texts(old(lines)@) + endpoint_lines(cfg@.endpoints) + auth_lines(
            cfg@.auth,
        ),
{
    let ghost before = texts(lines@);
    if !cfg.endpoints.parent.as_str().is_empty() {
        add_text(lines, "endpoints:".to_owned());
        add_text(lines, concat("  base-path: ", cfg.endpoints.parent.as_str()));
        add_text(lines, concat("  index    : ", cfg.endpoints.index.as_str()));
        add_text(lines, concat("  token    : ", cfg.endpoints.token.as_str()));
        add_text(lines, concat("  websocket: ", cfg.endpoints.ws.as_str()));
    }
    assert(texts(lines@) =~= before + endpoint_lines(cfg@.endpoints));
    let ghost middle = texts(lines@);
    match &cfg.auth {
        AuthMode::TrustedHeader { header } => {
            add_text(lines, concat("  auth header: ", header.as_str()));
        },
        AuthMode::Forward(f) => {
            let mut target = concat3("  forward auth: ", f.method.as_str(), " ");
            target.append(f.url.as_str());
            add_text(lines, target);
            let names = join_texts(&f.effective_request_headers(), ", ");
            add_text(lines, concat("  forward auth headers: ", names.as_str()));
            add_text(lines, concat("  forward auth user header: ", f.user_header.as_str()));
            let ttl = write_decimal(f.cache_ttl);
            add_if(lines, f.cache_ttl > 0, concat3("  forward auth cache: ", ttl.as_str(), "s"));
        },
        _ => {},
    }
    assert(texts(lines@) =~= middle + auth_lines(cfg@.auth));
}

/// An optional text behind a label.
pub open spec fn labelled(label: Seq<char>, text: Option<Seq<char>>) -> Seq<Seq<char>> {
    match text {
        Some(text) => seq![label + text],
        None => Seq::empty(),
    }
}

/// Appends an optional text behind a label.
fn add_labelled(lines: &mut Vec<String>, label: &str, text: &Option<String>)
    ensures
        texts(final(lines)@) == texts(old(lines)@) + labelled(label@, opt_text(*text)),
{
    let ghost before = texts(lines@);
    match text {
        Some(text) => {
            add_text(lines, concat(label, text.as_str()));
        },
        None => {},
    }
    assert(texts(lines@) =~= before + labelled(label@, opt_text(*text)));
}

/// Appends the lines about what was switched on.
fn add_switches(lines: &mut Vec<String>, cfg: &Config)
    ensures
        texts(final(lines)@) == texts(old(lines)@) + switch_lines(cfg@),
{
    let mut more: Vec<String> = Vec::new();
    assert(texts(more@) =~= Seq::empty());
    add_if(&mut more, cfg.check_origin, "  check origin: true".to_owned());
    assert(texts(more@) =~= line_if(cfg.check_origin, "  check origin: true"@));
    add_if(&mut more, cfg.url_arg, "  allow url arg: true".to_owned());
    let max = write_decimal(cfg.max_clients as u64);
    add_if(&mut more, cfg.max_clients > 0, concat("  max clients: ", max.as_str()));
    add_if(&mut more, cfg.once, "  once: true".to_owned());
    add_if(&mut more, cfg.exit_no_conn, "  exit_no_conn: true".to_owned());
    add_labelled(&mut more, "  custom index.html: ", &cfg.index);
    add_labelled(&mut more, "  working directory: ", &cfg.cwd);
    assert(texts(more@) == switch_lines(cfg@));
    append_texts(lines, more);
}

/// The summary of a configuration, line by line.
pub fn config_summary(cfg: &Config) -> (r: Vec<String>)
    ensures
        texts(r@) == summary(cfg@),
{
    let mut lines: Vec<String> = Vec::new();
    assert(texts(lines@) =~= Seq::empty());
    add_command(&mut lines, cfg);
    assert(texts(lines@) =~= command_lines(cfg@));
    add_access(&mut lines, cfg);
    add_switches(&mut lines, cfg);
    lines
}

/// The summary says that there is a credential and nothing about what it is: two configurations
/// that differ only in their credential have the same summary.
pub proof fn law_summary_hides_the_credential(cfg: ConfigView, other: Seq<char>)
    requires
        cfg.auth is Basic,
    ensures
        summary(cfg) == summary(
            ConfigView { auth: AuthModeView::Basic { credential: other }, ..cfg },
        ),
{
}

/// A line stands in two lists, one behind the other, exactly if it stands in one of them.
proof fn lemma_joined(a: Seq<Seq<char>>, b: Seq<Seq<char>>, line: Seq<char>)
    ensures
        (a + b).contains(line) <==> a.contains(line) || b.contains(line),
{
    if a.contains(line) {
        let i = choose|i: int| 0 <= i < a.len() && a[i] == line;
        assert((a + b)[i] == line);
    }
    if b.contains(line) {
        let i = choose|i: int| 0 <= i < b.len() && b[i] == line;
        assert((a + b)[a.len() + i] == line);
    }
    if (a + b).contains(line) {
        let i = choose|i: int| 0 <= i < (a + b).len() && (a + b)[i] == line;
        if i < a.len() {
            assert(a[i] == line);
        } else {
            assert(b[i - a.len()] == line);
        }
    }
}

/// A single line.
proof fn lemma_single(only: Seq<char>, line: Seq<char>)
    ensures
        seq![only].contains(line) <==> only == line,
{
    assert(seq![only][0] == only);
}

/// The summary says what is run and how it is ended, always.
#[verifier::rlimit(40)]
pub proof fn law_the_summary_names_the_command(cfg: ConfigView)
    ensures
        summary(cfg).contains("  start command: "@ + cfg.command),
        summary(cfg).contains(
            "  close signal: "@ + cfg.sig_name + " ("@ + signed_decimal(cfg.sig_code as int) + ")"@,
        ),
        summary(cfg).contains("  terminal type: "@ + cfg.terminal_type),
        cfg.title matches Some(title) ==> summary(cfg).contains("  window title: "@ + title),
{
    let a = seq!["tty configuration:"@] + line_if(
        cfg.auth is Basic,
        "  credential: (basic auth enabled)"@,
    );
    let lines = summary(cfg);
    let k = a.len() as int;
    assert(lines[k] == "  start command: "@ + cfg.command);
    assert(lines[k + 1] == "  close signal: "@ + cfg.sig_name + " ("@ + signed_decimal(
        cfg.sig_code as int,
    ) + ")"@);
    assert(lines[k + 2] == "  terminal type: "@ + cfg.terminal_type);
    match cfg.title {
        Some(title) => {
            assert(lines[k + 3] == "  window title: "@ + title);
        },
        None => {},
    }
}

/// What holds of the lines about what was switched on.
#[verifier::rlimit(40)]
proof fn lemma_switch_lines(cfg: ConfigView, line: Seq<char>)
    ensures
        switch_lines(cfg).contains(line) <==> {
            ||| cfg.check_origin && line == "  check origin: true"@
            ||| cfg.url_arg && line == "  allow url arg: true"@
            ||| cfg.max_clients > 0 && line == "  max clients: "@ + decimal(cfg.max_clients as nat)
            ||| cfg.once && line == "  once: true"@
            ||| cfg.exit_no_conn && line == "  exit_no_conn: true"@
            ||| (cfg.index matches Some(path) && line == "  custom index.html: "@ + path)
            ||| (cfg.cwd matches Some(path) && line == "  working directory: "@ + path)
        },
{
    let a = line_if(cfg.check_origin, "  check origin: true"@);
    let b = line_if(cfg.url_arg, "  allow url arg: true"@);
    let max = "  max clients: "@ + decimal(cfg.max_clients as nat);
    let c = line_if(cfg.max_clients > 0, max);
    let d = line_if(cfg.once, "  once: true"@);
    let e = line_if(cfg.exit_no_conn, "  exit_no_conn: true"@);
    let f = labelled("  custom index.html: "@, cfg.index);
    let g = labelled("  working directory: "@, cfg.cwd);
    lemma_single("  check origin: true"@, line);
    lemma_single("  allow url arg: true"@, line);
    lemma_single(max, line);
    lemma_single("  once: true"@, line);
    lemma_single("  exit_no_conn: true"@, line);
    match cfg.index {
        Some(path) => {
            lemma_single("  custom index.html: "@ + path, line);
        },
        None => {},
    }
    match cfg.cwd {
        Some(path) => {
            lemma_single("  working directory: "@ + path, line);
        },
        None => {},
    }
    lemma_joined(a, b, line);
    lemma_joined(a + b, c, line);
    lemma_joined(a + b + c, d, line);
    lemma_joined(a + b + c + d, e, line);
    lemma_joined(a + b + c + d + e, f, line);
    lemma_joined(a + b + c + d + e + f, g, line);
}

/// The summary says of everything that was switched on that it is: who may connect, how often, and where
/// the page and the command come from.
#[verifier::rlimit(40)]
pub proof fn law_the_summary_names_what_is_on(cfg: ConfigView)
    ensures
        ({
            let lines = summary(cfg);
            &&& cfg.auth is Basic ==> lines.contains("  credential: (basic auth enabled)"@)
            &&& cfg.check_origin ==> lines.contains("  check origin: true"@)
            &&& cfg.url_arg ==> lines.contains("  allow url arg: true"@)
            &&& cfg.max_clients > 0 ==> lines.contains(
                "  max clients: "@ + decimal(cfg.max_clients as nat),
            )
            &&& cfg.once ==> lines.contains("  once: true"@)
            &&& cfg.exit_no_conn ==> lines.contains("  exit_no_conn: true"@)
            &&& cfg.index matches Some(path) ==> lines.contains("  custom index.html: "@ + path)
            &&& cfg.cwd matches Some(path) ==> lines.contains("  working directory: "@ + path)
        }),
{
    if cfg.auth is Basic {
        assert(summary(cfg)[1] == "  credential: (basic auth enabled)"@);
    }
    lemma_switch_shown(cfg, "  check origin: true"@);
    lemma_switch_shown(cfg, "  allow url arg: true"@);
    lemma_switch_shown(cfg, "  max clients: "@ + decimal(cfg.max_clients as nat));
    lemma_switch_shown(cfg, "  once: true"@);
    lemma_switch_shown(cfg, "  exit_no_conn: true"@);
    match cfg.index {
        Some(path) => {
            lemma_switch_shown(cfg, "  custom index.html: "@ + path);
        },
        None => {},
    }
    match cfg.cwd {
        Some(path) => {
            lemma_switch_shown(cfg, "  working directory: "@ + path);
        },
        None => {},
    }
}

/// The lines about what was switched on stand in the summary.
proof fn lemma_switch_shown(cfg: ConfigView, line: Seq<char>)
    ensures
        switch_lines(cfg).contains(line) ==> summary(cfg).contains(line),
        switch_lines(cfg).contains(line) <==> {
            ||| cfg.check_origin && line == "  check origin: true"@
            ||| cfg.url_arg && line == "  allow url arg: true"@
            ||| cfg.max_clients > 0 && line == "  max clients: "@ + decimal(cfg.max_clients as nat)
            ||| cfg.once && line == "  once: true"@
            ||| cfg.exit_no_conn && line == "  exit_no_conn: true"@
            ||| (cfg.index matches Some(path) && line == "  custom index.html: "@ + path)
            ||| (cfg.cwd matches Some(path) && line == "  working directory: "@ + path)
        },
{
    lemma_switch_lines(cfg, line);
    lemma_joined(
        command_lines(cfg) + endpoint_lines(cfg.endpoints) + auth_lines(cfg.auth),
        switch_lines(cfg),
        line,
    );
}

/// The summary says where the server is to be found, when that is not at the root, and who decides on its
/// requests, when that is not a credential.
#[verifier::rlimit(40)]
pub proof fn law_the_summary_names_paths_and_authentication(cfg: ConfigView)
    ensures
        ({
            let lines = summary(cfg);
            &&& cfg.endpoints.parent.len() > 0 ==> {
                &&& lines.contains("  base-path: "@ + cfg.endpoints.parent)
                &&& lines.contains("  index    : "@ + cfg.endpoints.index)
                &&& lines.contains("  token    : "@ + cfg.endpoints.token)
                &&& lines.contains("  websocket: "@ + cfg.endpoints.ws)
            }
            &&& cfg.auth matches AuthModeView::TrustedHeader { header } ==> lines.contains(
                "  auth header: "@ + header,
            )
            &&& cfg.auth matches AuthModeView::Forward(f) ==> {
                &&& lines.contains("  forward auth: "@ + f.method + " "@ + f.url)
                &&& lines.contains(
                    "  forward auth headers: "@ + join(
                        forwarded_header_names(f.request_headers),
                        ", "@,
                    ),
                )
                &&& lines.contains("  forward auth user header: "@ + f.user_header)
                &&& f.cache_ttl > 0 ==> lines.contains(
                    "  forward auth cache: "@ + decimal(f.cache_ttl as nat) + "s"@,
                )
            }
        }),
{
    let lines = summary(cfg);
    let a = command_lines(cfg).len() as int;
    let b = a + endpoint_lines(cfg.endpoints).len();
    if cfg.endpoints.parent.len() > 0 {
        assert(lines[a + 1] == "  base-path: "@ + cfg.endpoints.parent);
        assert(lines[a + 2] == "  index    : "@ + cfg.endpoints.index);
        assert(lines[a + 3] == "  token    : "@ + cfg.endpoints.token);
        assert(lines[a + 4] == "  websocket: "@ + cfg.endpoints.ws);
    }
    match cfg.auth {
        AuthModeView::TrustedHeader { header } => {
            assert(lines[b] == "  auth header: "@ + header);
        },
        AuthModeView::Forward(f) => {
            assert(lines[b] == "  forward auth: "@ + f.method + " "@ + f.url);
            assert(lines[b + 1] == "  forward auth headers: "@ + join(
                forwarded_header_names(f.request_headers),
                ", "@,
            ));
            assert(lines[b + 2] == "  forward auth user header: "@ + f.user_header);
            if f.cache_ttl > 0 {
                assert(lines[b + 3] == "  forward auth cache: "@ + decimal(f.cache_ttl as nat) + "s"@);
            }
        },
        _ => {},
    }
}

/// One for what is there, none for what is not.
pub open spec fn one_if(there: bool) -> int {
    if there {
        1
    } else {
        0
    }
}

/// How many lines there are about the command.
proof fn lemma_command_count(cfg: ConfigView)
    ensures
        command_lines(cfg).len() == 4 + one_if(cfg.auth is Basic) + one_if(cfg.title is Some),
{
}

/// How many lines there are about authentication other than by a credential.
proof fn lemma_auth_count(auth: AuthModeView)
    ensures
        auth_lines(auth).len() == one_if(auth is TrustedHeader) + 3 * one_if(auth is Forward) + one_if(
            auth matches AuthModeView::Forward(f) && f.cache_ttl > 0,
        ),
{
}

/// How many lines there are about what was switched on.
proof fn lemma_switch_count(cfg: ConfigView)
    ensures
        switch_lines(cfg).len() == one_if(cfg.check_origin) + one_if(cfg.url_arg) + one_if(
            cfg.max_clients > 0,
        ) + one_if(cfg.once) + one_if(cfg.exit_no_conn) + one_if(cfg.index is Some) + one_if(
            cfg.cwd is Some,
        ),
{
    let a = line_if(cfg.check_origin, "  check origin: true"@);
    let b = line_if(cfg.url_arg, "  allow url arg: true"@);
    let c = line_if(cfg.max_clients > 0, "  max clients: "@ + decimal(cfg.max_clients as nat));
    let d = line_if(cfg.once, "  once: true"@);
    let e = line_if(cfg.exit_no_conn, "  exit_no_conn: true"@);
    let f = labelled("  custom index.html: "@, cfg.index);
    let g = labelled("  working directory: "@, cfg.cwd);
    assert(a.len() == one_if(cfg.check_origin));
    assert(b.len() == one_if(cfg.url_arg));
    assert(c.len() == one_if(cfg.max_clients > 0));
    assert(d.len() == one_if(cfg.once));
    assert(e.len() == one_if(cfg.exit_no_conn));
    assert(f.len() == one_if(cfg.index is Some));
    assert(g.len() == one_if(cfg.cwd is Some));
    assert(switch_lines(cfg) == a + b + c + d + e + f + g);
}

/// The summary has a line for each thing that it says and no other.
#[verifier::rlimit(40)]
pub proof fn law_the_summary_says_nothing_else(cfg: ConfigView)
    ensures
        summary(cfg).len() == 4 + one_if(cfg.auth is Basic) + one_if(cfg.title is Some) + 5 * one_if(
            cfg.endpoints.parent.len() > 0,
        ) + one_if(cfg.auth is TrustedHeader) + 3 * one_if(cfg.auth is Forward) + one_if(
            cfg.auth matches AuthModeView::Forward(f) && f.cache_ttl > 0,
        ) + one_if(cfg.check_origin) + one_if(cfg.url_arg) + one_if(cfg.max_clients > 0) + one_if(
            cfg.once,
        ) + one_if(cfg.exit_no_conn) + one_if(cfg.index is Some) + one_if(cfg.cwd is Some),
{
    lemma_command_count(cfg);
    lemma_switch_count(cfg);
    assert(endpoint_lines(cfg.endpoints).len() == 5 * one_if(cfg.endpoints.parent.len() > 0));
    lemma_auth_count(cfg.auth);
}

} // verus!
