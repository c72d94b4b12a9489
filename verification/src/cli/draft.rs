//! What each option does to the configuration while the command line is read.

use crate::cli::config::{Config, ConfigView, default_config};
use crate::cli::help::{help_for, help_text};
use crate::cli::options::Opt;
use crate::cli::values::{
    credential_for, credential_of, integer_value, is_auth_url, is_http_method, is_http_url,
    is_method, parse_int, truncate, truncated, uri_parts,
};
use crate::jsonc::{Json, JsonView, fields_view, json_value, read_json, set_field, with_field};
use crate::number::{decimal, write_decimal};
use crate::text::{
    add_text, chars_of, concat, concat3, find, find_char, opt_text, same_text, split_once, string_of,
    texts, upper, upper_text,
};
use crate::utils::{System, get_sig_name_on, get_sig_on, sig_label, signal_number};
use vstd::prelude::*;
use vstd::utf8::encode_utf8;

verus! {

/// The most bytes of an interface name that are kept.
pub const MAX_IFACE: usize = 127;

/// The most bytes of a socket owner that are kept.
pub const MAX_SOCKET_OWNER: usize = 127;

/// The most bytes of a terminal type that are kept.
pub const MAX_TERMINAL_TYPE: usize = 29;

/// The most bytes of a base path that are kept.
pub const MAX_BASE_PATH: usize = 127;

/// The most bytes of a certificate or key path that are kept.
pub const MAX_SSL_PATH: usize = 1023;

/// The largest send buffer. The buffer is allocated once per session, so it has to be bounded.
pub const MAX_SRV_BUF_SIZE: u64 = 16_777_216;

/// What stands at a path.
pub enum PathProbe {
    /// Nothing that can be looked at, for the given reason.
    Missing { error: String },
    Directory,
    File,
}

/// What a probe of a path holds.
#[verifier::ext_equal]
pub enum PathProbeView {
    Missing { error: Seq<char> },
    Directory,
    File,
}

impl View for PathProbe {
    type V = PathProbeView;

    open spec fn view(&self) -> PathProbeView {
        match self {
            PathProbe::Missing { error } => PathProbeView::Missing { error: error@ },
            PathProbe::Directory => PathProbeView::Directory,
            PathProbe::File => PathProbeView::File,
        }
    }
}

/// What the command line is read against: the version that the program reports, the system that it
/// runs on, the home directory and the paths that were looked at.
pub struct ParseEnvironment {
    pub version: String,
    pub system: System,
    pub home: Option<String>,
    pub probes: Vec<(String, PathProbe)>,
}

/// What an environment holds.
#[verifier::ext_equal]
pub struct EnvironmentView {
    pub version: Seq<char>,
    pub system: System,
    pub home: Option<Seq<char>>,
    pub probes: Seq<(Seq<char>, PathProbeView)>,
}

impl View for ParseEnvironment {
    type V = EnvironmentView;

    open spec fn view(&self) -> EnvironmentView {
        EnvironmentView {
            version: self.version@,
            system: self.system,
            home: opt_text(self.home),
            probes: self.probes@.map_values(|p: (String, PathProbe)| (p.0@, p.1@)),
        }
    }
}

/// What the first probe of a path found. A path that was not looked at counts as missing.
pub open spec fn probe(probes: Seq<(Seq<char>, PathProbeView)>, path: Seq<char>) -> PathProbeView
    decreases probes.len(),
{
    if probes.len() == 0 {
        PathProbeView::Missing { error: "not looked at"@ }
    } else if probes[0].0 == path {
        probes[0].1
    } else {
        probe(probes.drop_first(), path)
    }
}

/// A path with a leading `~/` replaced by the home directory, where there is one.
pub open spec fn expanded_path(path: Seq<char>, home: Option<Seq<char>>) -> Seq<char> {
    if path.len() >= 2 && path[0] == '~' && path[1] == '/' && home is Some {
        home->0 + "/"@ + path.skip(2)
    } else {
        path
    }
}

/// The configuration as far as the options have been read, with what is put together only at the
/// end.
pub struct Draft {
    pub cfg: Config,
    pub prefs: Vec<(String, Json)>,
    pub credential: Option<String>,
    pub auth_header: Option<String>,
    pub auth_url: Option<String>,
    pub auth_method: Option<String>,
    pub auth_user_header: Option<String>,
    pub auth_cache_ttl: Option<u64>,
    pub auth_request_headers: Vec<String>,
    pub base_path: Option<String>,
}

/// What a draft holds.
#[verifier::ext_equal]
pub struct DraftView {
    pub cfg: ConfigView,
    pub prefs: Seq<(Seq<char>, JsonView)>,
    pub credential: Option<Seq<char>>,
    pub auth_header: Option<Seq<char>>,
    pub auth_url: Option<Seq<char>>,
    pub auth_method: Option<Seq<char>>,
    pub auth_user_header: Option<Seq<char>>,
    pub auth_cache_ttl: Option<u64>,
    pub auth_request_headers: Seq<Seq<char>>,
    pub base_path: Option<Seq<char>>,
}

impl View for Draft {
    type V = DraftView;

    open spec fn view(&self) -> DraftView {
        DraftView {
            cfg: self.cfg@,
            prefs: fields_view(self.prefs@),
            credential: opt_text(self.credential),
            auth_header: opt_text(self.auth_header),
            auth_url: opt_text(self.auth_url),
            auth_method: opt_text(self.auth_method),
            auth_user_header: opt_text(self.auth_user_header),
            auth_cache_ttl: self.auth_cache_ttl,
            auth_request_headers: texts(self.auth_request_headers@),
            base_path: opt_text(self.base_path),
        }
    }
}

/// The draft before any option was read.
pub open spec fn empty_draft() -> DraftView {
    DraftView {
        cfg: default_config(),
        prefs: Seq::empty(),
        credential: None,
        auth_header: None,
        auth_url: None,
        auth_method: None,
        auth_user_header: None,
        auth_cache_ttl: None,
        auth_request_headers: Seq::empty(),
        base_path: None,
    }
}

impl Draft {
    /// The draft before any option was read.
    pub fn new() -> (r: Draft)
        ensures
            r@ == empty_draft(),
    {
        let r = Draft {
            cfg: Config::default(),
            prefs: Vec::new(),
            credential: None,
            auth_header: None,
            auth_url: None,
            auth_method: None,
            auth_user_header: None,
            auth_cache_ttl: None,
            auth_request_headers: Vec::new(),
            base_path: None,
        };
        assert(texts(r.auth_request_headers@) =~= Seq::empty());
        r
    }
}

/// What an option does: the draft goes on, with remarks, or the process ends with a status after
/// the given lines on the standard output and the standard error.
#[verifier::ext_equal]
pub enum Effect {
    Next { draft: DraftView, notes: Seq<Seq<char>> },
    Exit { code: i32, out: Seq<Seq<char>>, err: Seq<Seq<char>> },
}

/// The draft goes on without a remark.
pub open spec fn goes_on(draft: DraftView) -> Effect {
    Effect::Next { draft, notes: Seq::empty() }
}

/// The process ends after one line on the standard error.
pub open spec fn refuses(code: i32, message: Seq<char>) -> Effect {
    Effect::Exit { code, out: Seq::empty(), err: seq![message] }
}

/// An integer, or zero when it is negative.
pub open spec fn at_least_zero(v: int) -> int {
    if v < 0 {
        0
    } else {
        v
    }
}

/// What an option without a value does.
pub open spec fn flag_effect(d: DraftView, opt: Opt, version: Seq<char>) -> Effect {
    match opt {
        Opt::Help => Effect::Exit { code: 0, out: Seq::empty(), err: seq![help_for(version)] },
        Opt::Version => Effect::Exit {
            code: 0,
            out: seq!["ttyd version "@ + version],
            err: Seq::empty(),
        },
        Opt::UrlArg => goes_on(DraftView { cfg: ConfigView { url_arg: true, ..d.cfg }, ..d }),
        Opt::Writable => goes_on(DraftView { cfg: ConfigView { writable: true, ..d.cfg }, ..d }),
        Opt::CheckOrigin => goes_on(
            DraftView { cfg: ConfigView { check_origin: true, ..d.cfg }, ..d },
        ),
        Opt::Once => goes_on(DraftView { cfg: ConfigView { once: true, ..d.cfg }, ..d }),
        Opt::ExitNoConn => goes_on(
            DraftView { cfg: ConfigView { exit_no_conn: true, ..d.cfg }, ..d },
        ),
        Opt::Browser => goes_on(DraftView { cfg: ConfigView { browser: true, ..d.cfg }, ..d }),
        Opt::Ipv6 => goes_on(DraftView { cfg: ConfigView { ipv6: true, ..d.cfg }, ..d }),
        Opt::Ssl => goes_on(DraftView { cfg: ConfigView { ssl: true, ..d.cfg }, ..d }),
        _ => goes_on(d),
    }
}

/// The name under which a value that is no integer is reported.
pub open spec fn number_name(opt: Opt) -> Seq<char> {
    match opt {
        Opt::Debug => "debug"@,
        Opt::MaxClients => "max-clients"@,
        Opt::Port => "port"@,
        Opt::Uid => "uid"@,
        Opt::Gid => "gid"@,
        Opt::PingInterval => "ping-interval"@,
        Opt::SrvBufSize => "srv-buf-size"@,
        _ => "auth-cache-ttl"@,
    }
}

/// What a send buffer size does. Zero leaves the size alone, and a size beyond the largest is cut
/// down with a remark.
pub open spec fn buffer_effect(d: DraftView, v: int, arg: Seq<char>) -> Effect {
    if v < 0 {
        refuses(255, "ttyd: invalid srv-buf-size: "@ + arg)
    } else if v == 0 {
        goes_on(d)
    } else if v > MAX_SRV_BUF_SIZE {
        Effect::Next {
            draft: DraftView {
                cfg: ConfigView { srv_buf_size: MAX_SRV_BUF_SIZE as usize, ..d.cfg },
                ..d
            },
            notes: seq![buffer_warning(v)],
        }
    } else {
        goes_on(DraftView { cfg: ConfigView { srv_buf_size: v as usize, ..d.cfg }, ..d })
    }
}

/// What an option with the integer `v` does.
pub open spec fn integer_effect(d: DraftView, opt: Opt, v: int, arg: Seq<char>) -> Effect {
    match opt {
        Opt::Debug => goes_on(
            DraftView { cfg: ConfigView { debug_level: v as i32, ..d.cfg }, ..d },
        ),
        Opt::MaxClients => goes_on(
            DraftView {
                cfg: ConfigView { max_clients: at_least_zero(v) as usize, ..d.cfg },
                ..d
            },
        ),
        Opt::Port => if 0 <= v <= 65535 {
            goes_on(DraftView { cfg: ConfigView { port: v as u16, ..d.cfg }, ..d })
        } else {
            refuses(255, "ttyd: invalid port: "@ + arg)
        },
        Opt::Uid => goes_on(
            DraftView { cfg: ConfigView { uid: Some(at_least_zero(v) as u32), ..d.cfg }, ..d },
        ),
        Opt::Gid => goes_on(
            DraftView { cfg: ConfigView { gid: Some(at_least_zero(v) as u32), ..d.cfg }, ..d },
        ),
        Opt::PingInterval => if v < 0 {
            refuses(255, "ttyd: invalid ping interval: "@ + arg)
        } else {
            goes_on(DraftView { cfg: ConfigView { ping_interval: v as u64, ..d.cfg }, ..d })
        },
        Opt::SrvBufSize => buffer_effect(d, v, arg),
        Opt::AuthCacheTtl => goes_on(
            DraftView { auth_cache_ttl: Some(at_least_zero(v) as u64), ..d },
        ),
        _ => goes_on(d),
    }
}

/// What an option whose value is to be an integer does.
pub open spec fn number_effect(d: DraftView, opt: Opt, arg: Seq<char>) -> Effect {
    match integer_value(arg) {
        Some(v) => integer_effect(d, opt, v, arg),
        None => refuses(1, "ttyd: invalid value for "@ + number_name(opt) + ": "@ + arg),
    }
}

/// The remark that a send buffer was cut down.
pub open spec fn buffer_warning(size: int) -> Seq<char> {
    "ttyd: srv-buf-size "@ + decimal(size as nat) + " is above the "@ + decimal(
        MAX_SRV_BUF_SIZE as nat,
    ) + " byte maximum, using "@ + decimal(MAX_SRV_BUF_SIZE as nat)
}

/// What an option with any other value does.
pub open spec fn text_effect(d: DraftView, opt: Opt, arg: Seq<char>, env: EnvironmentView) -> Effect {
    match opt {
        Opt::Interface => goes_on(
            DraftView {
                cfg: ConfigView { iface: Some(truncated(arg, MAX_IFACE as int)), ..d.cfg },
                ..d
            },
        ),
        Opt::SocketOwner => goes_on(
            DraftView {
                cfg: ConfigView {
                    socket_owner: Some(truncated(arg, MAX_SOCKET_OWNER as int)),
                    ..d.cfg
                },
                ..d
            },
        ),
        Opt::Credential => if find(arg, ':') < arg.len() {
            goes_on(DraftView { credential: Some(credential_for(arg)), ..d })
        } else {
            refuses(255, "ttyd: invalid credential, format: username:password"@)
        },
        Opt::AuthHeader => goes_on(DraftView { auth_header: Some(arg), ..d }),
        Opt::Signal => {
            let sig = signal_number(env.system, arg);
            if sig > 0 {
                goes_on(
                    DraftView {
                        cfg: ConfigView {
                            sig_code: sig as i32,
                            sig_name: "SIG"@ + upper(sig_label(env.system, sig)),
                            ..d.cfg
                        },
                        ..d
                    },
                )
            } else {
                refuses(255, "ttyd: invalid signal: "@ + arg)
            }
        },
        Opt::Cwd => goes_on(DraftView { cfg: ConfigView { cwd: Some(arg), ..d.cfg }, ..d }),
        Opt::Index => {
            let path = expanded_path(arg, env.home);
            match probe(env.probes, path) {
                PathProbeView::Missing { error } => refuses(
                    255,
                    "Can not stat index.html: "@ + path + ", error: "@ + error,
                ),
                PathProbeView::Directory => refuses(
                    255,
                    "Invalid index.html path: "@ + path + ", is it a dir?"@,
                ),
                PathProbeView::File => goes_on(
                    DraftView { cfg: ConfigView { index: Some(path), ..d.cfg }, ..d },
                ),
            }
        },
        Opt::BasePath => goes_on(
            DraftView { base_path: Some(truncated(arg, MAX_BASE_PATH as int)), ..d },
        ),
        Opt::SslCert => goes_on(
            DraftView {
                cfg: ConfigView { ssl_cert: Some(truncated(arg, MAX_SSL_PATH as int)), ..d.cfg },
                ..d
            },
        ),
        Opt::SslKey => goes_on(
            DraftView {
                cfg: ConfigView { ssl_key: Some(truncated(arg, MAX_SSL_PATH as int)), ..d.cfg },
                ..d
            },
        ),
        Opt::SslCa => goes_on(
            DraftView {
                cfg: ConfigView { ssl_ca: Some(truncated(arg, MAX_SSL_PATH as int)), ..d.cfg },
                ..d
            },
        ),
        Opt::TerminalType => goes_on(
            DraftView {
                cfg: ConfigView {
                    terminal_type: truncated(arg, MAX_TERMINAL_TYPE as int),
                    ..d.cfg
                },
                ..d
            },
        ),
        Opt::Title => goes_on(DraftView { cfg: ConfigView { title: Some(arg), ..d.cfg }, ..d }),
        Opt::ClientOption => match split_once(arg, '=') {
            Some((key, raw)) => goes_on(
                DraftView { prefs: with_field(d.prefs, key, preference(raw)), ..d },
            ),
            None => refuses(
                255,
                "ttyd: invalid client option: "@ + arg + ", format: key=value"@,
            ),
        },
        Opt::AuthUrl => if is_http_url(uri_parts(arg)) {
            goes_on(DraftView { auth_url: Some(arg), ..d })
        } else {
            refuses(255, "ttyd: invalid auth-url: "@ + arg)
        },
        Opt::AuthRequestHeader => goes_on(
            DraftView { auth_request_headers: d.auth_request_headers.push(arg), ..d },
        ),
        Opt::AuthUserHeader => goes_on(DraftView { auth_user_header: Some(arg), ..d }),
        Opt::AuthMethod => if is_method(encode_utf8(upper(arg))) {
            goes_on(DraftView { auth_method: Some(upper(arg)), ..d })
        } else {
            refuses(255, "ttyd: invalid auth-method: "@ + arg)
        },
        _ => goes_on(d),
    }
}

/// The value of a client option: the JSON that its text is, or else the text itself.
pub open spec fn preference(raw: Seq<char>) -> JsonView {
    match json_value(raw) {
        Some(value) => value,
        None => JsonView::Text(raw),
    }
}

/// The options whose value is an integer.
pub open spec fn takes_number(opt: Opt) -> bool {
    match opt {
        Opt::Debug => true,
        Opt::MaxClients => true,
        Opt::Port => true,
        Opt::Uid => true,
        Opt::Gid => true,
        Opt::PingInterval => true,
        Opt::SrvBufSize => true,
        Opt::AuthCacheTtl => true,
        _ => false,
    }
}

/// What an option does to the draft.
pub open spec fn effect(d: DraftView, opt: Opt, arg: Seq<char>, env: EnvironmentView) -> Effect {
    if !crate::cli::options::takes_value(opt) {
        flag_effect(d, opt, env.version)
    } else if takes_number(opt) {
        number_effect(d, opt, arg)
    } else {
        text_effect(d, opt, arg, env)
    }
}

/// What happened matches an effect: how the draft, the standard output and the standard error
/// went from `before` to `after`, and the status to end with.
pub open spec fn happened(
    e: Effect,
    code: Option<i32>,
    draft: DraftView,
    out_before: Seq<Seq<char>>,
    out_after: Seq<Seq<char>>,
    err_before: Seq<Seq<char>>,
    err_after: Seq<Seq<char>>,
) -> bool {
    match e {
        Effect::Next { draft: d, notes } => {
            &&& code is None
            &&& draft == d
            &&& out_after == out_before
            &&& err_after == err_before + notes
        },
        Effect::Exit { code: c, out, err } => {
            &&& code == Some(c)
            &&& out_after == out_before + out
            &&& err_after == err_before + err
        },
    }
}

/// Reports on the standard error.
fn complain(err: &mut Vec<String>, message: String)
    ensures
        texts(final(err)@) == texts(old(err)@) + seq![message@],
{
    let ghost before = texts(err@);
    add_text(err, message);
    assert(texts(err@) =~= before + seq![message@]);
}

/// Applies an option without a value. The result is the status to end with, if the process ends.
fn apply_flag(
    draft: &mut Draft,
    opt: Opt,
    version: &str,
    out: &mut Vec<String>,
    err: &mut Vec<String>,
) -> (r: Option<i32>)
    ensures
        happened(
            flag_effect(old(draft)@, opt, version@),
            r,
            final(draft)@,
            texts(old(out)@),
            texts(final(out)@),
            texts(old(err)@),
            texts(final(err)@),
        ),
{
    proof {
        assert(texts(err@) + Seq::empty() =~= texts(err@));
        assert(texts(out@) + Seq::empty() =~= texts(out@));
    }
    match opt {
        Opt::Help => {
            complain(err, help_text(version));
            return Some(0);
        },
        Opt::Version => {
            complain(out, concat("ttyd version ", version));
            return Some(0);
        },
        Opt::UrlArg => {
            draft.cfg.url_arg = true;
        },
        Opt::Writable => {
            draft.cfg.writable = true;
        },
        Opt::CheckOrigin => {
            draft.cfg.check_origin = true;
        },
        Opt::Once => {
            draft.cfg.once = true;
        },
        Opt::ExitNoConn => {
            draft.cfg.exit_no_conn = true;
        },
        Opt::Browser => {
            draft.cfg.browser = true;
        },
        Opt::Ipv6 => {
            draft.cfg.ipv6 = true;
        },
        Opt::Ssl => {
            draft.cfg.ssl = true;
        },
        _ => {},
    }
    None
}

/// An integer, or zero when it is negative.
fn not_below_zero(v: i64) -> (r: i64)
    ensures
        r == at_least_zero(v as int),
{
    if v < 0 {
        0
    } else {
        v
    }
}

/// Applies a send buffer size. The result is the status to end with, if the process ends.
fn apply_buffer(draft: &mut Draft, v: i64, arg: &str, err: &mut Vec<String>) -> (r: Option<i32>)
    ensures
        happened(
            buffer_effect(old(draft)@, v as int, arg@),
            r,
            final(draft)@,
            Seq::empty(),
            Seq::empty(),
            texts(old(err)@),
            texts(final(err)@),
        ),
{
    proof {
        assert(texts(err@) + Seq::empty() =~= texts(err@));
        assert(Seq::<Seq<char>>::empty() + Seq::<Seq<char>>::empty() =~= Seq::<Seq<char>>::empty());
    }
    if v < 0 {
        complain(err, concat("ttyd: invalid srv-buf-size: ", arg));
        return Some(255);
    }
    if v as u64 > MAX_SRV_BUF_SIZE {
        let size = write_decimal(v as u64);
        let max = write_decimal(MAX_SRV_BUF_SIZE);
        let mut note = concat3("ttyd: srv-buf-size ", size.as_str(), " is above the ");
        note.append(max.as_str());
        note.append(" byte maximum, using ");
        note.append(max.as_str());
        complain(err, note);
        draft.cfg.srv_buf_size = MAX_SRV_BUF_SIZE as usize;
    } else if v > 0 {
        draft.cfg.srv_buf_size = v as usize;
    }
    None
}

/// The name under which a value that is no integer is reported.
fn name_of_number(opt: Opt) -> (r: &'static str)
    ensures
        r@ == number_name(opt),
{
    match opt {
        Opt::Debug => "debug",
        Opt::MaxClients => "max-clients",
        Opt::Port => "port",
        Opt::Uid => "uid",
        Opt::Gid => "gid",
        Opt::PingInterval => "ping-interval",
        Opt::SrvBufSize => "srv-buf-size",
        _ => "auth-cache-ttl",
    }
}

/// Applies an option with the integer `v`. The result is the status to end with, if the process
/// ends.
fn apply_integer(draft: &mut Draft, opt: Opt, v: i64, arg: &str, err: &mut Vec<String>) -> (r: Option<
    i32,
>)
    ensures
        happened(
            integer_effect(old(draft)@, opt, v as int, arg@),
            r,
            final(draft)@,
            Seq::empty(),
            Seq::empty(),
            texts(old(err)@),
            texts(final(err)@),
        ),
{
    proof {
        assert(texts(err@) + Seq::empty() =~= texts(err@));
        assert(Seq::<Seq<char>>::empty() + Seq::<Seq<char>>::empty() =~= Seq::<Seq<char>>::empty());
    }
    match opt {
        Opt::Debug => {
            draft.cfg.debug_level = v as i32;
        },
        Opt::MaxClients => {
            draft.cfg.max_clients = not_below_zero(v) as usize;
        },
        Opt::Port => {
            if v < 0 || v > 65535 {
                complain(err, concat("ttyd: invalid port: ", arg));
                return Some(255);
            }
            draft.cfg.port = v as u16;
        },
        Opt::Uid => {
            draft.cfg.uid = Some(not_below_zero(v) as u32);
        },
        Opt::Gid => {
            draft.cfg.gid = Some(not_below_zero(v) as u32);
        },
        Opt::PingInterval => {
            if v < 0 {
                complain(err, concat("ttyd: invalid ping interval: ", arg));
                return Some(255);
            }
            draft.cfg.ping_interval = v as u64;
        },
        Opt::SrvBufSize => {
            return apply_buffer(draft, v, arg, err);
        },
        Opt::AuthCacheTtl => {
            draft.auth_cache_ttl = Some(not_below_zero(v) as u64);
        },
        _ => {},
    }
    None
}

/// Applies an option whose value is to be an integer. The result is the status to end with, if the
/// process ends.
fn apply_number(draft: &mut Draft, opt: Opt, arg: &str, err: &mut Vec<String>) -> (r: Option<i32>)
    ensures
        happened(
            number_effect(old(draft)@, opt, arg@),
            r,
            final(draft)@,
            Seq::empty(),
            Seq::empty(),
            texts(old(err)@),
            texts(final(err)@),
        ),
{
    match parse_int(arg) {
        Some(v) => apply_integer(draft, opt, v, arg, err),
        None => {
            let mut message = concat3("ttyd: invalid value for ", name_of_number(opt), ": ");
            message.append(arg);
            complain(err, message);
            proof {
                assert(Seq::<Seq<char>>::empty() + Seq::<Seq<char>>::empty() =~= Seq::<
                    Seq<char>,
                >::empty());
            }
            Some(1)
        },
    }
}

/// A path with a leading `~/` replaced by the home directory, where there is one.
pub fn expand_path(path: &str, home: &Option<String>) -> (r: String)
    ensures
        r@ == expanded_path(path@, opt_text(*home)),
{
    let chars = chars_of(path);
    if chars.len() >= 2 && chars[0] == '~' && chars[1] == '/' {
        match home {
            Some(home) => {
                let tail = vstd::slice::slice_subrange(chars.as_slice(), 2, chars.len());
                assert(tail@ == path@.skip(2));
                let rest = string_of(tail);
                concat3(home.as_str(), "/", rest.as_str())
            },
            None => path.to_owned(),
        }
    } else {
        path.to_owned()
    }
}

impl ParseEnvironment {
    /// What the first probe of a path found, if the path was looked at.
    fn find(&self, path: &str) -> (r: Option<&PathProbe>)
        ensures
            match r {
                Some(found) => probe(self@.probes, path@) == found@,
                None => probe(self@.probes, path@) == (PathProbeView::Missing {
                    error: "not looked at"@,
                }),
            },
    {
        let ghost all = self@.probes;
        let mut i: usize = 0;
        proof {
            assert(all.skip(0) == all);
        }
        while i < self.probes.len()
            invariant
                i <= self.probes@.len(),
                all == self@.probes,
                all.len() == self.probes@.len(),
                probe(all, path@) == probe(all.skip(i as int), path@),
            decreases self.probes@.len() - i,
        {
            proof {
                assert(all.skip(i as int)[0] == (self.probes@[i as int].0@, self.probes@[i as int].1@));
                assert(all.skip(i as int).drop_first() =~= all.skip(i + 1));
            }
            if same_text(self.probes[i].0.as_str(), path) {
                return Some(&self.probes[i].1);
            }
            i += 1;
        }
        None
    }
}

/// Applies `--index`. The result is the status to end with, if the process ends.
fn apply_index(draft: &mut Draft, arg: &str, env: &ParseEnvironment, err: &mut Vec<String>) -> (r: Option<
    i32,
>)
    ensures
        happened(
            text_effect(old(draft)@, Opt::Index, arg@, env@),
            r,
            final(draft)@,
            Seq::empty(),
            Seq::empty(),
            texts(old(err)@),
            texts(final(err)@),
        ),
{
    proof {
        assert(texts(err@) + Seq::empty() =~= texts(err@));
        assert(Seq::<Seq<char>>::empty() + Seq::<Seq<char>>::empty() =~= Seq::<Seq<char>>::empty());
    }
    let path = expand_path(arg, &env.home);
    match env.find(path.as_str()) {
        Some(PathProbe::File) => {
            draft.cfg.index = Some(path);
            None
        },
        Some(PathProbe::Directory) => {
            complain(err, concat3("Invalid index.html path: ", path.as_str(), ", is it a dir?"));
            Some(255)
        },
        Some(PathProbe::Missing { error }) => {
            let mut message = concat3("Can not stat index.html: ", path.as_str(), ", error: ");
            message.append(error.as_str());
            complain(err, message);
            Some(255)
        },
        None => {
            let mut message = concat3("Can not stat index.html: ", path.as_str(), ", error: ");
            message.append("not looked at");
            complain(err, message);
            Some(255)
        },
    }
}

/// Applies `--client-option`. The result is the status to end with, if the process ends.
fn apply_client_option(draft: &mut Draft, arg: &str, err: &mut Vec<String>) -> (r: Option<i32>)
    ensures
        forall|env: EnvironmentView|
            #[trigger] happened(
                text_effect(old(draft)@, Opt::ClientOption, arg@, env),
                r,
                final(draft)@,
                Seq::empty(),
                Seq::empty(),
                texts(old(err)@),
                texts(final(err)@),
            ),
{
    proof {
        assert(texts(err@) + Seq::empty() =~= texts(err@));
        assert(Seq::<Seq<char>>::empty() + Seq::<Seq<char>>::empty() =~= Seq::<Seq<char>>::empty());
    }
    let chars = chars_of(arg);
    let k: usize = find_char(&chars, '=');
    if k == chars.len() {
        complain(
            err,
            concat3("ttyd: invalid client option: ", arg, ", format: key=value"),
        );
        return Some(255);
    }
    let head = vstd::slice::slice_subrange(chars.as_slice(), 0, k);
    assert(head@ == arg@.take(k as int));
    let tail = vstd::slice::slice_subrange(chars.as_slice(), k + 1, chars.len());
    assert(tail@ == arg@.skip(k + 1));
    let key = string_of(head);
    let raw = string_of(tail);
    let value = match read_json(raw.as_str()) {
        Some(value) => value,
        None => Json::Text(raw),
    };
    set_field(&mut draft.prefs, key, value);
    None
}

/// Applies an option about authentication. The result is the status to end with, if the process
/// ends.
fn apply_auth(draft: &mut Draft, opt: Opt, arg: String, err: &mut Vec<String>) -> (r: Option<i32>)
    requires
        opt is Credential || opt is AuthHeader || opt is AuthUrl || opt is AuthRequestHeader
            || opt is AuthUserHeader || opt is AuthMethod,
    ensures
        forall|env: EnvironmentView|
            #[trigger] happened(
                text_effect(old(draft)@, opt, arg@, env),
                r,
                final(draft)@,
                Seq::empty(),
                Seq::empty(),
                texts(old(err)@),
                texts(final(err)@),
            ),
{
    proof {
        assert(texts(err@) + Seq::empty() =~= texts(err@));
        assert(Seq::<Seq<char>>::empty() + Seq::<Seq<char>>::empty() =~= Seq::<Seq<char>>::empty());
    }
    match opt {
        Opt::Credential => {
            let chars = chars_of(arg.as_str());
            if find_char(&chars, ':') == chars.len() {
                complain(
                    err,
                    "ttyd: invalid credential, format: username:password".to_owned(),
                );
                return Some(255);
            }
            draft.credential = Some(credential_of(arg.as_str()));
        },
        Opt::AuthHeader => {
            draft.auth_header = Some(arg);
        },
        Opt::AuthUrl => {
            if !is_auth_url(arg.as_str()) {
                complain(err, concat("ttyd: invalid auth-url: ", arg.as_str()));
                return Some(255);
            }
            draft.auth_url = Some(arg);
        },
        Opt::AuthRequestHeader => {
            add_text(&mut draft.auth_request_headers, arg);
        },
        Opt::AuthUserHeader => {
            draft.auth_user_header = Some(arg);
        },
        _ => {
            let method = upper_text(arg.as_str());
            if !is_http_method(method.as_str().as_bytes()) {
                complain(err, concat("ttyd: invalid auth-method: ", arg.as_str()));
                return Some(255);
            }
            draft.auth_method = Some(method);
        },
    }
    None
}

/// Applies an option whose value is kept as it is, or cut down. The result is the status to end
/// with, if the process ends.
fn apply_setting(
    draft: &mut Draft,
    opt: Opt,
    arg: String,
    system: System,
    err: &mut Vec<String>,
) -> (r: Option<i32>)
    requires
        opt is Interface || opt is SocketOwner || opt is Signal || opt is Cwd || opt is BasePath
            || opt is SslCert || opt is SslKey || opt is SslCa || opt is TerminalType
            || opt is Title,
    ensures
        forall|env: EnvironmentView|
            env.system == system ==> #[trigger] happened(
                text_effect(old(draft)@, opt, arg@, env),
                r,
                final(draft)@,
                Seq::empty(),
                Seq::empty(),
                texts(old(err)@),
                texts(final(err)@),
            ),
{
    proof {
        assert(texts(err@) + Seq::empty() =~= texts(err@));
        assert(Seq::<Seq<char>>::empty() + Seq::<Seq<char>>::empty() =~= Seq::<Seq<char>>::empty());
    }
    match opt {
        Opt::Interface => {
            draft.cfg.iface = Some(truncate(arg.as_str(), MAX_IFACE));
        },
        Opt::SocketOwner => {
            draft.cfg.socket_owner = Some(truncate(arg.as_str(), MAX_SOCKET_OWNER));
        },
        Opt::Signal => {
            let sig: i32 = get_sig_on(system, arg.as_str());
            if sig <= 0 {
                complain(err, concat("ttyd: invalid signal: ", arg.as_str()));
                return Some(255);
            }
            draft.cfg.sig_code = sig;
            draft.cfg.sig_name = get_sig_name_on(system, sig);
        },
        Opt::Cwd => {
            draft.cfg.cwd = Some(arg);
        },
        Opt::BasePath => {
            draft.base_path = Some(truncate(arg.as_str(), MAX_BASE_PATH));
        },
        Opt::SslCert => {
            draft.cfg.ssl_cert = Some(truncate(arg.as_str(), MAX_SSL_PATH));
        },
        Opt::SslKey => {
            draft.cfg.ssl_key = Some(truncate(arg.as_str(), MAX_SSL_PATH));
        },
        Opt::SslCa => {
            draft.cfg.ssl_ca = Some(truncate(arg.as_str(), MAX_SSL_PATH));
        },
        Opt::TerminalType => {
            draft.cfg.terminal_type = truncate(arg.as_str(), MAX_TERMINAL_TYPE);
        },
        _ => {
            draft.cfg.title = Some(arg);
        },
    }
    None
}

/// Applies one option of the command line. The result is the status to end with, if the process
/// ends.
pub fn apply(
    draft: &mut Draft,
    opt: Opt,
    arg: String,
    env: &ParseEnvironment,
    out: &mut Vec<String>,
    err: &mut Vec<String>,
) -> (r: Option<i32>)
    ensures
        happened(
            effect(old(draft)@, opt, arg@, env@),
            r,
            final(draft)@,
            texts(old(out)@),
            texts(final(out)@),
            texts(old(err)@),
            texts(final(err)@),
        ),
{
    if !opt.takes_arg() {
        return apply_flag(draft, opt, env.version.as_str(), out, err);
    }
    proof {
        assert(texts(out@) + Seq::empty() =~= texts(out@));
    }
    match opt {
        Opt::Debug => apply_number(draft, opt, arg.as_str(), err),
        Opt::MaxClients => apply_number(draft, opt, arg.as_str(), err),
        Opt::Port => apply_number(draft, opt, arg.as_str(), err),
        Opt::Uid => apply_number(draft, opt, arg.as_str(), err),
        Opt::Gid => apply_number(draft, opt, arg.as_str(), err),
        Opt::PingInterval => apply_number(draft, opt, arg.as_str(), err),
        Opt::SrvBufSize => apply_number(draft, opt, arg.as_str(), err),
        Opt::AuthCacheTtl => apply_number(draft, opt, arg.as_str(), err),
        Opt::Index => apply_index(draft, arg.as_str(), env, err),
        Opt::ClientOption => {
            let r = apply_client_option(draft, arg.as_str(), err);
            assert(happened(
                text_effect(old(draft)@, opt, arg@, env@),
                r,
                draft@,
                Seq::empty(),
                Seq::empty(),
                texts(old(err)@),
                texts(err@),
            ));
            r
        },
        Opt::Credential | Opt::AuthHeader | Opt::AuthUrl | Opt::AuthRequestHeader
        | Opt::AuthUserHeader | Opt::AuthMethod => {
            let ghost value = arg@;
            let r = apply_auth(draft, opt, arg, err);
            assert(happened(
                text_effect(old(draft)@, opt, value, env@),
                r,
                draft@,
                Seq::empty(),
                Seq::empty(),
                texts(old(err)@),
                texts(err@),
            ));
            r
        },
        _ => {
            let ghost value = arg@;
            let r = apply_setting(draft, opt, arg, env.system, err);
            assert(happened(
                text_effect(old(draft)@, opt, value, env@),
                r,
                draft@,
                Seq::empty(),
                Seq::empty(),
                texts(old(err)@),
                texts(err@),
            ));
            r
        },
    }
}

} // verus!
