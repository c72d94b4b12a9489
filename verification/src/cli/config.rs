//! The configuration of the server.

use crate::text::{
    add_text, chars_of, concat, concat3, lower, lower_text, opt_text, string_of, texts,
    trim_end_chars, trim_end_of,
};
use crate::utils::hostname;
use vstd::prelude::*;

verus! {

/// The URL paths the server answers on, shifted by `--base-path`.
#[derive(Debug, Clone, PartialEq, Eq)]
pub struct Endpoints {
    pub ws: String,
    pub index: String,
    pub token: String,
    pub parent: String,
}

/// What a set of endpoints holds.
#[verifier::ext_equal]
pub struct EndpointsView {
    pub ws: Seq<char>,
    pub index: Seq<char>,
    pub token: Seq<char>,
    pub parent: Seq<char>,
}

impl View for Endpoints {
    type V = EndpointsView;

    open spec fn view(&self) -> EndpointsView {
        EndpointsView {
            ws: self.ws@,
            index: self.index@,
            token: self.token@,
            parent: self.parent@,
        }
    }
}

/// The endpoints without a base path.
pub open spec fn root_endpoints() -> EndpointsView {
    EndpointsView { ws: "/ws"@, index: "/"@, token: "/token"@, parent: Seq::empty() }
}

/// The characters that mean something to a router.
pub open spec fn is_route_syntax(c: char) -> bool {
    c == '{' || c == '}' || c == '?' || c == '#'
}

/// No character of a path means anything to a router.
pub open spec fn is_literal_path(path: Seq<char>) -> bool {
    forall|i: int| 0 <= i < path.len() ==> !is_route_syntax(#[trigger] path[i])
}

/// A base path without its trailing slashes and with a leading one; empty when nothing is left.
pub open spec fn normalized_base(base: Seq<char>) -> Seq<char> {
    let trimmed = trim_end_of(base, '/');
    if trimmed.len() == 0 || trimmed[0] == '/' {
        trimmed
    } else {
        "/"@ + trimmed
    }
}

/// The endpoints for a base path, or the message that refuses it.
pub open spec fn endpoints_for(base: Seq<char>) -> Result<EndpointsView, Seq<char>> {
    let path = normalized_base(base);
    if path.len() == 0 {
        Ok(root_endpoints())
    } else if is_literal_path(path) {
        Ok(
            EndpointsView {
                ws: path + "/ws"@,
                index: path + "/"@,
                token: path + "/token"@,
                parent: path,
            },
        )
    } else {
        Err("ttyd: invalid base path: "@ + base)
    }
}

impl Default for Endpoints {
    fn default() -> (r: Endpoints)
        ensures
            r@ == root_endpoints(),
    {
        Endpoints {
            ws: "/ws".to_owned(),
            index: "/".to_owned(),
            token: "/token".to_owned(),
            parent: String::new(),
        }
    }
}

/// Whether no character of a path means anything to a router.
fn is_literal(path: &[char]) -> (r: bool)
    ensures
        r == is_literal_path(path@),
{
    let mut i: usize = 0;
    while i < path.len()
        invariant
            i <= path@.len(),
            forall|j: int| 0 <= j < i ==> !is_route_syntax(#[trigger] path@[j]),
        decreases path@.len() - i,
    {
        let c = path[i];
        if c == '{' || c == '}' || c == '?' || c == '#' {
            assert(is_route_syntax(path@[i as int]));
            return false;
        }
        i += 1;
    }
    true
}

impl Endpoints {
    /// The endpoints for a `--base-path` value. A missing leading slash is added; a path with
    /// characters that a router would take for a pattern is refused.
    pub fn with_base_path(base: &str) -> (r: Result<Endpoints, String>)
        ensures
            match r {
                Ok(endpoints) => endpoints_for(base@) == Ok::<EndpointsView, Seq<char>>(endpoints@),
                Err(message) => endpoints_for(base@) == Err::<EndpointsView, Seq<char>>(message@),
            },
    {
        let chars = chars_of(base);
        let trimmed = trim_end_chars(&chars, '/');
        if trimmed.len() == 0 {
            return Ok(Endpoints::default());
        }
        let text = string_of(trimmed);
        let path = if trimmed[0] == '/' {
            text
        } else {
            concat("/", text.as_str())
        };
        proof {
            reveal_strlit("/");
            assert(path@ == normalized_base(base@));
        }
        let path_chars = chars_of(path.as_str());
        if !is_literal(&path_chars) {
            return Err(concat("ttyd: invalid base path: ", base));
        }
        Ok(
            Endpoints {
                ws: concat(path.as_str(), "/ws"),
                index: concat(path.as_str(), "/"),
                token: concat(path.as_str(), "/token"),
                parent: path,
            },
        )
    }
}

/// How incoming requests are authenticated.
#[derive(Debug, Clone, PartialEq, Eq)]
pub enum AuthMode {
    /// Every request is let in.
    Disabled,
    /// `--credential`: HTTP basic authentication against a base64 `user:password`.
    Basic { credential: String },
    /// `--auth-header`: a reverse proxy has authenticated the request and names the user in a
    /// header.
    TrustedHeader { header: String },
    /// `--auth-url`: an outside endpoint decides on each request.
    Forward(ForwardAuthConfig),
}

/// Settings of forward authentication.
#[derive(Debug, Clone, PartialEq, Eq)]
pub struct ForwardAuthConfig {
    pub url: String,
    pub method: String,
    /// Request headers that are copied into the subrequest; none means the default ones.
    pub request_headers: Vec<String>,
    /// Response header of the endpoint that carries the user name.
    pub user_header: String,
    /// Seconds for which a decision is kept; zero keeps none.
    pub cache_ttl: u64,
}

/// What an authentication mode holds.
#[verifier::ext_equal]
pub enum AuthModeView {
    Disabled,
    Basic { credential: Seq<char> },
    TrustedHeader { header: Seq<char> },
    Forward(ForwardAuthConfigView),
}

/// What the settings of forward authentication hold.
#[verifier::ext_equal]
pub struct ForwardAuthConfigView {
    pub url: Seq<char>,
    pub method: Seq<char>,
    pub request_headers: Seq<Seq<char>>,
    pub user_header: Seq<char>,
    pub cache_ttl: u64,
}

impl View for ForwardAuthConfig {
    type V = ForwardAuthConfigView;

    open spec fn view(&self) -> ForwardAuthConfigView {
        ForwardAuthConfigView {
            url: self.url@,
            method: self.method@,
            request_headers: texts(self.request_headers@),
            user_header: self.user_header@,
            cache_ttl: self.cache_ttl,
        }
    }
}

impl View for AuthMode {
    type V = AuthModeView;

    open spec fn view(&self) -> AuthModeView {
        match self {
            AuthMode::Disabled => AuthModeView::Disabled,
            AuthMode::Basic { credential } => AuthModeView::Basic { credential: credential@ },
            AuthMode::TrustedHeader { header } => AuthModeView::TrustedHeader { header: header@ },
            AuthMode::Forward(f) => AuthModeView::Forward(f@),
        }
    }
}

/// The request headers that a subrequest copies, in lower case: the configured ones, or `cookie`
/// and `authorization` when none is configured.
pub open spec fn forwarded_header_names(configured: Seq<Seq<char>>) -> Seq<Seq<char>> {
    if configured.len() == 0 {
        seq!["cookie"@, "authorization"@]
    } else {
        configured.map_values(|name: Seq<char>| lower(name))
    }
}

impl ForwardAuthConfig {
    /// Forward authentication against a URL, with nothing else configured.
    pub fn new(url: String) -> (r: ForwardAuthConfig)
        ensures
            r@ == (ForwardAuthConfigView {
                url: url@,
                method: "GET"@,
                request_headers: Seq::empty(),
                user_header: "X-Auth-User"@,
                cache_ttl: 0,
            }),
    {
        let r = ForwardAuthConfig {
            url,
            method: "GET".to_owned(),
            request_headers: Vec::new(),
            user_header: "X-Auth-User".to_owned(),
            cache_ttl: 0,
        };
        assert(texts(r.request_headers@) =~= Seq::empty());
        r
    }

    /// The request headers that a subrequest copies, in lower case.
    pub fn effective_request_headers(&self) -> (r: Vec<String>)
        ensures
            texts(r@) == forwarded_header_names(texts(self.request_headers@)),
    {
        let mut out: Vec<String> = Vec::new();
        if self.request_headers.len() == 0 {
            add_text(&mut out, "cookie".to_owned());
            add_text(&mut out, "authorization".to_owned());
            assert(texts(out@) =~= seq!["cookie"@, "authorization"@]);
            return out;
        }
        let ghost all = forwarded_header_names(texts(self.request_headers@));
        let mut i: usize = 0;
        while i < self.request_headers.len()
            invariant
                i <= self.request_headers@.len(),
                all.len() == self.request_headers@.len(),
                forall|j: int|
                    0 <= j < all.len() ==> #[trigger] all[j] == lower(self.request_headers@[j]@),
                texts(out@) == all.take(i as int),
            decreases self.request_headers@.len() - i,
        {
            add_text(&mut out, lower_text(self.request_headers[i].as_str()));
            assert(all.take(i + 1) == all.take(i as int).push(all[i as int]));
            i += 1;
        }
        assert(all.take(all.len() as int) == all);
        out
    }
}

/// Everything the server was told.
#[derive(Debug, Clone)]
pub struct Config {
    pub port: u16,
    pub iface: Option<String>,
    pub socket_owner: Option<String>,
    pub auth: AuthMode,
    pub uid: Option<u32>,
    pub gid: Option<u32>,
    pub sig_code: i32,
    pub sig_name: String,
    pub cwd: Option<String>,
    pub index: Option<String>,
    pub endpoints: Endpoints,
    pub ping_interval: u64,
    pub srv_buf_size: usize,
    pub ipv6: bool,
    pub ssl: bool,
    pub ssl_cert: Option<String>,
    pub ssl_key: Option<String>,
    pub ssl_ca: Option<String>,
    pub url_arg: bool,
    pub writable: bool,
    pub terminal_type: String,
    /// Replaces the window title that is sent to the browser.
    pub title: Option<String>,
    pub prefs_json: String,
    pub check_origin: bool,
    pub max_clients: usize,
    pub once: bool,
    pub exit_no_conn: bool,
    pub browser: bool,
    pub debug_level: i32,
    /// The child command and its arguments.
    pub argv: Vec<String>,
    /// The command and its arguments, joined by spaces.
    pub command: String,
}

/// What a configuration holds.
#[verifier::ext_equal]
pub struct ConfigView {
    pub port: u16,
    pub iface: Option<Seq<char>>,
    pub socket_owner: Option<Seq<char>>,
    pub auth: AuthModeView,
    pub uid: Option<u32>,
    pub gid: Option<u32>,
    pub sig_code: i32,
    pub sig_name: Seq<char>,
    pub cwd: Option<Seq<char>>,
    pub index: Option<Seq<char>>,
    pub endpoints: EndpointsView,
    pub ping_interval: u64,
    pub srv_buf_size: usize,
    pub ipv6: bool,
    pub ssl: bool,
    pub ssl_cert: Option<Seq<char>>,
    pub ssl_key: Option<Seq<char>>,
    pub ssl_ca: Option<Seq<char>>,
    pub url_arg: bool,
    pub writable: bool,
    pub terminal_type: Seq<char>,
    pub title: Option<Seq<char>>,
    pub prefs_json: Seq<char>,
    pub check_origin: bool,
    pub max_clients: usize,
    pub once: bool,
    pub exit_no_conn: bool,
    pub browser: bool,
    pub debug_level: i32,
    pub argv: Seq<Seq<char>>,
    pub command: Seq<char>,
}

impl View for Config {
    type V = ConfigView;

    open spec fn view(&self) -> ConfigView {
        ConfigView {
            port: self.port,
            iface: opt_text(self.iface),
            socket_owner: opt_text(self.socket_owner),
            auth: self.auth@,
            uid: self.uid,
            gid: self.gid,
            sig_code: self.sig_code,
            sig_name: self.sig_name@,
            cwd: opt_text(self.cwd),
            index: opt_text(self.index),
            endpoints: self.endpoints@,
            ping_interval: self.ping_interval,
            srv_buf_size: self.srv_buf_size,
            ipv6: self.ipv6,
            ssl: self.ssl,
            ssl_cert: opt_text(self.ssl_cert),
            ssl_key: opt_text(self.ssl_key),
            ssl_ca: opt_text(self.ssl_ca),
            url_arg: self.url_arg,
            writable: self.writable,
            terminal_type: self.terminal_type@,
            title: opt_text(self.title),
            prefs_json: self.prefs_json@,
            check_origin: self.check_origin,
            max_clients: self.max_clients,
            once: self.once,
            exit_no_conn: self.exit_no_conn,
            browser: self.browser,
            debug_level: self.debug_level,
            argv: texts(self.argv@),
            command: self.command@,
        }
    }
}

/// The configuration before any option was read.
pub open spec fn default_config() -> ConfigView {
    ConfigView {
        port: 7681,
        iface: None,
        socket_owner: None,
        auth: AuthModeView::Disabled,
        uid: None,
        gid: None,
        sig_code: 1,
        sig_name: "SIGHUP"@,
        cwd: None,
        index: None,
        endpoints: root_endpoints(),
        ping_interval: 5,
        srv_buf_size: 4096,
        ipv6: false,
        ssl: false,
        ssl_cert: None,
        ssl_key: None,
        ssl_ca: None,
        url_arg: false,
        writable: false,
        terminal_type: "xterm-256color"@,
        title: None,
        prefs_json: "{ }"@,
        check_origin: false,
        max_clients: 0,
        once: false,
        exit_no_conn: false,
        browser: false,
        debug_level: 7,
        argv: Seq::empty(),
        command: Seq::empty(),
    }
}

impl Default for Config {
    fn default() -> (r: Config)
        ensures
            r@ == default_config(),
    {
        let r = Config {
            port: 7681,
            iface: None,
            socket_owner: None,
            auth: AuthMode::Disabled,
            uid: None,
            gid: None,
            sig_code: 1,
            sig_name: "SIGHUP".to_owned(),
            cwd: None,
            index: None,
            endpoints: Endpoints::default(),
            ping_interval: 5,
            srv_buf_size: 4096,
            ipv6: false,
            ssl: false,
            ssl_cert: None,
            ssl_key: None,
            ssl_ca: None,
            url_arg: false,
            writable: false,
            terminal_type: "xterm-256color".to_owned(),
            title: None,
            prefs_json: "{ }".to_owned(),
            check_origin: false,
            max_clients: 0,
            once: false,
            exit_no_conn: false,
            browser: false,
            debug_level: 7,
            argv: Vec::new(),
            command: String::new(),
        };
        assert(texts(r.argv@) =~= Seq::empty());
        r
    }
}

/// A text ends with another.
pub open spec fn ends_with(s: Seq<char>, end: Seq<char>) -> bool {
    s.len() >= end.len() && s.skip(s.len() - end.len()) == end
}

/// Whether a text ends with another.
fn text_ends_with(s: &str, end: &str) -> (r: bool)
    ensures
        r == ends_with(s@, end@),
{
    let whole = chars_of(s);
    let tail = chars_of(end);
    if whole.len() < tail.len() {
        return false;
    }
    let from: usize = whole.len() - tail.len();
    let mut i: usize = 0;
    while i < tail.len()
        invariant
            i <= tail.len(),
            from + tail.len() == whole.len(),
            whole@ == s@,
            tail@ == end@,
            forall|j: int| 0 <= j < i ==> whole@[from + j] == #[trigger] tail@[j],
        decreases tail.len() - i,
    {
        if whole[from + i] != tail[i] {
            assert(whole@.skip(from as int)[i as int] != tail@[i as int]);
            return false;
        }
        i += 1;
    }
    assert(whole@.skip(from as int) =~= tail@);
    true
}

/// The window title for a configuration on a host.
pub open spec fn title_on(cfg: ConfigView, host: Seq<char>) -> Seq<char> {
    match cfg.title {
        Some(title) => title,
        None => cfg.command + " ("@ + host + ")"@,
    }
}

impl Config {
    /// The base64 `user:password` when basic authentication is active. The browser sends it back
    /// as its token.
    pub fn credential(&self) -> (r: Option<&str>)
        ensures
            match self@.auth {
                AuthModeView::Basic { credential } => r is Some && r->0@ == credential,
                _ => r is None,
            },
    {
        match &self.auth {
            AuthMode::Basic { credential } => Some(credential.as_str()),
            _ => None,
        }
    }

    /// Whether a terminal opens only for a matching token.
    pub fn requires_ws_token(&self) -> (r: bool)
        ensures
            r == (self@.auth is Basic),
    {
        match &self.auth {
            AuthMode::Basic { .. } => true,
            _ => false,
        }
    }

    /// The window title on a host of the given name: the configured title, or else the command
    /// line and the host.
    pub fn window_title_on(&self, host: &str) -> (r: String)
        ensures
            r@ == title_on(self@, host@),
    {
        match &self.title {
            Some(title) => title.clone(),
            None => {
                let mut out = concat3(self.command.as_str(), " (", host);
                out.append(")");
                out
            },
        }
    }

    /// The window title on this machine, whatever its host name is.
    pub fn window_title(&self) -> (r: String)
        ensures
            exists|host: Seq<char>| r@ == #[trigger] title_on(self@, host),
    {
        match &self.title {
            Some(title) => {
                assert(title@ == title_on(self@, Seq::empty()));
                title.clone()
            },
            None => {
                let host = hostname();
                self.window_title_on(host.as_str())
            },
        }
    }

    /// Whether the interface is the path of a UNIX domain socket.
    pub fn is_unix_socket(&self) -> (r: bool)
        ensures
            r == match self@.iface {
                Some(iface) => ends_with(iface, ".sock"@) || ends_with(iface, ".socket"@),
                None => false,
            },
    {
        match &self.iface {
            Some(iface) => text_ends_with(iface.as_str(), ".sock") || text_ends_with(
                iface.as_str(),
                ".socket",
            ),
            None => false,
        }
    }
}

} // verus!
