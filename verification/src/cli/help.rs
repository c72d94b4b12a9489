//! The help text.

use crate::text::{concat3, opt_str};
use vstd::prelude::*;

verus! {

/// The number of the release.
pub const VERSION: &'static str = "2.0.1";

/// The version that a build reports: the number of the release and, where the commit is known that
/// it was built from, the short hash of that behind a hyphen.
pub open spec fn version_of(commit: Option<Seq<char>>) -> Seq<char> {
    match commit {
        Some(hash) => VERSION@ + "-"@ + hash,
        None => VERSION@,
    }
}

/// The version that a build from the given commit reports.
pub fn version(commit: Option<&str>) -> (r: String)
    ensures
        r@ == version_of(opt_str(commit)),
{
    match commit {
        Some(hash) => concat3(VERSION, "-", hash),
        None => VERSION.to_owned(),
    }
}

/// The help text before the version.
pub const HELP_HEAD: &'static str = "ttyd is a tool for sharing terminal over the web

USAGE:
    ttyd [options] <command> [<arguments...>]

VERSION:
    ";

/// The help text behind the version.
pub const HELP_TAIL: &'static str = "

OPTIONS:
    -p, --port              Port to listen (default: 7681, use `0` for random port)
    -i, --interface         Network interface to bind (eg: eth0), or UNIX domain socket path (eg: /var/run/ttyd.sock)
    -U, --socket-owner      User owner of the UNIX domain socket file, when enabled (eg: user:group)
    -c, --credential        Credential for basic authentication (format: username:password)
    -H, --auth-header       HTTP Header name for auth proxy, this will configure ttyd to let a HTTP reverse proxy handle authentication
    -u, --uid               User id to run with
    -g, --gid               Group id to run with
    -s, --signal            Signal to send to the command when exit it (default: 1, SIGHUP)
    -w, --cwd               Working directory to be set for the child program
    -a, --url-arg           Allow client to send command line arguments in URL (eg: http://localhost:7681?arg=foo&arg=bar)
    -W, --writable          Allow clients to write to the TTY (readonly by default)
    -t, --client-option     Send option to client (format: key=value), repeat to add more options
    -T, --terminal-type     Terminal type to report, default: xterm-256color
        --title             Window title to send to the browser. Without it the title is
                            the full command line and host name, which every client that
                            opens a session can read
    -O, --check-origin      Do not allow websocket connection from different origin
    -m, --max-clients       Maximum clients to support (default: 0, no limit)
    -o, --once              Accept only one client and exit on disconnection
    -q, --exit-no-conn      Exit on all clients disconnection
    -B, --browser           Open terminal with the default system browser
    -I, --index             Custom index.html path
    -b, --base-path         Expected base path for requests coming from a reverse proxy (eg: /mounted/here, max length: 128)
    -P, --ping-interval     Websocket ping interval(sec) (default: 5)
    -f, --srv-buf-size      Maximum chunk of file (in bytes) that can be sent at once, a larger value may improve throughput (default: 4096)
    -6, --ipv6              Enable IPv6 support
    -S, --ssl               Enable SSL
    -C, --ssl-cert          SSL certificate file path
    -K, --ssl-key           SSL key file path
    -A, --ssl-ca            SSL CA file path for client certificate verification
    -d, --debug             Set log level (default: 7)
    -v, --version           Print the version and exit
    -h, --help              Print this text and exit

FORWARD AUTHENTICATION:
    -R, --auth-url          Delegate authentication to this URL, like nginx `auth_request`.
                            A 2xx response admits the request, anything else rejects it.
    -F, --auth-request-header
                            Request header to copy into the auth subrequest, repeat to add
                            more (default: Cookie, Authorization)
    -N, --auth-user-header  Auth response header carrying the user name, exposed to the
                            child process as TTYD_USER (default: X-Auth-User)
        --auth-method       HTTP method for the auth subrequest (default: GET)
        --auth-cache-ttl    Seconds to cache an auth decision (default: 0, no caching)

Visit https://github.com/tsl0922/ttyd to get more information and report bugs.";

/// The help text of a version, without its last line break.
pub open spec fn help_for(version: Seq<char>) -> Seq<char> {
    HELP_HEAD@ + version + HELP_TAIL@
}

/// The help text of a version, without its last line break.
pub fn help_text(version: &str) -> (r: String)
    ensures
        r@ == help_for(version@),
{
    concat3(HELP_HEAD, version, HELP_TAIL)
}

/// A build reports the release, with the commit behind a hyphen where that is known, and the help text
/// names the version that it is given.
pub proof fn law_versions_are_told(hash: Seq<char>, version: Seq<char>)
    ensures
        version_of(None) == VERSION@,
        version_of(Some(hash)) == VERSION@.push('-') + hash,
        help_for(version).subrange(
            HELP_HEAD@.len() as int,
            HELP_HEAD@.len() as int + version.len() as int,
        ) == version,
{
    reveal_strlit("-");
    assert(VERSION@ + "-"@ + hash =~= VERSION@.push('-') + hash);
    let head = HELP_HEAD@.len() as int;
    assert(help_for(version).subrange(head, head + version.len() as int) =~= version);
}

} // verus!
