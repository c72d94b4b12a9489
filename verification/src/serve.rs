//! What the server listens on, as whom it runs, and what becomes of a connection.

use crate::cli::config::{Config, ConfigView};
use crate::cli::summary::{config_summary, summary};
use crate::number::{decimal, write_decimal};
use crate::text::{
    add_text, append_texts, chars_of, concat, concat3, find_char, opt_text, same_text, split_once,
    string_of, texts,
};
use vstd::prelude::*;

verus! {

/// Milliseconds to wait for the first byte on a port for TLS.
pub const TLS_SNIFF_TIMEOUT: u64 = 10_000;

/// Milliseconds to wait after a connection could not be taken.
pub const ACCEPT_ERROR_BACKOFF: u64 = 50;

/// The file mode creation mask under which a UNIX domain socket is made: nobody but the owner and
/// the group may connect.
pub const SOCKET_UMASK: u32 = 0o117;

/// The mode of a UNIX domain socket.
pub const SOCKET_MODE: u32 = 0o660;

/// The first byte of a TLS handshake.
pub const TLS_HANDSHAKE: u8 = 0x16;

/// What the server is to listen on.
#[derive(Debug, Clone)]
pub enum BindPlan {
    /// A UNIX domain socket at this path.
    Unix { path: String },
    /// Every address of IPv6, or of IPv4.
    Any { ipv6: bool },
    /// An address, or the interface of this name.
    Named { iface: String, ipv6: bool },
}

/// What a plan holds.
#[verifier::ext_equal]
pub enum BindPlanView {
    Unix { path: Seq<char> },
    Any { ipv6: bool },
    Named { iface: Seq<char>, ipv6: bool },
}

impl View for BindPlan {
    type V = BindPlanView;

    open spec fn view(&self) -> BindPlanView {
        match self {
            BindPlan::Unix { path } => BindPlanView::Unix { path: path@ },
            BindPlan::Any { ipv6 } => BindPlanView::Any { ipv6: *ipv6 },
            BindPlan::Named { iface, ipv6 } => BindPlanView::Named { iface: iface@, ipv6: *ipv6 },
        }
    }
}

/// The interface is the path of a UNIX domain socket.
pub open spec fn names_socket(iface: Seq<char>) -> bool {
    crate::cli::config::ends_with(iface, ".sock"@) || crate::cli::config::ends_with(
        iface,
        ".socket"@,
    )
}

/// What the server is to listen on.
pub open spec fn bind_plan_for(cfg: ConfigView) -> BindPlanView {
    match cfg.iface {
        Some(iface) => if names_socket(iface) {
            BindPlanView::Unix { path: iface }
        } else {
            BindPlanView::Named { iface, ipv6: cfg.ipv6 }
        },
        None => BindPlanView::Any { ipv6: cfg.ipv6 },
    }
}

/// What the server is to listen on.
pub fn bind_plan(cfg: &Config) -> (r: BindPlan)
    ensures
        r@ == bind_plan_for(cfg@),
{
    let unix: bool = cfg.is_unix_socket();
    match &cfg.iface {
        Some(iface) => if unix {
            BindPlan::Unix { path: iface.clone() }
        } else {
            BindPlan::Named { iface: iface.clone(), ipv6: cfg.ipv6 }
        },
        None => BindPlan::Any { ipv6: cfg.ipv6 },
    }
}

/// An address of a network interface, in one of the two families or in neither.
#[derive(Debug, Clone)]
pub struct InterfaceAddress {
    pub name: String,
    pub v4: Option<String>,
    pub v6: Option<String>,
}

/// What an address of a network interface holds.
#[verifier::ext_equal]
pub struct InterfaceAddressView {
    pub name: Seq<char>,
    pub v4: Option<Seq<char>>,
    pub v6: Option<Seq<char>>,
}

impl View for InterfaceAddress {
    type V = InterfaceAddressView;

    open spec fn view(&self) -> InterfaceAddressView {
        InterfaceAddressView { name: self.name@, v4: opt_text(self.v4), v6: opt_text(self.v6) }
    }
}

/// What a list of addresses holds.
pub open spec fn interfaces_view(list: Seq<InterfaceAddress>) -> Seq<InterfaceAddressView> {
    list.map_values(|a: InterfaceAddress| a@)
}

/// The address of an interface in the family that was asked for.
pub open spec fn address_in(a: InterfaceAddressView, ipv6: bool) -> Option<Seq<char>> {
    if ipv6 {
        a.v6
    } else {
        a.v4
    }
}

/// The first address of an interface in the family that was asked for. The other family is never
/// taken instead.
pub open spec fn interface_address(
    list: Seq<InterfaceAddressView>,
    iface: Seq<char>,
    ipv6: bool,
) -> Option<Seq<char>>
    decreases list.len(),
{
    if list.len() == 0 {
        None
    } else if list[0].name == iface && address_in(list[0], ipv6) is Some {
        address_in(list[0], ipv6)
    } else {
        interface_address(list.drop_first(), iface, ipv6)
    }
}

/// The address to bind for an interface, given the address that its name is, if it is one: that
/// address, else the first one of the interface, else the complaint that there is none.
pub open spec fn address_for(
    literal: Option<Seq<char>>,
    list: Seq<InterfaceAddressView>,
    iface: Seq<char>,
    ipv6: bool,
) -> Result<Seq<char>, Seq<char>> {
    match literal {
        Some(address) => Ok(address),
        None => match interface_address(list, iface, ipv6) {
            Some(address) => Ok(address),
            None => Err(
                if ipv6 {
                    "no IPv6 address found for interface "@ + iface
                } else {
                    "no address found for interface "@ + iface
                },
            ),
        },
    }
}

/// The first address of an interface in the family that was asked for.
fn find_address(list: &[InterfaceAddress], iface: &str, ipv6: bool) -> (r: Option<String>)
    ensures
        opt_text(r) == interface_address(interfaces_view(list@), iface@, ipv6),
{
    let ghost all = interfaces_view(list@);
    let mut i: usize = 0;
    proof {
        assert(all.skip(0) =~= all);
    }
    while i < list.len()
        invariant
            i <= list@.len(),
            all == interfaces_view(list@),
            interface_address(all, iface@, ipv6) == interface_address(
                all.skip(i as int),
                iface@,
                ipv6,
            ),
        decreases list@.len() - i,
    {
        proof {
            assert(all.skip(i as int)[0] == list@[i as int]@);
            assert(all.skip(i as int).drop_first() =~= all.skip(i + 1));
        }
        if same_text(list[i].name.as_str(), iface) {
            let address = if ipv6 {
                &list[i].v6
            } else {
                &list[i].v4
            };
            if let Some(address) = address {
                return Some(address.clone());
            }
        }
        i += 1;
    }
    None
}

/// The address to bind for an interface. `literal` is the address that its name is, if it is one,
/// and `list` holds the addresses of all interfaces in the order in which the system names them.
pub fn resolve_bind_address(
    literal: Option<String>,
    list: &[InterfaceAddress],
    iface: &str,
    ipv6: bool,
) -> (r: Result<String, String>)
    ensures
        match r {
            Ok(address) => address_for(opt_text(literal), interfaces_view(list@), iface@, ipv6)
                == Ok::<Seq<char>, Seq<char>>(address@),
            Err(message) => address_for(opt_text(literal), interfaces_view(list@), iface@, ipv6)
                == Err::<Seq<char>, Seq<char>>(message@),
        },
{
    if let Some(address) = literal {
        return Ok(address);
    }
    match find_address(list, iface, ipv6) {
        Some(address) => Ok(address),
        None => Err(
            if ipv6 {
                concat("no IPv6 address found for interface ", iface)
            } else {
                concat("no address found for interface ", iface)
            },
        ),
    }
}

/// What is done to a UNIX domain socket once it is bound.
#[derive(Debug, Clone)]
pub enum SocketStep {
    /// Give it to these ids, as far as they are there.
    Chown { uid: Option<u32>, gid: Option<u32> },
    /// Give it to the user and the group of these names.
    Owner { user: String, group: Option<String> },
    /// Set its mode.
    Chmod { mode: u32 },
}

/// What a step holds.
#[verifier::ext_equal]
pub enum SocketStepView {
    Chown { uid: Option<u32>, gid: Option<u32> },
    Owner { user: Seq<char>, group: Option<Seq<char>> },
    Chmod { mode: u32 },
}

impl View for SocketStep {
    type V = SocketStepView;

    open spec fn view(&self) -> SocketStepView {
        match self {
            SocketStep::Chown { uid, gid } => SocketStepView::Chown { uid: *uid, gid: *gid },
            SocketStep::Owner { user, group } => SocketStepView::Owner {
                user: user@,
                group: opt_text(*group),
            },
            SocketStep::Chmod { mode } => SocketStepView::Chmod { mode: *mode },
        }
    }
}

/// What a list of steps holds.
pub open spec fn socket_steps_view(steps: Seq<SocketStep>) -> Seq<SocketStepView> {
    steps.map_values(|s: SocketStep| s@)
}

/// The user and the group of an owner: what stands before and behind its first colon. An empty
/// group is none.
pub open spec fn owner_parts(owner: Seq<char>) -> (Seq<char>, Option<Seq<char>>) {
    match split_once(owner, ':') {
        Some((user, group)) => (
            user,
            if group.len() > 0 {
                Some(group)
            } else {
                None
            },
        ),
        None => (owner, None),
    }
}

/// What is done to a UNIX domain socket once it is bound: it goes to the ids that the server will
/// run with, then to the configured owner, and its mode is always set.
pub open spec fn socket_steps_for(cfg: ConfigView) -> Seq<SocketStepView> {
    let ids = if cfg.uid is Some || cfg.gid is Some {
        seq![SocketStepView::Chown { uid: cfg.uid, gid: cfg.gid }]
    } else {
        Seq::empty()
    };
    let owner = match cfg.socket_owner {
        Some(owner) => seq![
            SocketStepView::Owner { user: owner_parts(owner).0, group: owner_parts(owner).1 },
        ],
        None => Seq::empty(),
    };
    ids + owner + seq![SocketStepView::Chmod { mode: SOCKET_MODE }]
}

/// The user and the group of an owner.
fn split_owner(owner: &str) -> (r: (String, Option<String>))
    ensures
        r.0@ == owner_parts(owner@).0,
        opt_text(r.1) == owner_parts(owner@).1,
{
    let chars = chars_of(owner);
    let k: usize = find_char(&chars, ':');
    if k == chars.len() {
        return (owner.to_owned(), None);
    }
    let head = vstd::slice::slice_subrange(chars.as_slice(), 0, k);
    assert(head@ =~= owner@.take(k as int));
    let tail = vstd::slice::slice_subrange(chars.as_slice(), k + 1, chars.len());
    assert(tail@ =~= owner@.skip(k + 1));
    if tail.len() > 0 {
        (string_of(head), Some(string_of(tail)))
    } else {
        (string_of(head), None)
    }
}

/// What is done to a UNIX domain socket once it is bound.
pub fn socket_steps(cfg: &Config) -> (r: Vec<SocketStep>)
    ensures
        socket_steps_view(r@) == socket_steps_for(cfg@),
{
    let mut steps: Vec<SocketStep> = Vec::new();
    if cfg.uid.is_some() || cfg.gid.is_some() {
        steps.push(SocketStep::Chown { uid: cfg.uid, gid: cfg.gid });
    }
    if let Some(owner) = &cfg.socket_owner {
        let (user, group) = split_owner(owner.as_str());
        steps.push(SocketStep::Owner { user, group });
    }
    steps.push(SocketStep::Chmod { mode: SOCKET_MODE });
    assert(socket_steps_view(steps@) =~= socket_steps_for(cfg@));
    steps
}

/// One step of giving up privileges.
#[derive(Debug, Clone)]
pub enum PrivilegeStep {
    /// Take on the groups of a user, with this one as the base.
    InitGroups { user: String, gid: u32 },
    /// Leave every supplementary group.
    ClearGroups,
    /// Take on this group.
    SetGid { gid: u32 },
    /// Take on this user.
    SetUid { uid: u32 },
}

/// What a step holds.
#[verifier::ext_equal]
pub enum PrivilegeStepView {
    InitGroups { user: Seq<char>, gid: u32 },
    ClearGroups,
    SetGid { gid: u32 },
    SetUid { uid: u32 },
}

impl View for PrivilegeStep {
    type V = PrivilegeStepView;

    open spec fn view(&self) -> PrivilegeStepView {
        match self {
            PrivilegeStep::InitGroups { user, gid } => PrivilegeStepView::InitGroups {
                user: user@,
                gid: *gid,
            },
            PrivilegeStep::ClearGroups => PrivilegeStepView::ClearGroups,
            PrivilegeStep::SetGid { gid } => PrivilegeStepView::SetGid { gid: *gid },
            PrivilegeStep::SetUid { uid } => PrivilegeStepView::SetUid { uid: *uid },
        }
    }
}

/// What a list of steps holds.
pub open spec fn privilege_steps_view(steps: Seq<PrivilegeStep>) -> Seq<PrivilegeStepView> {
    steps.map_values(|s: PrivilegeStep| s@)
}

/// How privileges are given up, given the group that the server runs with and the name of the user
/// that it is to run as, if that is known: first the supplementary groups, then the group, then the
/// user. Nothing is done when neither a user nor a group was asked for.
pub open spec fn privilege_steps_for(
    uid: Option<u32>,
    gid: Option<u32>,
    current_gid: u32,
    user: Option<Seq<char>>,
) -> Seq<PrivilegeStepView> {
    if uid is None && gid is None {
        Seq::empty()
    } else {
        let groups = match (uid, user) {
            (Some(_), Some(user)) => PrivilegeStepView::InitGroups {
                user,
                gid: match gid {
                    Some(gid) => gid,
                    None => current_gid,
                },
            },
            _ => PrivilegeStepView::ClearGroups,
        };
        seq![groups] + match gid {
            Some(gid) => seq![PrivilegeStepView::SetGid { gid }],
            None => Seq::empty(),
        } + match uid {
            Some(uid) => seq![PrivilegeStepView::SetUid { uid }],
            None => Seq::empty(),
        }
    }
}

/// How privileges are given up. `user` is the name of the user that `--uid` names, if there is one.
pub fn privilege_steps(cfg: &Config, current_gid: u32, user: Option<String>) -> (r: Vec<
    PrivilegeStep,
>)
    ensures
        privilege_steps_view(r@) == privilege_steps_for(
            cfg@.uid,
            cfg@.gid,
            current_gid,
            opt_text(user),
        ),
{
    let mut steps: Vec<PrivilegeStep> = Vec::new();
    if cfg.uid.is_none() && cfg.gid.is_none() {
        assert(privilege_steps_view(steps@) =~= Seq::empty());
        return steps;
    }
    let ghost name = opt_text(user);
    let groups = match (cfg.uid, user) {
        (Some(_), Some(user)) => PrivilegeStep::InitGroups {
            user,
            gid: match cfg.gid {
                Some(gid) => gid,
                None => current_gid,
            },
        },
        _ => PrivilegeStep::ClearGroups,
    };
    steps.push(groups);
    if let Some(gid) = cfg.gid {
        steps.push(PrivilegeStep::SetGid { gid });
    }
    if let Some(uid) = cfg.uid {
        steps.push(PrivilegeStep::SetUid { uid });
    }
    assert(privilege_steps_view(steps@) =~= privilege_steps_for(
        cfg@.uid,
        cfg@.gid,
        current_gid,
        name,
    ));
    steps
}

/// The files for TLS.
#[derive(Debug, Clone)]
pub struct TlsFiles {
    pub cert: String,
    pub key: String,
    /// The authority that clients have to present a certificate of, if they have to.
    pub ca: Option<String>,
}

/// What the files for TLS hold.
#[verifier::ext_equal]
pub struct TlsFilesView {
    pub cert: Seq<char>,
    pub key: Seq<char>,
    pub ca: Option<Seq<char>>,
}

impl View for TlsFiles {
    type V = TlsFilesView;

    open spec fn view(&self) -> TlsFilesView {
        TlsFilesView { cert: self.cert@, key: self.key@, ca: opt_text(self.ca) }
    }
}

/// The files for TLS, or the complaint that one of them is not configured.
pub open spec fn tls_files_for(cfg: ConfigView) -> Result<TlsFilesView, Seq<char>> {
    match (cfg.ssl_cert, cfg.ssl_key) {
        (Some(cert), Some(key)) => Ok(TlsFilesView { cert, key, ca: cfg.ssl_ca }),
        (None, _) => Err("--ssl requires --ssl-cert"@),
        (Some(_), None) => Err("--ssl requires --ssl-key"@),
    }
}

/// The files for TLS, or the complaint that one of them is not configured.
pub fn tls_files(cfg: &Config) -> (r: Result<TlsFiles, String>)
    ensures
        match r {
            Ok(files) => tls_files_for(cfg@) == Ok::<TlsFilesView, Seq<char>>(files@),
            Err(message) => tls_files_for(cfg@) == Err::<TlsFilesView, Seq<char>>(message@),
        },
{
    match (&cfg.ssl_cert, &cfg.ssl_key) {
        (Some(cert), Some(key)) => Ok(
            TlsFiles { cert: cert.clone(), key: key.clone(), ca: cfg.ssl_ca.clone() },
        ),
        (None, _) => Err("--ssl requires --ssl-cert".to_owned()),
        (Some(_), None) => Err("--ssl requires --ssl-key".to_owned()),
    }
}

/// What becomes of a connection.
#[derive(Debug, Clone, Copy, PartialEq, Eq, Structural)]
pub enum Handling {
    /// It is served as it is.
    Plain,
    /// It is served behind a TLS handshake.
    Tls,
    /// It is answered with redirects to HTTPS.
    RedirectToHttps,
    /// It is dropped.
    Drop,
}

/// What becomes of a connection, given whether the port is for TLS and its first byte, if one came
/// in time: without TLS it is served; on a port for TLS a handshake is taken, anything else is
/// redirected, and a silent connection is dropped.
pub open spec fn handling_of(tls: bool, first: Option<u8>) -> Handling {
    if !tls {
        Handling::Plain
    } else {
        match first {
            Some(byte) => if byte == TLS_HANDSHAKE {
                Handling::Tls
            } else {
                Handling::RedirectToHttps
            },
            None => Handling::Drop,
        }
    }
}

/// What becomes of a connection.
pub fn handling(tls: bool, first: Option<u8>) -> (r: Handling)
    ensures
        r == handling_of(tls, first),
{
    if !tls {
        return Handling::Plain;
    }
    match first {
        Some(byte) => if byte == TLS_HANDSHAKE {
            Handling::Tls
        } else {
            Handling::RedirectToHttps
        },
        None => Handling::Drop,
    }
}

/// The lines that are logged at the start: the version, and the summary of the configuration.
pub open spec fn startup_lines_for(cfg: ConfigView, version: Seq<char>) -> Seq<Seq<char>> {
    seq!["ttyd "@ + version + " (rust)"@] + summary(cfg)
}

/// The lines that are logged at the start: the version, and the summary of the configuration.
pub fn startup_lines(cfg: &Config, version: &str) -> (r: Vec<String>)
    ensures
        texts(r@) == startup_lines_for(cfg@, version@),
{
    let mut lines: Vec<String> = Vec::new();
    add_text(&mut lines, concat3("ttyd ", version, " (rust)"));
    assert(texts(lines@) =~= seq!["ttyd "@ + version@ + " (rust)"@]);
    append_texts(&mut lines, config_summary(cfg));
    lines
}

/// The line that says what the server listens on, given the port that it was bound to.
pub open spec fn listening_line_for(cfg: ConfigView, port: u16) -> Seq<char> {
    match bind_plan_for(cfg) {
        BindPlanView::Unix { path } => " Listening on unix socket: "@ + path,
        _ => " Listening on port: "@ + decimal(port as nat),
    }
}

/// The line that says what the server listens on, given the port that it was bound to.
pub fn listening_line(cfg: &Config, port: u16) -> (r: String)
    ensures
        r@ == listening_line_for(cfg@, port),
{
    match bind_plan(cfg) {
        BindPlan::Unix { path } => concat(" Listening on unix socket: ", path.as_str()),
        _ => {
            let number = write_decimal(port as u64);
            concat(" Listening on port: ", number.as_str())
        },
    }
}

/// The URL that is opened in the browser at the start.
pub open spec fn browser_url_for(ssl: bool, port: u16) -> Seq<char> {
    if ssl {
        "https://localhost:"@ + decimal(port as nat)
    } else {
        "http://localhost:"@ + decimal(port as nat)
    }
}

/// The URL that is opened in the browser at the start.
pub fn browser_url(ssl: bool, port: u16) -> (r: String)
    ensures
        r@ == browser_url_for(ssl, port),
{
    let number = write_decimal(port as u64);
    if ssl {
        concat("https://localhost:", number.as_str())
    } else {
        concat("http://localhost:", number.as_str())
    }
}

/// Privileges are given up in an order that works: the supplementary groups go first, while the
/// server still may, and the user goes last.
pub proof fn law_the_user_is_given_up_last(
    uid: Option<u32>,
    gid: Option<u32>,
    current_gid: u32,
    user: Option<Seq<char>>,
)
    ensures
        ({
            let steps = privilege_steps_for(uid, gid, current_gid, user);
            &&& uid is Some || gid is Some ==> steps.len() > 0 && (steps[0] is InitGroups
                || steps[0] is ClearGroups)
            &&& uid matches Some(id) ==> steps.last() == (PrivilegeStepView::SetUid { uid: id })
            &&& gid matches Some(id) ==> steps[1] == (PrivilegeStepView::SetGid { gid: id })
            &&& forall|i: int|
                0 <= i < steps.len() && #[trigger] steps[i] is SetUid ==> i == steps.len() - 1
        }),
{
}

/// An interface without an address of the family that was asked for is refused; an address of the
/// other family is never bound instead.
pub proof fn law_the_other_family_is_never_bound(
    list: Seq<InterfaceAddressView>,
    iface: Seq<char>,
    ipv6: bool,
)
    requires
        forall|i: int|
            0 <= i < list.len() && (#[trigger] list[i]).name == iface ==> address_in(
                list[i],
                ipv6,
            ) is None,
    ensures
        address_for(None, list, iface, ipv6) is Err,
    decreases list.len(),
{
    if list.len() > 0 {
        let rest = list.drop_first();
        assert forall|i: int| 0 <= i < rest.len() && (#[trigger] rest[i]).name == iface implies
            address_in(rest[i], ipv6) is None by {
            assert(rest[i] == list[i + 1]);
        }
        law_the_other_family_is_never_bound(rest, iface, ipv6);
    }
}

/// The mode of a UNIX domain socket is always set, and last.
pub proof fn law_the_socket_mode_is_always_set(cfg: ConfigView)
    ensures
        socket_steps_for(cfg).last() == (SocketStepView::Chmod { mode: SOCKET_MODE }),
{
}

/// The interface that is configured is what the server listens on: a path that ends like one of a socket
/// is one, any other name is an interface or an address, and without a name every address is meant. The
/// family is the one that was asked for.
pub proof fn law_the_server_listens_where_it_is_told(cfg: ConfigView, head: Seq<char>)
    ensures
        cfg.iface is None ==> bind_plan_for(cfg) == (BindPlanView::Any { ipv6: cfg.ipv6 }),
        cfg.iface == Some(head + ".sock"@) || cfg.iface == Some(head + ".socket"@) ==> bind_plan_for(
            cfg,
        ) == (BindPlanView::Unix { path: cfg.iface->0 }),
        match bind_plan_for(cfg) {
            BindPlanView::Unix { path } => cfg.iface == Some(path) && (path
                == path.take(path.len() - 5) + ".sock"@ || path == path.take(path.len() - 7)
                + ".socket"@),
            BindPlanView::Named { iface, ipv6 } => cfg.iface == Some(iface) && ipv6 == cfg.ipv6,
            BindPlanView::Any { ipv6 } => cfg.iface is None && ipv6 == cfg.ipv6,
        },
{
    reveal_strlit(".sock");
    reveal_strlit(".socket");
    assert((head + ".sock"@).skip(head.len() as int) =~= ".sock"@);
    assert((head + ".socket"@).skip(head.len() as int) =~= ".socket"@);
    match cfg.iface {
        Some(iface) => {
            if crate::cli::config::ends_with(iface, ".sock"@) {
                assert(iface =~= iface.take(iface.len() - 5) + ".sock"@);
            }
            if crate::cli::config::ends_with(iface, ".socket"@) {
                assert(iface =~= iface.take(iface.len() - 7) + ".socket"@);
            }
        },
        None => {},
    }
}

/// A name that is an address is bound as it is. Otherwise the first address of the interface in the
/// family that was asked for is bound, and where there is none the interface is refused by name.
pub proof fn law_the_first_address_is_bound(
    literal: Option<Seq<char>>,
    list: Seq<InterfaceAddressView>,
    iface: Seq<char>,
    ipv6: bool,
    k: int,
)
    requires
        0 <= k <= list.len(),
        k < list.len() ==> list[k].name == iface && (if ipv6 {
            list[k].v6 is Some
        } else {
            list[k].v4 is Some
        }),
        forall|i: int|
            0 <= i < k && (#[trigger] list[i]).name == iface ==> (if ipv6 {
                list[i].v6 is None
            } else {
                list[i].v4 is None
            }),
    ensures
        literal matches Some(address) ==> address_for(literal, list, iface, ipv6) == Ok::<
            Seq<char>,
            Seq<char>,
        >(address),
        literal is None && k < list.len() ==> address_for(literal, list, iface, ipv6) == Ok::<
            Seq<char>,
            Seq<char>,
        >(
            if ipv6 {
                list[k].v6->0
            } else {
                list[k].v4->0
            },
        ),
        literal is None && k == list.len() ==> address_for(literal, list, iface, ipv6) == Err::<
            Seq<char>,
            Seq<char>,
        >(
            if ipv6 {
                "no IPv6 address found for interface "@ + iface
            } else {
                "no address found for interface "@ + iface
            },
        ),
{
    lemma_first_address(list, iface, ipv6, k);
}

/// The first address of an interface is found.
proof fn lemma_first_address(
    list: Seq<InterfaceAddressView>,
    iface: Seq<char>,
    ipv6: bool,
    k: int,
)
    requires
        0 <= k <= list.len(),
        k < list.len() ==> list[k].name == iface && address_in(list[k], ipv6) is Some,
        forall|i: int|
            0 <= i < k && (#[trigger] list[i]).name == iface ==> address_in(list[i], ipv6) is None,
    ensures
        interface_address(list, iface, ipv6) == if k < list.len() {
            address_in(list[k], ipv6)
        } else {
            None
        },
    decreases k,
{
    if k > 0 {
        let rest = list.drop_first();
        assert forall|i: int| 0 <= i < k - 1 && (#[trigger] rest[i]).name == iface implies address_in(
            rest[i],
            ipv6,
        ) is None by {
            assert(rest[i] == list[i + 1]);
        }
        assert(list[0].name == iface ==> address_in(list[0], ipv6) is None);
        lemma_first_address(rest, iface, ipv6, k - 1);
    }
}

/// An owner is a user alone, or a user and a group with a colon between; a group that is not named is
/// none.
pub proof fn law_owners_are_users_and_groups(user: Seq<char>, group: Seq<char>)
    requires
        !user.contains(':'),
    ensures
        owner_parts(user) == (user, None::<Seq<char>>),
        owner_parts(user.push(':')) == (user, None::<Seq<char>>),
        group.len() > 0 ==> owner_parts(user.push(':') + group) == (user, Some(group)),
{
    crate::text::laws::law_parts_are_found_again(user, ':', group);
    crate::text::laws::law_parts_are_found_again(user, ':', Seq::empty());
    assert(user.push(':') + Seq::<char>::empty() =~= user.push(':'));
}

/// A socket goes to the ids that the server will run with, as far as they are configured, then to the
/// configured owner, and nobody but the owner and the group may use it. Nothing else is done to it.
pub proof fn law_a_socket_goes_to_its_owner(cfg: ConfigView)
    ensures
        ({
            let steps = socket_steps_for(cfg);
            let ids = cfg.uid is Some || cfg.gid is Some;
            &&& ids ==> steps[0] == (SocketStepView::Chown { uid: cfg.uid, gid: cfg.gid })
            &&& cfg.socket_owner matches Some(owner) ==> steps[if ids {
                1int
            } else {
                0int
            }] == (SocketStepView::Owner { user: owner_parts(owner).0, group: owner_parts(owner).1 })
            &&& steps.last() == (SocketStepView::Chmod { mode: 0o660 })
            &&& steps.len() == 1 + (if ids {
                1int
            } else {
                0int
            }) + (if cfg.socket_owner is Some {
                1int
            } else {
                0int
            })
        }),
{
}

/// Only what was asked for is given up: without a user and a group nothing is, a group is taken on only
/// if one was asked for and a user only if one was. The groups of a user that has a name are taken on,
/// with the group that was asked for or the current one; otherwise every supplementary group is left.
pub proof fn law_only_what_was_asked_for_is_given_up(
    uid: Option<u32>,
    gid: Option<u32>,
    current_gid: u32,
    user: Option<Seq<char>>,
)
    ensures
        ({
            let steps = privilege_steps_for(uid, gid, current_gid, user);
            &&& uid is None && gid is None ==> steps.len() == 0
            &&& uid is Some || gid is Some ==> {
                &&& steps.len() == 1 + (if uid is Some {
                    1int
                } else {
                    0int
                }) + (if gid is Some {
                    1int
                } else {
                    0int
                })
                &&& uid is Some && user is Some ==> steps[0] == (PrivilegeStepView::InitGroups {
                    user: user->0,
                    gid: if gid is Some {
                        gid->0
                    } else {
                        current_gid
                    },
                })
                &&& uid is None || user is None ==> steps[0] is ClearGroups
            }
            &&& uid matches Some(id) ==> steps.last() == (PrivilegeStepView::SetUid { uid: id })
            &&& gid matches Some(id) ==> steps[1] == (PrivilegeStepView::SetGid { gid: id })
        }),
{
}

/// Without TLS every connection is served as it is. With TLS a connection is served only behind a
/// handshake: one that begins with anything else is redirected, and one that begins with nothing is
/// dropped.
pub proof fn law_only_handshakes_are_served_with_tls(first: Option<u8>)
    ensures
        handling_of(false, first) is Plain,
        handling_of(true, first) is Tls <==> first == Some(0x16u8),
        handling_of(true, first) is Drop <==> first is None,
        handling_of(true, first) is RedirectToHttps <==> first is Some && first != Some(0x16u8),
{
}

/// TLS is served with the files that are configured, each for what it is; without a certificate, and
/// without a key, it cannot be, and the complaint names the option that is missing.
pub proof fn law_tls_needs_its_files(cfg: ConfigView)
    ensures
        tls_files_for(cfg) is Ok <==> cfg.ssl_cert is Some && cfg.ssl_key is Some,
        tls_files_for(cfg) matches Ok(files) ==> Some(files.cert) == cfg.ssl_cert && Some(files.key)
            == cfg.ssl_key && files.ca == cfg.ssl_ca,
        tls_files_for(cfg) matches Err(message) ==> message == "--ssl requires --ssl-"@ + (
        if cfg.ssl_cert is None {
            "cert"@
        } else {
            "key"@
        }),
{
    reveal_strlit("--ssl requires --ssl-");
    reveal_strlit("cert");
    reveal_strlit("key");
    reveal_strlit("--ssl requires --ssl-cert");
    reveal_strlit("--ssl requires --ssl-key");
    assert("--ssl requires --ssl-"@ + "cert"@ =~= "--ssl requires --ssl-cert"@);
    assert("--ssl requires --ssl-"@ + "key"@ =~= "--ssl requires --ssl-key"@);
}

/// The log starts with the version, and every line of the summary follows in its place.
pub proof fn law_the_log_starts_with_the_version(cfg: ConfigView, version: Seq<char>)
    ensures
        startup_lines_for(cfg, version)[0] == "ttyd "@ + version + " (rust)"@,
        startup_lines_for(cfg, version).drop_first() == summary(cfg),
{
    assert(startup_lines_for(cfg, version).drop_first() =~= summary(cfg));
}

/// The log names the socket where the server listens on one, and else the port that was bound, which is
/// read back from the line.
pub proof fn law_the_log_names_what_is_listened_on(cfg: ConfigView, port: u16)
    ensures
        bind_plan_for(cfg) matches BindPlanView::Unix { path } ==> listening_line_for(cfg, port)
            == " Listening on unix socket: "@ + path,
        !(bind_plan_for(cfg) is Unix) ==> listening_line_for(cfg, port) == " Listening on port: "@
            + decimal(port as nat) && crate::number::natural(
            listening_line_for(cfg, port).skip(" Listening on port: "@.len() as int),
            10,
        ) == Some(port as int),
{
    crate::number::law_decimal_reads_back(port as nat);
    let head = " Listening on port: "@;
    assert((head + decimal(port as nat)).skip(head.len() as int) =~= decimal(port as nat));
}

/// The browser opens this machine at the port that was bound, over HTTPS exactly if TLS is served.
pub proof fn law_the_browser_opens_the_bound_port(ssl: bool, port: u16)
    ensures
        browser_url_for(ssl, port) == (if ssl {
            "https"@
        } else {
            "http"@
        }) + "://localhost:"@ + decimal(port as nat),
        crate::number::natural(decimal(port as nat), 10) == Some(port as int),
{
    crate::number::law_decimal_reads_back(port as nat);
    reveal_strlit("https");
    reveal_strlit("http");
    reveal_strlit("://localhost:");
    reveal_strlit("https://localhost:");
    reveal_strlit("http://localhost:");
    assert("https"@ + "://localhost:"@ =~= "https://localhost:"@);
    assert("http"@ + "://localhost:"@ =~= "http://localhost:"@);
}

/// The mask under which a socket is made leaves it the mode that is set afterwards, so that nobody else can
/// connect in between.
pub proof fn law_a_socket_is_never_open_to_others()
    ensures
        0o777u32 & !SOCKET_UMASK == SOCKET_MODE,
        SOCKET_UMASK & SOCKET_MODE == 0,
        SOCKET_MODE & 0o007 == 0,
{
    assert(0o777u32 & !0o117u32 == 0o660u32) by (bit_vector);
    assert(0o117u32 & 0o660u32 == 0) by (bit_vector);
    assert(0o660u32 & 0o007u32 == 0) by (bit_vector);
}

} // verus!
