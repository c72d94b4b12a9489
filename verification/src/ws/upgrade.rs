//! The request that turns a connection into a WebSocket.

use crate::cli::config::{AuthMode, ConfigView};
use crate::headers::{Header, HeaderView, first_text, header_text, headers_view};
use crate::state::{AppState, clients_after, may_join};
use crate::text::{opt_str, same_ignoring_case, texts};
use crate::ws::origin::{origin_host, origin_names_host, same_origin};
use crate::ws::query::{are_decoded, parse_url_args, raw_args, url_args};
use vstd::prelude::*;

verus! {

/// The slot of a client. It is given back once, however often that is asked for.
#[derive(Debug)]
pub struct ClientSlot {
    pub released: bool,
}

/// How many clients are connected once a slot was given back, given whether it was given back before.
pub open spec fn clients_left(released: bool, clients: int) -> int {
    if released {
        clients
    } else {
        clients - 1
    }
}

impl ClientSlot {
    /// Takes a slot, if there is one.
    pub fn acquire(state: &mut AppState) -> (r: Option<ClientSlot>)
        requires
            old(state).clients() < i64::MAX,
        ensures
            r is Some == may_join(old(state).cfg@, old(state).clients()),
            r matches Some(slot) ==> !slot.released,
            final(state).clients() == clients_after(old(state).cfg@, old(state).clients()),
            final(state).children() == old(state).children(),
            final(state).shutting_down() == old(state).shutting_down(),
            final(state).same_server(old(state)),
    {
        if state.try_acquire_client() {
            Some(ClientSlot { released: false })
        } else {
            None
        }
    }

    /// Gives the slot back, unless it was given back before. The result is how many clients are
    /// left.
    pub fn release(&mut self, state: &mut AppState) -> (r: i64)
        requires
            old(state).clients() > i64::MIN,
        ensures
            final(self).released,
            r == final(state).clients(),
            final(state).clients() == clients_left(old(self).released, old(state).clients()),
            final(state).children() == old(state).children(),
            final(state).shutting_down() == old(state).shutting_down(),
            final(state).same_server(old(state)),
    {
        if self.released {
            return state.client_count();
        }
        self.released = true;
        state.release_client()
    }
}

/// What is answered to a request for a WebSocket.
#[derive(Debug)]
pub enum Upgrade {
    /// It comes from a page of another host.
    Forbidden,
    /// There is no slot for another client.
    Full,
    /// It has a slot, and the command gets these arguments.
    Accepted { args: Vec<String>, slot: ClientSlot },
}

/// What an answer holds.
#[verifier::ext_equal]
pub enum UpgradeView {
    Forbidden,
    Full,
    Accepted { args: Seq<Seq<char>> },
}

impl View for Upgrade {
    type V = UpgradeView;

    open spec fn view(&self) -> UpgradeView {
        match self {
            Upgrade::Forbidden => UpgradeView::Forbidden,
            Upgrade::Full => UpgradeView::Full,
            Upgrade::Accepted { args, .. } => UpgradeView::Accepted { args: texts(args@) },
        }
    }
}

/// A request comes from a page of the host that it is sent to.
pub open spec fn from_same_host(headers: Seq<HeaderView>) -> bool {
    same_origin(first_text(headers, "origin"@), first_text(headers, "host"@))
}

/// Whether a request comes from a page of the host that it is sent to.
pub fn origin_matches_host(headers: &[Header]) -> (r: bool)
    ensures
        r == from_same_host(headers_view(headers@)),
{
    match (header_text(headers, "origin"), header_text(headers, "host")) {
        (Some(origin), Some(host)) => origin_names_host(origin.as_str(), host.as_str()),
        _ => false,
    }
}

/// What is answered to a request for a WebSocket while `clients` clients are connected.
pub open spec fn upgrade_for(
    cfg: ConfigView,
    clients: int,
    headers: Seq<HeaderView>,
    query: Option<Seq<char>>,
) -> UpgradeView {
    if cfg.check_origin && !from_same_host(headers) {
        UpgradeView::Forbidden
    } else if !may_join(cfg, clients) {
        UpgradeView::Full
    } else {
        UpgradeView::Accepted {
            args: if cfg.url_arg {
                url_args(query)
            } else {
                Seq::empty()
            },
        }
    }
}

/// Decides on a request for a WebSocket, and takes a slot for it if it is accepted.
pub fn handle_upgrade(state: &mut AppState, headers: &[Header], query: Option<&str>) -> (r: Upgrade)
    requires
        old(state).clients() < i64::MAX,
    ensures
        r@ == upgrade_for(
            old(state).cfg@,
            old(state).clients(),
            headers_view(headers@),
            opt_str(query),
        ),
        r matches Upgrade::Accepted { args, .. } ==> (old(state).cfg@.url_arg ==> are_decoded(
            raw_args(opt_str(query)),
            texts(args@),
        )),
        r matches Upgrade::Accepted { slot, .. } ==> !slot.released,
        final(state).clients() == if r@ is Accepted {
            old(state).clients() + 1
        } else {
            old(state).clients()
        },
        final(state).children() == old(state).children(),
        final(state).shutting_down() == old(state).shutting_down(),
        final(state).same_server(old(state)),
{
    if state.cfg.check_origin && !origin_matches_host(headers) {
        return Upgrade::Forbidden;
    }
    let slot = match ClientSlot::acquire(state) {
        Some(slot) => slot,
        None => {
            return Upgrade::Full;
        },
    };
    let args = if state.cfg.url_arg {
        parse_url_args(query)
    } else {
        let none: Vec<String> = Vec::new();
        assert(texts(none@) =~= Seq::empty());
        none
    };
    Upgrade::Accepted { args, slot }
}

/// The status that refuses a request; none when it is accepted.
pub open spec fn refusing_status(answer: UpgradeView) -> Option<u16> {
    match answer {
        UpgradeView::Forbidden => Some(403),
        UpgradeView::Full => Some(503),
        UpgradeView::Accepted { .. } => None,
    }
}

impl Upgrade {
    /// The status that refuses a request; none when it is accepted.
    pub fn refusal(&self) -> (r: Option<u16>)
        ensures
            r == refusing_status(self@),
    {
        match self {
            Upgrade::Forbidden => Some(403),
            Upgrade::Full => Some(503),
            Upgrade::Accepted { .. } => None,
        }
    }
}

/// Whether a terminal opens only for a matching token.
pub fn ws_token_required(mode: &AuthMode) -> (r: bool)
    ensures
        r == (mode@ is Basic),
{
    match mode {
        AuthMode::Basic { .. } => true,
        _ => false,
    }
}

/// With `--check-origin`, a page of another host never gets a WebSocket, nor does a client that
/// names no origin.
pub proof fn law_foreign_pages_are_refused(
    cfg: ConfigView,
    clients: int,
    headers: Seq<HeaderView>,
    query: Option<Seq<char>>,
)
    requires
        cfg.check_origin,
        !from_same_host(headers) || first_text(headers, "origin"@) is None,
    ensures
        upgrade_for(cfg, clients, headers, query) == UpgradeView::Forbidden,
{
}

/// Without `--url-arg`, nothing in the URL reaches the command.
pub proof fn law_the_url_adds_no_arguments_unasked(
    cfg: ConfigView,
    clients: int,
    headers: Seq<HeaderView>,
    query: Option<Seq<char>>,
)
    requires
        !cfg.url_arg,
    ensures
        upgrade_for(cfg, clients, headers, query) matches UpgradeView::Accepted { args }
            ==> args.len() == 0,
{
}

/// A request for a WebSocket is accepted exactly if its origin is accepted and there is a slot; a foreign
/// page is forbidden, and everybody else without a slot is told to come back. What is accepted has the
/// arguments of its URL exactly if that was allowed.
pub proof fn law_who_gets_a_websocket(
    cfg: ConfigView,
    clients: int,
    headers: Seq<HeaderView>,
    query: Option<Seq<char>>,
)
    ensures
        ({
            let answer = upgrade_for(cfg, clients, headers, query);
            let welcome = !cfg.check_origin || from_same_host(headers);
            &&& refusing_status(answer) is None <==> welcome && may_join(cfg, clients)
            &&& !welcome ==> refusing_status(answer) == Some(403u16)
            &&& welcome && !may_join(cfg, clients) ==> refusing_status(answer) == Some(503u16)
            &&& answer matches UpgradeView::Accepted { args } ==> args == if cfg.url_arg {
                url_args(query)
            } else {
                Seq::empty()
            }
        }),
{
}

/// A page is of the host that it talks to exactly if it names its origin, the request names its host, and
/// the two are the same in any case.
pub proof fn law_pages_of_the_same_host(headers: Seq<HeaderView>)
    ensures
        from_same_host(headers) <==> (first_text(headers, "origin"@) matches Some(origin) && first_text(
            headers,
            "host"@,
        ) matches Some(host) && origin_host(origin) matches Some(name) && same_ignoring_case(
            name,
            host,
        )),
{
}

/// A slot that was taken is given back once: then as many clients are connected as before it was taken,
/// however often it is given back.
pub proof fn law_slots_are_given_back_once(cfg: ConfigView, clients: int)
    requires
        may_join(cfg, clients),
    ensures
        clients_left(false, clients_after(cfg, clients)) == clients,
        clients_left(true, clients_left(false, clients_after(cfg, clients))) == clients,
{
}

} // verus!
