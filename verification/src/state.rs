//! The state that all connections share.

use crate::auth::Authenticator;
use crate::cli::config::{Config, ConfigView};
use crate::text::opt_text;
use std::collections::HashSet;
use std::sync::Arc;
use vstd::prelude::*;
use vstd::std_specs::hash::group_hash_axioms;
use vstd::std_specs::iter::IteratorSpec;

verus! {

broadcast use group_hash_axioms;

/// What is known of a connection.
#[derive(Debug, Clone)]
pub struct ConnInfo {
    /// The address at its other end; none for a UNIX domain socket.
    pub peer: Option<String>,
    pub tls: bool,
}

impl Default for ConnInfo {
    fn default() -> (r: ConnInfo)
        ensures
            r.peer is None,
            r.tls == false,
    {
        ConnInfo { peer: None, tls: false }
    }
}

impl ConnInfo {
    /// The address as the log shows it.
    pub fn peer_display(&self) -> (r: String)
        ensures
            r@ == peer_shown(opt_text(self.peer)),
    {
        match &self.peer {
            Some(peer) => peer.clone(),
            None => "unix".to_owned(),
        }
    }
}

/// The address of a connection as the log shows it; a UNIX domain socket has none.
pub open spec fn peer_shown(peer: Option<Seq<char>>) -> Seq<char> {
    match peer {
        Some(peer) => peer,
        None => "unix"@,
    }
}

/// How many clients are connected once another one has asked to be.
pub open spec fn clients_after(cfg: ConfigView, clients: int) -> int {
    if may_join(cfg, clients) {
        clients + 1
    } else {
        clients
    }
}

/// Whether another client may connect: not a second one with `--once`, and no more than
/// `--max-clients`.
pub open spec fn may_join(cfg: ConfigView, clients: int) -> bool {
    &&& !(cfg.once && clients > 0)
    &&& !(cfg.max_clients > 0 && clients >= cfg.max_clients)
}

/// The running children once another one runs.
pub open spec fn children_with(children: Set<i32>, pid: i32) -> Set<i32> {
    children.insert(pid)
}

/// The running children once one of them no longer runs.
pub open spec fn children_without(children: Set<i32>, pid: i32) -> Set<i32> {
    children.remove(pid)
}

/// The state that all connections share.
pub struct AppState {
    pub cfg: Arc<Config>,
    pub auth: Authenticator,
    pub clients: i64,
    pub children: HashSet<i32>,
    pub shutting_down: bool,
}

impl AppState {
    /// How many clients are connected.
    pub open spec fn clients(&self) -> int {
        self.clients as int
    }

    /// The process groups of all running children.
    pub open spec fn children(&self) -> Set<i32> {
        self.children@
    }

    /// Whether the server winds down.
    pub open spec fn shutting_down(&self) -> bool {
        self.shutting_down
    }

    /// The two states serve by the same configuration.
    pub open spec fn same_server(&self, other: &AppState) -> bool {
        self.cfg == other.cfg && self.auth == other.auth
    }

    /// The state of a server that nobody has connected to.
    pub fn new(cfg: Arc<Config>, auth: Authenticator) -> (r: AppState)
        ensures
            r.cfg == cfg,
            r.auth == auth,
            r.clients() == 0,
            r.children() == Set::<i32>::empty(),
            !r.shutting_down(),
    {
        AppState { cfg, auth, clients: 0, children: HashSet::new(), shutting_down: false }
    }

    /// How many clients are connected.
    pub fn client_count(&self) -> (r: i64)
        ensures
            r == self.clients(),
    {
        self.clients
    }

    /// Takes a slot for a client. The result is whether there was one.
    pub fn try_acquire_client(&mut self) -> (r: bool)
        requires
            old(self).clients() < i64::MAX,
        ensures
            r == may_join(old(self).cfg@, old(self).clients()),
            final(self).clients() == clients_after(old(self).cfg@, old(self).clients()),
            final(self).children() == old(self).children(),
            final(self).shutting_down() == old(self).shutting_down(),
            final(self).same_server(old(self)),
    {
        if self.cfg.once && self.clients > 0 {
            return false;
        }
        let limit: u64 = self.cfg.max_clients as u64;
        if limit > 0 && self.clients >= 0 && self.clients as u64 >= limit {
            return false;
        }
        self.clients = self.clients + 1;
        true
    }

    /// Gives a slot back. The result is how many clients are left.
    pub fn release_client(&mut self) -> (r: i64)
        requires
            old(self).clients() > i64::MIN,
        ensures
            r == old(self).clients() - 1,
            final(self).clients() == r,
            final(self).children() == old(self).children(),
            final(self).shutting_down() == old(self).shutting_down(),
            final(self).same_server(old(self)),
    {
        self.clients = self.clients - 1;
        self.clients
    }

    /// Adds a running child.
    pub fn register_child(&mut self, pid: i32)
        ensures
            final(self).children() == children_with(old(self).children(), pid),
            final(self).clients() == old(self).clients(),
            final(self).shutting_down() == old(self).shutting_down(),
            final(self).same_server(old(self)),
    {
        self.children.insert(pid);
    }

    /// Removes a child that no longer runs.
    pub fn unregister_child(&mut self, pid: i32)
        ensures
            final(self).children() == children_without(old(self).children(), pid),
            final(self).clients() == old(self).clients(),
            final(self).shutting_down() == old(self).shutting_down(),
            final(self).same_server(old(self)),
    {
        self.children.remove(&pid);
    }

    /// The running children, each of them once, in no particular order. They are all signalled
    /// when the server is told to end.
    pub fn child_pids(&self) -> (r: Vec<i32>)
        ensures
            r@.to_set() == self.children(),
            r@.no_duplicates(),
    {
        let mut pids: Vec<i32> = Vec::new();
        for pid in it: self.children.iter()
            invariant
                pids@.len() == it.index(),
                forall|i: int| 0 <= i < pids@.len() ==> pids@[i] == *it.seq()[i],
        {
            pids.push(*pid);
        }
        proof {
            let seen = IteratorSpec::remaining(&self.children.iter());
            assert(pids@ =~= seen.unref());
            assert(pids@.to_set() =~= self.children@);
        }
        pids
    }

    /// Starts winding down: no more connections are taken, and the running sessions end.
    pub fn begin_shutdown(&mut self)
        ensures
            final(self).shutting_down(),
            final(self).clients() == old(self).clients(),
            final(self).children() == old(self).children(),
            final(self).same_server(old(self)),
    {
        self.shutting_down = true;
    }

    /// Whether the server winds down.
    pub fn is_shutting_down(&self) -> (r: bool)
        ensures
            r == self.shutting_down(),
    {
        self.shutting_down
    }
}

/// The number of clients is within the limits: one at a time with `--once`, and no more than
/// `--max-clients` where that is set.
pub open spec fn within_limits(cfg: ConfigView, clients: int) -> bool {
    &&& clients >= 0
    &&& cfg.once ==> clients <= 1
    &&& cfg.max_clients > 0 ==> clients <= cfg.max_clients
}

/// The limits hold at the start and are kept by every client that is let in or leaves. A client is
/// turned away only at a limit, and once a client has left another one may come in.
pub proof fn law_client_limits(cfg: ConfigView, clients: int)
    ensures
        within_limits(cfg, 0),
        within_limits(cfg, clients) && may_join(cfg, clients) ==> within_limits(cfg, clients + 1),
        within_limits(cfg, clients) && clients > 0 ==> within_limits(cfg, clients - 1) && may_join(
            cfg,
            clients - 1,
        ),
        within_limits(cfg, clients) && !may_join(cfg, clients) ==> {
            ||| cfg.once && clients == 1
            ||| cfg.max_clients > 0 && clients == cfg.max_clients
        },
{
}

/// A client may connect exactly if no limit is reached: with `--once` while nobody is connected, and with
/// a limit while fewer are.
pub proof fn law_who_may_join(cfg: ConfigView, clients: int)
    ensures
        may_join(cfg, clients) <==> (cfg.once ==> clients <= 0) && (cfg.max_clients == 0 || clients
            < cfg.max_clients),
{
}

/// A client that is let in takes one slot and one that is turned away takes none.
pub proof fn law_a_slot_for_every_client(cfg: ConfigView, clients: int)
    ensures
        clients_after(cfg, clients) - clients == if may_join(cfg, clients) {
            1int
        } else {
            0int
        },
{
}

/// A connection is shown by its address.
pub proof fn law_connections_are_shown_by_address(peer: Seq<char>)
    ensures
        peer_shown(Some(peer)) == peer,
        peer_shown(None) == "unix"@,
{
}

/// A child that runs is among the running ones until it no longer runs, and the others come and go
/// without it.
pub proof fn law_running_children_are_known(children: Set<i32>, pid: i32, other: i32)
    ensures
        children_with(children, pid).contains(pid),
        !children_without(children, pid).contains(pid),
        other != pid ==> children_with(children, pid).contains(other) == children.contains(other),
        other != pid ==> children_without(children, pid).contains(other) == children.contains(other),
        !children.contains(pid) ==> children_without(children_with(children, pid), pid) == children,
{
    if !children.contains(pid) {
        assert(children_without(children_with(children, pid), pid) =~= children);
    }
}

} // verus!
