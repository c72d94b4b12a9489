//! A terminal session: from the connection of a client to its end.
//!
//! The session is a state machine. It is told what happened and says what is to be done. Nothing
//! is sent to a client, and no process is started for it, before its opening message was accepted.

use crate::auth::same_secret;
use crate::cli::config::{AuthModeView, Config, ConfigView, title_on};
use crate::protocol::{
    CLOSE_NORMAL, INPUT, JSON_DATA, OUTPUT, OpenMessage, PAUSE, RESIZE_TERMINAL, RESUME,
    SET_PREFERENCES, SET_WINDOW_TITLE, frame, framed,
};
use crate::pty::{ExitInfo, Pty, kill_target_of};
use crate::text::opt_text;
use vstd::prelude::*;
use vstd::utf8::encode_utf8;

verus! {

/// Milliseconds for which output is still sent once the child was waited for.
pub const DRAIN_AFTER_EXIT: u64 = 250;

/// Milliseconds to wait for the child's exit status once its terminal has closed.
pub const EXIT_STATUS_GRACE: u64 = 2000;

/// Seconds beyond the ping interval after which a silent client is hung up on.
pub const HANGUP_GRACE: u64 = 7;

/// Milliseconds after which a client whose child is behind with its input is looked at again.
pub const BACKLOG_POLL: u64 = 10;

/// Where a session stands. Times are milliseconds on a clock that does not go back.
#[derive(Debug, Clone, Copy, PartialEq, Eq, Structural)]
pub struct Session {
    /// The opening message was accepted.
    pub admitted: bool,
    /// The child runs.
    pub open: bool,
    /// The client asked for no more output.
    pub paused: bool,
    /// The terminal has reached its end.
    pub output_ended: bool,
    /// The session has ended.
    pub over: bool,
    /// The child was waited for.
    pub reaped: bool,
    /// How the child ended, if that is known.
    pub exit: Option<ExitInfo>,
    /// When to give up on output of a child that has ended.
    pub drain_until: Option<u64>,
    /// When the client was last heard of.
    pub last_seen: u64,
}

/// A session that has just begun.
pub open spec fn new_session() -> Session {
    Session {
        admitted: false,
        open: false,
        paused: false,
        output_ended: false,
        over: false,
        reaped: false,
        exit: None,
        drain_until: None,
        last_seen: 0,
    }
}

/// Why a session ends.
#[derive(Debug, Clone, Copy, PartialEq, Eq, Structural)]
pub enum EndReason {
    /// Something else than an opening message came first though a token is required.
    NotAuthenticated,
    /// Input came before there was a terminal.
    InputTooEarly,
    /// The token of the opening message is not the required one.
    WrongToken,
    /// The child could not be started.
    SpawnFailed,
    /// The client has gone.
    ClientGone,
    /// The client was silent for too long.
    Idle,
    /// The terminal has reached its end.
    OutputEnded,
    /// The output of a child that has ended was waited for long enough.
    Drained,
    /// The server winds down.
    Shutdown,
    /// A frame could not be sent.
    SendFailed,
    /// The child's terminal takes no more input.
    WriterGone,
}

/// What happened.
#[derive(Debug, Clone)]
pub enum Event {
    /// The client sent a message with data.
    Message { now: u64, data: Vec<u8> },
    /// The client sent another message: a ping, its answer, or a close.
    OtherMessage { now: u64 },
    /// The client has gone, or its connection failed.
    ClientGone,
    /// The opening message was read.
    Opening(OpenMessage),
    /// The child runs.
    Started { now: u64 },
    /// The child could not be started.
    SpawnFailed,
    /// It is time for a ping.
    PingDue { now: u64 },
    /// The terminal put out data.
    Output(Vec<u8>),
    /// The terminal has reached its end.
    OutputEnded,
    /// The child was waited for.
    Reaped { now: u64, exit: Option<ExitInfo> },
    /// The time for remaining output is over.
    DrainOver,
    /// The server winds down.
    Shutdown,
    /// A frame could not be sent.
    SendFailed,
    /// The child's terminal takes no more input.
    WriterGone,
}

/// What an event holds.
#[verifier::ext_equal]
pub enum EventView {
    Message { now: u64, data: Seq<u8> },
    OtherMessage { now: u64 },
    ClientGone,
    Opening { columns: u16, rows: u16, token: Option<Seq<char>> },
    Started { now: u64 },
    SpawnFailed,
    PingDue { now: u64 },
    Output(Seq<u8>),
    OutputEnded,
    Reaped { now: u64, exit: Option<ExitInfo> },
    DrainOver,
    Shutdown,
    SendFailed,
    WriterGone,
}

impl View for Event {
    type V = EventView;

    open spec fn view(&self) -> EventView {
        match self {
            Event::Message { now, data } => EventView::Message { now: *now, data: data@ },
            Event::OtherMessage { now } => EventView::OtherMessage { now: *now },
            Event::ClientGone => EventView::ClientGone,
            Event::Opening(m) => EventView::Opening {
                columns: m.columns,
                rows: m.rows,
                token: opt_text(m.auth_token),
            },
            Event::Started { now } => EventView::Started { now: *now },
            Event::SpawnFailed => EventView::SpawnFailed,
            Event::PingDue { now } => EventView::PingDue { now: *now },
            Event::Output(data) => EventView::Output(data@),
            Event::OutputEnded => EventView::OutputEnded,
            Event::Reaped { now, exit } => EventView::Reaped { now: *now, exit: *exit },
            Event::DrainOver => EventView::DrainOver,
            Event::Shutdown => EventView::Shutdown,
            Event::SendFailed => EventView::SendFailed,
            Event::WriterGone => EventView::WriterGone,
        }
    }
}

/// What is to be done.
#[derive(Debug, Clone)]
pub enum Action {
    Nothing,
    /// Read this opening message and tell the session.
    ReadOpening(Vec<u8>),
    /// Start the child in a terminal of this size.
    Spawn { columns: u16, rows: u16 },
    /// Send the title and the preferences.
    Announce,
    /// Send a ping.
    Ping,
    /// Send this frame.
    Send(Vec<u8>),
    /// Write this to the terminal.
    Write(Vec<u8>),
    /// Take over the terminal size that this describes.
    Resize(Vec<u8>),
    /// Remark on a message of an unknown kind.
    Ignored(u8),
    /// End the session.
    End(EndReason),
}

/// What an action holds.
#[verifier::ext_equal]
pub enum ActionView {
    Nothing,
    ReadOpening(Seq<u8>),
    Spawn { columns: u16, rows: u16 },
    Announce,
    Ping,
    Send(Seq<u8>),
    Write(Seq<u8>),
    Resize(Seq<u8>),
    Ignored(u8),
    End(EndReason),
}

impl View for Action {
    type V = ActionView;

    open spec fn view(&self) -> ActionView {
        match self {
            Action::Nothing => ActionView::Nothing,
            Action::ReadOpening(data) => ActionView::ReadOpening(data@),
            Action::Spawn { columns, rows } => ActionView::Spawn { columns: *columns, rows: *rows },
            Action::Announce => ActionView::Announce,
            Action::Ping => ActionView::Ping,
            Action::Send(data) => ActionView::Send(data@),
            Action::Write(data) => ActionView::Write(data@),
            Action::Resize(data) => ActionView::Resize(data@),
            Action::Ignored(command) => ActionView::Ignored(*command),
            Action::End(reason) => ActionView::End(*reason),
        }
    }
}

/// The session goes on as it is, and this is to be done.
pub open spec fn stays(s: Session, action: ActionView) -> (Session, ActionView) {
    (s, action)
}

/// The session ends.
pub open spec fn ends(s: Session, reason: EndReason) -> (Session, ActionView) {
    (Session { over: true, ..s }, ActionView::End(reason))
}

/// A token is accepted: none is required, or it is the required one. No token counts as an empty
/// one.
pub open spec fn token_accepted(cfg: ConfigView, token: Option<Seq<char>>) -> bool {
    match cfg.auth {
        AuthModeView::Basic { credential } => match token {
            Some(token) => token == credential,
            None => credential.len() == 0,
        },
        _ => true,
    }
}

/// What a message does before there is a terminal.
pub open spec fn early_message(s: Session, cfg: ConfigView, data: Seq<u8>) -> (Session, ActionView) {
    if data.len() == 0 || s.admitted {
        stays(s, ActionView::Nothing)
    } else if data[0] == JSON_DATA {
        stays(s, ActionView::ReadOpening(data))
    } else if cfg.auth is Basic {
        ends(s, EndReason::NotAuthenticated)
    } else if data[0] == INPUT && cfg.writable {
        ends(s, EndReason::InputTooEarly)
    } else {
        stays(s, ActionView::Nothing)
    }
}

/// What a message does once there is a terminal.
pub open spec fn client_message(s: Session, cfg: ConfigView, data: Seq<u8>) -> (
    Session,
    ActionView,
) {
    if data.len() == 0 {
        stays(s, ActionView::Nothing)
    } else {
        let payload = data.drop_first();
        if data[0] == INPUT {
            stays(
                s,
                if cfg.writable {
                    ActionView::Write(payload)
                } else {
                    ActionView::Nothing
                },
            )
        } else if data[0] == RESIZE_TERMINAL {
            stays(s, ActionView::Resize(payload))
        } else if data[0] == PAUSE {
            stays(Session { paused: true, ..s }, ActionView::Nothing)
        } else if data[0] == RESUME {
            stays(Session { paused: false, ..s }, ActionView::Nothing)
        } else if data[0] == JSON_DATA {
            stays(s, ActionView::Nothing)
        } else {
            stays(s, ActionView::Ignored(data[0]))
        }
    }
}

/// The client was silent for longer than a ping interval and seven seconds.
pub open spec fn is_idle(s: Session, cfg: ConfigView, now: u64) -> bool {
    now - s.last_seen > (cfg.ping_interval + HANGUP_GRACE) * 1000
}

/// What an event does before there is a terminal.
pub open spec fn early_step(s: Session, cfg: ConfigView, event: EventView) -> (Session, ActionView) {
    match event {
        EventView::Message { data, .. } => early_message(s, cfg, data),
        EventView::Opening { columns, rows, token } => if s.admitted {
            stays(s, ActionView::Nothing)
        } else if token_accepted(cfg, token) {
            stays(Session { admitted: true, ..s }, ActionView::Spawn { columns, rows })
        } else {
            ends(s, EndReason::WrongToken)
        },
        EventView::Started { now } => if s.admitted {
            stays(Session { open: true, last_seen: now, ..s }, ActionView::Announce)
        } else {
            stays(s, ActionView::Nothing)
        },
        EventView::SpawnFailed => ends(s, EndReason::SpawnFailed),
        EventView::ClientGone => ends(s, EndReason::ClientGone),
        EventView::Shutdown => ends(s, EndReason::Shutdown),
        _ => stays(s, ActionView::Nothing),
    }
}

/// What an event does once there is a terminal.
pub open spec fn open_step(s: Session, cfg: ConfigView, event: EventView) -> (Session, ActionView) {
    match event {
        EventView::Message { now, data } => client_message(
            Session { last_seen: now, ..s },
            cfg,
            data,
        ),
        EventView::OtherMessage { now } => stays(
            Session { last_seen: now, ..s },
            ActionView::Nothing,
        ),
        EventView::ClientGone => ends(s, EndReason::ClientGone),
        EventView::PingDue { now } => if is_idle(s, cfg, now) {
            ends(s, EndReason::Idle)
        } else {
            stays(s, ActionView::Ping)
        },
        EventView::Output(data) => stays(s, ActionView::Send(framed(OUTPUT, data))),
        EventView::OutputEnded => ends(
            Session { output_ended: true, ..s },
            EndReason::OutputEnded,
        ),
        EventView::Reaped { now, exit } => stays(
            Session {
                reaped: true,
                exit: if exit is Some {
                    exit
                } else {
                    s.exit
                },
                drain_until: Some(drain_deadline(now)),
                ..s
            },
            ActionView::Nothing,
        ),
        EventView::DrainOver => ends(s, EndReason::Drained),
        EventView::Shutdown => ends(s, EndReason::Shutdown),
        EventView::SendFailed => ends(s, EndReason::SendFailed),
        EventView::WriterGone => ends(s, EndReason::WriterGone),
        _ => stays(s, ActionView::Nothing),
    }
}

/// When to give up on the output of a child that was waited for just now.
pub open spec fn drain_deadline(now: u64) -> u64 {
    if now + DRAIN_AFTER_EXIT <= u64::MAX {
        (now + DRAIN_AFTER_EXIT) as u64
    } else {
        u64::MAX
    }
}

/// What an event does. A session that is over stays as it is.
pub open spec fn step(s: Session, cfg: ConfigView, event: EventView) -> (Session, ActionView) {
    if s.over {
        stays(s, ActionView::Nothing)
    } else if s.open {
        open_step(s, cfg, event)
    } else {
        early_step(s, cfg, event)
    }
}

/// What a session waits for.
#[derive(Debug, Clone, Copy, PartialEq, Eq, Structural)]
pub struct Interest {
    /// Messages of the client.
    pub client: bool,
    /// Output of the terminal.
    pub output: bool,
    /// The end of the child.
    pub exit: bool,
    /// The time for a ping.
    pub ping: bool,
    /// The server's winding down.
    pub shutdown: bool,
    /// The time at which the remaining output is given up.
    pub drain_until: Option<u64>,
}

/// What a session waits for, given whether the child is far behind with its input: a client whose
/// child is behind is not read from, and a terminal whose client has paused is not.
pub open spec fn interest_of(s: Session, cfg: ConfigView, backlog_full: bool) -> Interest {
    Interest {
        client: !s.over && !(s.open && backlog_full),
        output: !s.over && s.open && !s.paused,
        exit: !s.over && s.open && !s.reaped,
        ping: !s.over && s.open && cfg.ping_interval > 0,
        shutdown: !s.over && s.open,
        drain_until: if s.over {
            None
        } else {
            s.drain_until
        },
    }
}

impl Session {
    /// A session that has just begun.
    pub fn new() -> (r: Session)
        ensures
            r == new_session(),
    {
        Session {
            admitted: false,
            open: false,
            paused: false,
            output_ended: false,
            over: false,
            reaped: false,
            exit: None,
            drain_until: None,
            last_seen: 0,
        }
    }

    /// Ends the session.
    fn end(&mut self, reason: EndReason) -> (r: Action)
        ensures
            (*final(self), r@) == ends(*old(self), reason),
    {
        self.over = true;
        Action::End(reason)
    }

    /// Takes a message before there is a terminal.
    fn take_early_message(&mut self, cfg: &Config, data: Vec<u8>) -> (r: Action)
        ensures
            (*final(self), r@) == early_message(*old(self), cfg@, data@),
    {
        if data.len() == 0 || self.admitted {
            return Action::Nothing;
        }
        let command: u8 = data[0];
        if command == JSON_DATA {
            return Action::ReadOpening(data);
        }
        if cfg.requires_ws_token() {
            return self.end(EndReason::NotAuthenticated);
        }
        if command == INPUT && cfg.writable {
            return self.end(EndReason::InputTooEarly);
        }
        Action::Nothing
    }

    /// Takes a message once there is a terminal.
    fn take_message(&mut self, cfg: &Config, data: Vec<u8>) -> (r: Action)
        ensures
            (*final(self), r@) == client_message(*old(self), cfg@, data@),
    {
        if data.len() == 0 {
            return Action::Nothing;
        }
        let command: u8 = data[0];
        if command == INPUT || command == RESIZE_TERMINAL {
            let payload = tail_of(&data);
            if command == RESIZE_TERMINAL {
                return Action::Resize(payload);
            }
            if cfg.writable {
                return Action::Write(payload);
            }
            return Action::Nothing;
        }
        if command == PAUSE {
            self.paused = true;
            return Action::Nothing;
        }
        if command == RESUME {
            self.paused = false;
            return Action::Nothing;
        }
        if command == JSON_DATA {
            return Action::Nothing;
        }
        Action::Ignored(command)
    }

    /// Takes an event before there is a terminal.
    fn take_early(&mut self, cfg: &Config, event: Event) -> (r: Action)
        ensures
            (*final(self), r@) == early_step(*old(self), cfg@, event@),
    {
        match event {
            Event::Message { data, .. } => self.take_early_message(cfg, data),
            Event::Opening(message) => {
                if self.admitted {
                    Action::Nothing
                } else if accepts_token(cfg, &message.auth_token) {
                    self.admitted = true;
                    Action::Spawn { columns: message.columns, rows: message.rows }
                } else {
                    self.end(EndReason::WrongToken)
                }
            },
            Event::Started { now } => {
                if self.admitted {
                    self.open = true;
                    self.last_seen = now;
                    Action::Announce
                } else {
                    Action::Nothing
                }
            },
            Event::SpawnFailed => self.end(EndReason::SpawnFailed),
            Event::ClientGone => self.end(EndReason::ClientGone),
            Event::Shutdown => self.end(EndReason::Shutdown),
            _ => Action::Nothing,
        }
    }

    /// Takes an event once there is a terminal.
    fn take_open(&mut self, cfg: &Config, event: Event) -> (r: Action)
        ensures
            (*final(self), r@) == open_step(*old(self), cfg@, event@),
    {
        match event {
            Event::Message { now, data } => {
                self.last_seen = now;
                self.take_message(cfg, data)
            },
            Event::OtherMessage { now } => {
                self.last_seen = now;
                Action::Nothing
            },
            Event::ClientGone => self.end(EndReason::ClientGone),
            Event::PingDue { now } => {
                let limit: u128 = (cfg.ping_interval as u128 + HANGUP_GRACE as u128) * 1000;
                if now > self.last_seen && (now - self.last_seen) as u128 > limit {
                    self.end(EndReason::Idle)
                } else {
                    Action::Ping
                }
            },
            Event::Output(data) => Action::Send(frame(OUTPUT, &data)),
            Event::OutputEnded => {
                self.output_ended = true;
                self.end(EndReason::OutputEnded)
            },
            Event::Reaped { now, exit } => {
                self.reaped = true;
                if exit.is_some() {
                    self.exit = exit;
                }
                self.drain_until = Some(
                    if now <= u64::MAX - DRAIN_AFTER_EXIT {
                        now + DRAIN_AFTER_EXIT
                    } else {
                        u64::MAX
                    },
                );
                Action::Nothing
            },
            Event::DrainOver => self.end(EndReason::Drained),
            Event::Shutdown => self.end(EndReason::Shutdown),
            Event::SendFailed => self.end(EndReason::SendFailed),
            Event::WriterGone => self.end(EndReason::WriterGone),
            _ => Action::Nothing,
        }
    }

    /// Takes an event. The result is what is to be done.
    pub fn take(&mut self, cfg: &Config, event: Event) -> (r: Action)
        ensures
            (*final(self), r@) == step(*old(self), cfg@, event@),
    {
        if self.over {
            Action::Nothing
        } else if self.open {
            self.take_open(cfg, event)
        } else {
            self.take_early(cfg, event)
        }
    }

    /// What the session waits for, given whether the child is far behind with its input.
    pub fn interest(&self, cfg: &Config, backlog_full: bool) -> (r: Interest)
        ensures
            r == interest_of(*self, cfg@, backlog_full),
    {
        Interest {
            client: !self.over && !(self.open && backlog_full),
            output: !self.over && self.open && !self.paused,
            exit: !self.over && self.open && !self.reaped,
            ping: !self.over && self.open && cfg.ping_interval > 0,
            shutdown: !self.over && self.open,
            drain_until: if self.over {
                None
            } else {
                self.drain_until
            },
        }
    }

    /// Whether the exit status is worth waiting for at the end: the terminal has closed, and the
    /// child was not waited for yet.
    pub fn awaits_exit(&self) -> (r: bool)
        ensures
            r == lacks_status(*self),
    {
        self.output_ended && !self.reaped && self.exit.is_none()
    }

    /// Notes how the child ended when that became known only after the session's end.
    pub fn note_exit(&mut self, exit: ExitInfo)
        ensures
            *final(self) == (Session { exit: Some(exit), ..*old(self) }),
    {
        self.exit = Some(exit);
    }

    /// The code that the connection is closed with. Only the end of a child that ended well is
    /// told to the browser; any other connection is dropped, and the browser connects again.
    pub fn close_code(&self) -> (r: Option<u16>)
        ensures
            r == closing_code(*self),
    {
        match &self.exit {
            Some(exit) => if exit.success() {
                Some(CLOSE_NORMAL)
            } else {
                None
            },
            None => None,
        }
    }

    /// What is owed when the session has ended, given whether the process of its child answers: the
    /// code that the connection is closed with, and the configured signal for a child that still
    /// runs.
    pub fn ending(&self, cfg: &Config, child: &Pty, answers: bool) -> (r: Ending)
        ensures
            r == ending_of(*self, cfg@, *child, answers),
    {
        let signal = if child.is_running(answers) {
            match child.kill_target() {
                Some(target) => Some(ChildSignal { target, number: cfg.sig_code }),
                None => None,
            }
        } else {
            None
        };
        Ending { close: self.close_code(), signal }
    }
}

/// A signal, and the process group that it goes to.
#[derive(Debug, Clone, Copy, PartialEq, Eq, Structural)]
pub struct ChildSignal {
    /// The group, as a negated process id.
    pub target: i32,
    pub number: i32,
}

/// What is owed when a session has ended.
#[derive(Debug, Clone, Copy, PartialEq, Eq, Structural)]
pub struct Ending {
    /// The code that the connection is closed with; without one it is dropped.
    pub close: Option<u16>,
    pub signal: Option<ChildSignal>,
}

/// What is owed when a session has ended.
pub open spec fn ending_of(s: Session, cfg: ConfigView, child: Pty, answers: bool) -> Ending {
    Ending {
        close: closing_code(s),
        signal: match kill_target_of(child) {
            Some(target) => if answers {
                Some(ChildSignal { target, number: cfg.sig_code })
            } else {
                None
            },
            None => None,
        },
    }
}

/// The exit status is worth waiting for: the terminal has closed, the child was not waited for yet, and
/// how it ended is not known.
pub open spec fn lacks_status(s: Session) -> bool {
    s.output_ended && !s.reaped && s.exit is None
}

/// The code that a connection is closed with.
pub open spec fn closing_code(s: Session) -> Option<u16> {
    match s.exit {
        Some(exit) => if exit.signal is None && exit.code == 0 {
            Some(CLOSE_NORMAL)
        } else {
            None
        },
        None => None,
    }
}

/// All bytes but the first.
fn tail_of(data: &Vec<u8>) -> (r: Vec<u8>)
    requires
        data@.len() > 0,
    ensures
        r@ == data@.drop_first(),
{
    let tail = vstd::slice::slice_subrange(data.as_slice(), 1, data.len());
    let mut out: Vec<u8> = Vec::new();
    out.extend_from_slice(tail);
    assert(out@ =~= data@.drop_first());
    out
}

/// Whether the token of an opening message is accepted.
pub fn accepts_token(cfg: &Config, token: &Option<String>) -> (r: bool)
    ensures
        r == token_accepted(cfg@, opt_text(*token)),
{
    match cfg.credential() {
        Some(credential) => match token {
            Some(token) => same_secret(token.as_str(), credential),
            None => {
                let empty = String::new();
                let same = same_secret(empty.as_str(), credential);
                proof {
                    if credential@.len() == 0 {
                        assert(credential@ =~= Seq::empty());
                    }
                }
                same
            },
        },
        None => true,
    }
}

/// The frames that announce a terminal: its title and the client's preferences.
pub open spec fn announcement(cfg: ConfigView, host: Seq<char>) -> Seq<Seq<u8>> {
    seq![
        framed(SET_WINDOW_TITLE, encode_utf8(title_on(cfg, host))),
        framed(SET_PREFERENCES, encode_utf8(cfg.prefs_json)),
    ]
}

/// The frames that announce a terminal on a host of the given name.
pub fn announce(cfg: &Config, host: &str) -> (r: (Vec<u8>, Vec<u8>))
    ensures
        seq![r.0@, r.1@] == announcement(cfg@, host@),
{
    let title = cfg.window_title_on(host);
    (
        frame(SET_WINDOW_TITLE, title.as_str().as_bytes()),
        frame(SET_PREFERENCES, cfg.prefs_json.as_str().as_bytes()),
    )
}

/// Seconds between two pings. The timer needs a period even where no pings are sent.
pub open spec fn ping_period_of(cfg: ConfigView) -> u64 {
    if cfg.ping_interval == 0 {
        1
    } else {
        cfg.ping_interval
    }
}

/// Seconds between two pings of a session.
pub fn ping_period(cfg: &Config) -> (r: u64)
    ensures
        r == ping_period_of(cfg@),
{
    if cfg.ping_interval == 0 {
        1
    } else {
        cfg.ping_interval
    }
}

/// The server ends with a session: it was told to, and nobody is connected any more.
pub open spec fn ends_server(cfg: ConfigView, remaining: int) -> bool {
    (cfg.once || cfg.exit_no_conn) && remaining <= 0
}

/// Whether the server ends with a session after which `remaining` clients are connected.
pub fn server_ends(cfg: &Config, remaining: i64) -> (r: bool)
    ensures
        r == ends_server(cfg@, remaining as int),
{
    (cfg.once || cfg.exit_no_conn) && remaining <= 0
}

} // verus!
