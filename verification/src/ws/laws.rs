//! What holds of every session, whatever happens in it.

use crate::cli::config::{AuthModeView, ConfigView, title_on};
use crate::protocol::{
    CLOSE_NORMAL, INPUT, JSON_DATA, OUTPUT, PAUSE, RESIZE_TERMINAL, RESUME, SET_PREFERENCES,
    SET_WINDOW_TITLE, framed,
};
use crate::pty::{ExitInfo, Pty};
use crate::ws::session::{
    ActionView, EndReason, EventView, HANGUP_GRACE, Session, announcement, closing_code,
    drain_deadline, ending_of, ends_server, interest_of, lacks_status, new_session, ping_period_of,
    step, token_accepted,
};
use vstd::prelude::*;
use vstd::utf8::encode_utf8;

verus! {

/// Where a new session stands after some events.
pub open spec fn after(cfg: ConfigView, events: Seq<EventView>) -> Session
    decreases events.len(),
{
    if events.len() == 0 {
        new_session()
    } else {
        step(after(cfg, events.drop_last()), cfg, events.last()).0
    }
}

/// What is to be done at the last of some events.
pub open spec fn last_action(cfg: ConfigView, events: Seq<EventView>) -> ActionView
    recommends
        events.len() > 0,
{
    step(after(cfg, events.drop_last()), cfg, events.last()).1
}

/// An event is an opening message whose token is accepted.
pub open spec fn admits(cfg: ConfigView, event: EventView) -> bool {
    event matches EventView::Opening { token, .. } && token_accepted(cfg, token)
}

/// One of the events is an opening message whose token is accepted.
pub open spec fn was_admitted(cfg: ConfigView, events: Seq<EventView>) -> bool {
    exists|j: int| 0 <= j < events.len() && admits(cfg, #[trigger] events[j])
}

/// An action that the client, or a process, gets to see.
pub open spec fn has_effect(action: ActionView) -> bool {
    action is Spawn || action is Announce || action is Ping || action is Send || action is Write
        || action is Resize
}

/// A terminal is open only for a client that was admitted.
proof fn lemma_admission(cfg: ConfigView, events: Seq<EventView>)
    ensures
        after(cfg, events).open ==> after(cfg, events).admitted,
        after(cfg, events).admitted ==> was_admitted(cfg, events),
    decreases events.len(),
{
    if events.len() > 0 {
        let before = events.drop_last();
        lemma_admission(cfg, before);
        if was_admitted(cfg, before) {
            let j = choose|j: int| 0 <= j < before.len() && admits(cfg, #[trigger] before[j]);
            assert(events[j] == before[j]);
        }
        if admits(cfg, events.last()) {
            assert(admits(cfg, events[events.len() - 1]));
        }
    }
}

/// Nothing is sent to a client, and no process is started or touched for it, unless an opening
/// message with an accepted token has come.
pub proof fn law_nothing_happens_before_admission(cfg: ConfigView, events: Seq<EventView>)
    requires
        events.len() > 0,
        has_effect(last_action(cfg, events)),
    ensures
        was_admitted(cfg, events),
        !(last_action(cfg, events) is Spawn) ==> was_admitted(cfg, events.drop_last()),
{
    let before = events.drop_last();
    lemma_admission(cfg, events);
    lemma_admission(cfg, before);
    if was_admitted(cfg, before) {
        let j = choose|j: int| 0 <= j < before.len() && admits(cfg, #[trigger] before[j]);
        assert(events[j] == before[j]);
    } else {
        assert(admits(cfg, events[events.len() - 1]));
    }
}

/// A client that was admitted stays admitted.
proof fn lemma_admission_stays(cfg: ConfigView, events: Seq<EventView>, i: int, j: int)
    requires
        0 <= i <= j <= events.len(),
        after(cfg, events.take(i)).admitted,
    ensures
        after(cfg, events.take(j)).admitted,
    decreases j - i,
{
    if i < j {
        lemma_admission_stays(cfg, events, i, j - 1);
        assert(events.take(j).drop_last() =~= events.take(j - 1));
    }
}

/// A session starts one child at most, whatever its client sends: of all the events in it, only one
/// can lead to that.
pub proof fn law_one_child_is_started(cfg: ConfigView, events: Seq<EventView>, i: int, j: int)
    requires
        0 < i < j <= events.len(),
        last_action(cfg, events.take(i)) is Spawn,
    ensures
        !(last_action(cfg, events.take(j)) is Spawn),
{
    assert(events.take(i).drop_last() =~= events.take(i - 1));
    assert(events.take(j).drop_last() =~= events.take(j - 1));
    lemma_admission_stays(cfg, events, i, j - 1);
}

/// A terminal that is not writable is never written to.
pub proof fn law_a_readonly_terminal_takes_no_input(s: Session, cfg: ConfigView, event: EventView)
    requires
        !cfg.writable,
    ensures
        !(step(s, cfg, event).1 is Write),
{
}

/// What is written to the terminal is what the client sent as input, byte for byte.
pub proof fn law_input_arrives_unchanged(s: Session, cfg: ConfigView, now: u64, payload: Seq<u8>)
    requires
        s.open,
        !s.over,
        cfg.writable,
    ensures
        step(s, cfg, EventView::Message { now, data: framed(INPUT, payload) }).1
            == ActionView::Write(payload),
{
    assert(framed(INPUT, payload).drop_first() =~= payload);
}

/// Output is sent byte for byte behind its command, and nothing but output is sent that way.
pub proof fn law_output_arrives_unchanged(s: Session, cfg: ConfigView, event: EventView)
    ensures
        step(s, cfg, event).1 matches ActionView::Send(sent) ==> (event matches EventView::Output(
            data,
        ) && sent == framed(OUTPUT, data)),
        s.open && !s.over ==> (event matches EventView::Output(data) ==> step(s, cfg, event).1
            == ActionView::Send(framed(OUTPUT, data))),
{
}

/// A client that has asked for no more output is sent none until it asks for it again.
pub proof fn law_pause_stops_output(s: Session, cfg: ConfigView, now: u64, rest: Seq<u8>, full: bool)
    requires
        s.open,
        !s.over,
    ensures
        ({
            let paused = step(s, cfg, EventView::Message { now, data: framed(PAUSE, rest) }).0;
            &&& !interest_of(paused, cfg, full).output
            &&& paused == (Session { paused: true, last_seen: now, ..s })
        }),
        ({
            let resumed = step(s, cfg, EventView::Message { now, data: framed(RESUME, rest) }).0;
            &&& interest_of(resumed, cfg, full).output
            &&& resumed == (Session { paused: false, last_seen: now, ..s })
        }),
{
}

/// While a session is paused, only a message of the client can make it take output again.
pub proof fn law_only_the_client_resumes(s: Session, cfg: ConfigView, event: EventView)
    requires
        s.paused,
        !step(s, cfg, event).0.paused,
    ensures
        event matches EventView::Message { data, .. } && data.len() > 0 && data[0] == RESUME,
{
}

/// A client whose child is far behind with its input is not read from; it is as soon as the child
/// has caught up.
pub proof fn law_a_full_backlog_stops_the_client(s: Session, cfg: ConfigView)
    requires
        s.open,
        !s.over,
    ensures
        !interest_of(s, cfg, true).client,
        interest_of(s, cfg, false).client,
        interest_of(s, cfg, true).output == interest_of(s, cfg, false).output,
{
}

/// A session that is over does nothing more and waits for nothing.
pub proof fn law_the_end_is_final(s: Session, cfg: ConfigView, event: EventView, full: bool)
    requires
        s.over,
    ensures
        step(s, cfg, event) == (s, ActionView::Nothing),
        ({
            let i = interest_of(s, cfg, full);
            !i.client && !i.output && !i.exit && !i.ping && !i.shutdown && i.drain_until is None
        }),
{
}

/// The end of the child does not end the session: the output that it left behind is still taken and
/// sent, until the terminal has reached its end or the time for it is over.
pub proof fn law_the_last_output_is_waited_for(
    s: Session,
    cfg: ConfigView,
    now: u64,
    exit: Option<ExitInfo>,
    full: bool,
)
    requires
        s.open,
        !s.over,
    ensures
        ({
            let (next, action) = step(s, cfg, EventView::Reaped { now, exit });
            &&& !next.over && action is Nothing
            &&& interest_of(next, cfg, full).output == interest_of(s, cfg, full).output
            &&& interest_of(next, cfg, full).drain_until == Some(drain_deadline(now))
            &&& !interest_of(next, cfg, full).exit
        }),
{
}

/// The browser is told that a session ended well only when the child exited with status zero and
/// no signal ended it.
pub proof fn law_only_a_clean_exit_is_announced(s: Session)
    ensures
        closing_code(s) == Some(CLOSE_NORMAL) <==> (s.exit matches Some(exit) && exit.code == 0
            && exit.signal is None),
        closing_code(s) is Some ==> closing_code(s) == Some(CLOSE_NORMAL),
{
}

/// A child that still runs when its session ends gets the configured signal, with its whole group;
/// one that was waited for never gets any, since its process id may be a stranger's by then.
pub proof fn law_a_running_child_is_signalled(
    s: Session,
    cfg: ConfigView,
    child: Pty,
    answers: bool,
)
    ensures
        child.pid > 0 && !child.reaped && answers ==> (ending_of(
            s,
            cfg,
            child,
            answers,
        ).signal matches Some(signal) && signal.target == -child.pid && signal.number
            == cfg.sig_code),
        child.pid <= 0 || child.reaped || !answers ==> ending_of(
            s,
            cfg,
            child,
            answers,
        ).signal is None,
{
}

/// What the client is told at the end does not depend on the child's process: a child that exited with
/// status zero is announced, and nothing else is.
pub proof fn law_the_end_is_announced(s: Session, cfg: ConfigView, child: Pty, answers: bool)
    ensures
        ending_of(s, cfg, child, answers).close == match s.exit {
            Some(exit) if exit.code == 0 && exit.signal is None => Some(CLOSE_NORMAL),
            _ => None,
        },
{
}

/// A client is told of the end of a child, or the child is signalled, but not both: how a child ended
/// is known only once it was waited for.
pub proof fn law_an_ended_child_is_not_signalled(
    s: Session,
    cfg: ConfigView,
    child: Pty,
    answers: bool,
)
    requires
        s.exit is Some ==> child.reaped,
    ensures
        ending_of(s, cfg, child, answers).close is None || ending_of(
            s,
            cfg,
            child,
            answers,
        ).signal is None,
{
}

/// A client is hung up on for its silence only if nothing was heard of it for more than a ping
/// interval and seven seconds.
pub proof fn law_a_client_that_answers_is_kept(s: Session, cfg: ConfigView, event: EventView)
    requires
        step(s, cfg, event).1 == ActionView::End(EndReason::Idle),
    ensures
        event matches EventView::PingDue { now } && now - s.last_seen > (cfg.ping_interval
            + HANGUP_GRACE) * 1000,
{
}

/// A message that comes before there is a terminal, and is not an opening message, ends the
/// session when a token is required.
pub proof fn law_a_client_without_a_token_is_turned_away(
    s: Session,
    cfg: ConfigView,
    now: u64,
    data: Seq<u8>,
)
    requires
        cfg.auth is Basic,
        !s.admitted,
        !s.open,
        !s.over,
        data.len() > 0,
        data[0] != crate::protocol::JSON_DATA,
    ensures
        step(s, cfg, EventView::Message { now, data }).0.over,
        step(s, cfg, EventView::Message { now, data }).1 == ActionView::End(
            EndReason::NotAuthenticated,
        ),
{
}

/// A session begins with nothing: no client is admitted, no terminal is open, nothing has ended.
pub proof fn law_a_session_begins_with_nothing()
    ensures
        ({
            let s = new_session();
            &&& !s.admitted && !s.open && !s.over
            &&& !s.paused && !s.output_ended && !s.reaped
            &&& s.exit is None && s.drain_until is None
        }),
{
}

/// Whichever way of authentication is configured, the opening message of a client that was not
/// admitted yet is read, exactly as it was sent, and the session waits for what it says.
pub proof fn law_an_opening_message_is_read(s: Session, cfg: ConfigView, now: u64, data: Seq<u8>)
    requires
        !s.admitted,
        !s.open,
        !s.over,
        data.len() > 0,
        data[0] == JSON_DATA,
    ensures
        step(s, cfg, EventView::Message { now, data }) == (s, ActionView::ReadOpening(data)),
{
}

/// The token of an opening message decides, and nothing else of it does: with basic authentication
/// the credential as the token starts a child in a terminal of the size that was asked for, and any
/// other token ends the session; without basic authentication no token is looked at.
pub proof fn law_the_token_decides(
    s: Session,
    cfg: ConfigView,
    columns: u16,
    rows: u16,
    token: Option<Seq<char>>,
)
    requires
        !s.admitted,
        !s.open,
        !s.over,
    ensures
        ({
            let (next, action) = step(s, cfg, EventView::Opening { columns, rows, token });
            let opens = next == (Session { admitted: true, ..s }) && action == (ActionView::Spawn {
                columns,
                rows,
            });
            let refused = next == (Session { over: true, ..s }) && action == ActionView::End(
                EndReason::WrongToken,
            );
            match cfg.auth {
                AuthModeView::Basic { credential } => {
                    &&& token == Some(credential) ==> opens
                    &&& (token matches Some(t) && t != credential) ==> refused
                    &&& token is None && credential.len() > 0 ==> refused
                    &&& token is None && credential.len() == 0 ==> opens
                },
                _ => opens,
            }
        }),
{
}

/// A client with the right token gets a terminal: the opening message is read, its token is accepted,
/// and once the child runs the terminal is announced and takes input and output.
pub proof fn law_the_right_token_opens_a_terminal(
    cfg: ConfigView,
    data: Seq<u8>,
    columns: u16,
    rows: u16,
    token: Option<Seq<char>>,
    now: u64,
    later: u64,
)
    requires
        data.len() > 0,
        data[0] == JSON_DATA,
        cfg.auth matches AuthModeView::Basic { credential } ==> token == Some(credential),
    ensures
        ({
            let read = step(new_session(), cfg, EventView::Message { now, data });
            let admitted = step(read.0, cfg, EventView::Opening { columns, rows, token });
            let opened = step(admitted.0, cfg, EventView::Started { now: later });
            &&& read.1 == ActionView::ReadOpening(data)
            &&& admitted.1 == (ActionView::Spawn { columns, rows })
            &&& opened.1 == ActionView::Announce
            &&& opened.0.open && !opened.0.over && opened.0.last_seen == later
            &&& interest_of(opened.0, cfg, false).client && interest_of(opened.0, cfg, false).output
        }),
{
}

/// Before there is a terminal, and without basic authentication, a message that is no opening message
/// does nothing, but that input for a writable terminal ends the session. Once a child was asked for,
/// no message does anything until it runs.
pub proof fn law_messages_before_the_terminal(s: Session, cfg: ConfigView, now: u64, data: Seq<u8>)
    requires
        !s.open,
        !s.over,
    ensures
        ({
            let r = step(s, cfg, EventView::Message { now, data });
            &&& s.admitted || data.len() == 0 ==> r == (s, ActionView::Nothing)
            &&& !s.admitted && data.len() > 0 && data[0] != JSON_DATA && !(cfg.auth is Basic) ==> {
                if data[0] == INPUT && cfg.writable {
                    r == (
                        Session { over: true, ..s },
                        ActionView::End(EndReason::InputTooEarly),
                    )
                } else {
                    r == (s, ActionView::Nothing)
                }
            }
        }),
{
}

/// Before there is a terminal, a session ends when its client goes, when the server winds down and
/// when the child cannot be started; a terminal opens only when the child of an admitted client runs;
/// and nothing that concerns a terminal does anything.
pub proof fn law_events_before_the_terminal(s: Session, cfg: ConfigView, event: EventView)
    requires
        !s.open,
        !s.over,
        !(event is Message),
        !(event is Opening),
    ensures
        ({
            let r = step(s, cfg, event);
            let over = Session { over: true, ..s };
            &&& event is ClientGone ==> r == (over, ActionView::End(EndReason::ClientGone))
            &&& event is Shutdown ==> r == (over, ActionView::End(EndReason::Shutdown))
            &&& event is SpawnFailed ==> r == (over, ActionView::End(EndReason::SpawnFailed))
            &&& event matches EventView::Started { now } ==> if s.admitted {
                r == (Session { open: true, last_seen: now, ..s }, ActionView::Announce)
            } else {
                r == (s, ActionView::Nothing)
            }
            &&& !(event is ClientGone || event is Shutdown || event is SpawnFailed
                || event is Started) ==> r == (s, ActionView::Nothing)
        }),
{
}

/// A second opening message does nothing.
pub proof fn law_a_session_is_opened_once(
    s: Session,
    cfg: ConfigView,
    columns: u16,
    rows: u16,
    token: Option<Seq<char>>,
)
    requires
        s.admitted || s.open,
    ensures
        step(s, cfg, EventView::Opening { columns, rows, token }) == (s, ActionView::Nothing),
{
}

/// Every message of the client is a sign of life, and changes nothing else about the session unless it
/// asks to pause or to resume; the terminal gets a new size exactly when the client sends one, and as
/// it was sent; input for a terminal that is not writable goes nowhere; what is not known is reported
/// with its command.
pub proof fn law_messages_to_the_terminal(s: Session, cfg: ConfigView, now: u64, data: Seq<u8>)
    requires
        s.open,
        !s.over,
    ensures
        ({
            let (next, action) = step(s, cfg, EventView::Message { now, data });
            let heard = Session { last_seen: now, ..s };
            &&& next.last_seen == now
            &&& (data.len() == 0 || (data[0] != PAUSE && data[0] != RESUME)) ==> next == heard
            &&& data.len() == 0 ==> action is Nothing
            &&& data.len() > 0 ==> {
                let payload = data.subrange(1, data.len() as int);
                &&& action is Write <==> data[0] == INPUT && cfg.writable
                &&& action is Write ==> action == ActionView::Write(payload)
                &&& action is Resize <==> data[0] == RESIZE_TERMINAL
                &&& action is Resize ==> action == ActionView::Resize(payload)
                &&& action is Ignored <==> ![INPUT, RESIZE_TERMINAL, PAUSE, RESUME, JSON_DATA]@.contains(
                    data[0],
                )
                &&& action is Ignored ==> action == ActionView::Ignored(data[0])
                &&& action is Write || action is Resize || action is Ignored || action is Nothing
            }
        }),
{
    let known = [INPUT, RESIZE_TERMINAL, PAUSE, RESUME, JSON_DATA]@;
    if data.len() > 0 {
        assert(known[0] == INPUT && known[1] == RESIZE_TERMINAL && known[2] == PAUSE && known[3]
            == RESUME && known[4] == JSON_DATA);
        assert(data.drop_first() =~= data.subrange(1, data.len() as int));
    }
}

/// A client that is heard of in any other way is alive as well.
pub proof fn law_any_message_is_a_sign_of_life(s: Session, cfg: ConfigView, now: u64)
    requires
        s.open,
        !s.over,
    ensures
        step(s, cfg, EventView::OtherMessage { now }) == (
            Session { last_seen: now, ..s },
            ActionView::Nothing,
        ),
{
}

/// When a ping is due, the client is pinged, unless nothing was heard of it for more than the ping
/// interval and seven seconds: then the session ends.
pub proof fn law_a_ping_or_a_hangup(s: Session, cfg: ConfigView, now: u64)
    requires
        s.open,
        !s.over,
    ensures
        ({
            let silent = now - s.last_seen > cfg.ping_interval * 1000 + 7000;
            step(s, cfg, EventView::PingDue { now }) == if silent {
                (Session { over: true, ..s }, ActionView::End(EndReason::Idle))
            } else {
                (s, ActionView::Ping)
            }
        }),
{
}

/// A session with a terminal ends for these reasons and keeps what it knew; nothing else that may
/// happen to it, but a ping that is due, ends it.
pub proof fn law_what_ends_a_terminal(s: Session, cfg: ConfigView, event: EventView)
    requires
        s.open,
        !s.over,
    ensures
        ({
            let (next, action) = step(s, cfg, event);
            let over = Session { over: true, ..s };
            &&& event is ClientGone ==> next == over && action == ActionView::End(
                EndReason::ClientGone,
            )
            &&& event is Shutdown ==> next == over && action == ActionView::End(EndReason::Shutdown)
            &&& event is SendFailed ==> next == over && action == ActionView::End(
                EndReason::SendFailed,
            )
            &&& event is WriterGone ==> next == over && action == ActionView::End(
                EndReason::WriterGone,
            )
            &&& event is DrainOver ==> next == over && action == ActionView::End(EndReason::Drained)
            &&& event is OutputEnded ==> next == (Session { output_ended: true, ..over }) && action
                == ActionView::End(EndReason::OutputEnded)
            &&& next.over ==> event is ClientGone || event is Shutdown || event is SendFailed
                || event is WriterGone || event is DrainOver || event is OutputEnded
                || event is PingDue
            &&& next.over <==> action is End
            &&& event is Output ==> next == s
            &&& event is Started || event is SpawnFailed || event is Opening ==> next == s
                && action is Nothing
        }),
{
}

/// The end of the child is noted, with how it ended if that is known, and what is known of that is
/// never forgotten; the time for the remaining output is a quarter of a second.
pub proof fn law_the_end_of_the_child_is_noted(
    s: Session,
    cfg: ConfigView,
    now: u64,
    exit: Option<ExitInfo>,
)
    requires
        s.open,
        !s.over,
    ensures
        ({
            let (next, action) = step(s, cfg, EventView::Reaped { now, exit });
            &&& action is Nothing
            &&& next.reaped
            &&& exit is Some ==> next.exit == exit
            &&& exit is None ==> next.exit == s.exit
            &&& next.drain_until matches Some(until) && (until == now + 250 || (until == u64::MAX
                && now + 250 > u64::MAX))
            &&& next == (Session {
                reaped: true,
                exit: next.exit,
                drain_until: next.drain_until,
                ..s
            })
        }),
{
}

/// What a session waits for: always for its client, unless the child is behind; for output, the end of
/// the child and the server's end while a terminal is open; and for pings where they are configured.
pub proof fn law_what_a_session_waits_for(s: Session, cfg: ConfigView, full: bool)
    requires
        !s.over,
    ensures
        ({
            let i = interest_of(s, cfg, full);
            &&& !s.open ==> i.client && !i.output && !i.exit && !i.ping && !i.shutdown
            &&& s.open ==> {
                &&& i.client <==> !full
                &&& i.output <==> !s.paused
                &&& i.exit <==> !s.reaped
                &&& i.ping <==> cfg.ping_interval != 0
                &&& i.shutdown
            }
            &&& i.drain_until == s.drain_until
        }),
{
}

/// Pings come at the configured interval, and the timer always has a period.
pub proof fn law_pings_keep_the_interval(cfg: ConfigView)
    ensures
        ping_period_of(cfg) > 0,
        cfg.ping_interval > 0 ==> ping_period_of(cfg) == cfg.ping_interval,
        cfg.ping_interval == 0 ==> ping_period_of(cfg) == 1,
{
}

/// A terminal is announced with its title and then with the client's preferences, each in UTF-8 behind
/// its command.
pub proof fn law_the_announcement_names_title_and_preferences(cfg: ConfigView, host: Seq<char>)
    ensures
        ({
            let frames = announcement(cfg, host);
            &&& frames.len() == 2
            &&& frames[0].len() > 0 && frames[0][0] == SET_WINDOW_TITLE
            &&& frames[0].drop_first() == encode_utf8(title_on(cfg, host))
            &&& frames[1].len() > 0 && frames[1][0] == SET_PREFERENCES
            &&& frames[1].drop_first() == encode_utf8(cfg.prefs_json)
        }),
{
    let frames = announcement(cfg, host);
    assert(frames[0].drop_first() =~= encode_utf8(title_on(cfg, host)));
    assert(frames[1].drop_first() =~= encode_utf8(cfg.prefs_json));
}

/// The server outlives its sessions unless it was told otherwise: with `--once` or `--exit-no-conn` it
/// ends with the one after which nobody is connected.
pub proof fn law_the_server_outlives_its_sessions(cfg: ConfigView, remaining: int)
    ensures
        remaining > 0 ==> !ends_server(cfg, remaining),
        !cfg.once && !cfg.exit_no_conn ==> !ends_server(cfg, remaining),
        remaining <= 0 && cfg.once ==> ends_server(cfg, remaining),
        remaining <= 0 && cfg.exit_no_conn ==> ends_server(cfg, remaining),
{
}

/// How the child ended is waited for exactly if its terminal has closed and it is not known yet; once the
/// child was waited for, or the session ended otherwise, it is not.
pub proof fn law_a_missing_status_is_waited_for(s: Session, cfg: ConfigView, event: EventView)
    requires
        s.open,
        !s.over,
        !s.output_ended,
    ensures
        ({
            let next = step(s, cfg, event).0;
            &&& next.over ==> (lacks_status(next) <==> event is OutputEnded && !s.reaped
                && s.exit is None)
            &&& s.reaped ==> !lacks_status(next)
        }),
{
}

} // verus!
