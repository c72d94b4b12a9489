//! The end of the server: what follows on the signals it gets, and on its last session.

use crate::cli::config::{Config, ConfigView};
use vstd::prelude::*;

verus! {

/// Milliseconds for which sessions are waited for once the server was told to end.
pub const SESSION_GRACE: u64 = 3000;

/// Milliseconds that children are left to end once their sessions are gone.
pub const SETTLE_TIME: u64 = 150;

/// Milliseconds for which the child of the last session is waited for.
pub const LAST_CHILD_GRACE: u64 = 5000;

/// Milliseconds between two looks at what is waited for.
pub const POLL_INTERVAL: u64 = 20;

/// Where the end of the server stands. Times are milliseconds on a clock that does not go back.
#[derive(Debug, Clone, Copy, PartialEq, Eq, Structural)]
pub enum Phase {
    /// Nothing has told the server to end.
    Serving,
    /// Sessions are waited for until then.
    Waiting { until: u64 },
    /// Children are left to end until then.
    Settling { until: u64 },
    /// The process has been told to exit.
    Over,
}

/// The end of the server by signals.
#[derive(Debug, Clone, Copy, PartialEq, Eq, Structural)]
pub struct WindDown {
    /// The signal for the children.
    pub signal: i32,
    pub phase: Phase,
}

/// What happened.
#[derive(Debug, Clone, Copy, PartialEq, Eq, Structural)]
pub enum Event {
    /// The server was told to end by a signal.
    Signal { now: u64 },
    /// Some time has passed, and this many clients are connected.
    Tick { now: u64, clients: i64 },
}

/// What is to be done.
#[derive(Debug, Clone, Copy, PartialEq, Eq, Structural)]
pub enum Action {
    Nothing,
    /// No more connections are taken, the sessions end, and the children get this signal.
    Begin { signal: i32 },
    /// A tick is due in this many milliseconds.
    Wait { ms: u64 },
    /// The process exits with this status.
    Exit { status: i32 },
}

/// A time some milliseconds later, as far as the clock goes.
pub open spec fn later(now: u64, ms: u64) -> u64 {
    if now + ms <= u64::MAX {
        (now + ms) as u64
    } else {
        u64::MAX
    }
}

/// A server that nothing has told to end.
pub open spec fn serving(cfg: ConfigView) -> WindDown {
    WindDown { signal: cfg.sig_code, phase: Phase::Serving }
}

/// What follows on an event. The first signal winds the server down: its sessions are waited for,
/// and then its children are left a moment. A second signal ends it at once.
pub open spec fn wind_down_step(w: WindDown, event: Event) -> (WindDown, Action) {
    match (w.phase, event) {
        (Phase::Serving, Event::Signal { now }) => (
            WindDown { phase: Phase::Waiting { until: later(now, SESSION_GRACE) }, ..w },
            Action::Begin { signal: w.signal },
        ),
        (Phase::Serving, Event::Tick { .. }) => (w, Action::Nothing),
        (Phase::Waiting { .. }, Event::Signal { .. }) => (
            WindDown { phase: Phase::Over, ..w },
            Action::Exit { status: 1 },
        ),
        (Phase::Waiting { until }, Event::Tick { now, clients }) => if clients > 0 && now < until {
            (w, Action::Wait { ms: POLL_INTERVAL })
        } else {
            (
                WindDown { phase: Phase::Settling { until: later(now, SETTLE_TIME) }, ..w },
                Action::Wait { ms: SETTLE_TIME },
            )
        },
        (Phase::Settling { .. }, Event::Signal { .. }) => (
            WindDown { phase: Phase::Over, ..w },
            Action::Exit { status: 1 },
        ),
        (Phase::Settling { until }, Event::Tick { now, .. }) => if now < until {
            (w, Action::Wait { ms: (until - now) as u64 })
        } else {
            (WindDown { phase: Phase::Over, ..w }, Action::Exit { status: 0 })
        },
        (Phase::Over, _) => (w, Action::Nothing),
    }
}

impl WindDown {
    /// A server that nothing has told to end.
    pub fn new(cfg: &Config) -> (r: WindDown)
        ensures
            r == serving(cfg@),
    {
        WindDown { signal: cfg.sig_code, phase: Phase::Serving }
    }

    /// Takes an event and says what follows.
    pub fn take(&mut self, event: Event) -> (r: Action)
        ensures
            (*final(self), r) == wind_down_step(*old(self), event),
    {
        match (self.phase, event) {
            (Phase::Serving, Event::Signal { now }) => {
                self.phase = Phase::Waiting { until: now.saturating_add(SESSION_GRACE) };
                Action::Begin { signal: self.signal }
            },
            (Phase::Waiting { until }, Event::Tick { now, clients }) => {
                if clients > 0 && now < until {
                    Action::Wait { ms: POLL_INTERVAL }
                } else {
                    self.phase = Phase::Settling { until: now.saturating_add(SETTLE_TIME) };
                    Action::Wait { ms: SETTLE_TIME }
                }
            },
            (Phase::Settling { until }, Event::Tick { now, .. }) => {
                if now < until {
                    Action::Wait { ms: until - now }
                } else {
                    self.phase = Phase::Over;
                    Action::Exit { status: 0 }
                }
            },
            (Phase::Waiting { .. }, Event::Signal { .. }) => {
                self.phase = Phase::Over;
                Action::Exit { status: 1 }
            },
            (Phase::Settling { .. }, Event::Signal { .. }) => {
                self.phase = Phase::Over;
                Action::Exit { status: 1 }
            },
            (Phase::Serving, Event::Tick { .. }) => Action::Nothing,
            (Phase::Over, _) => Action::Nothing,
        }
    }
}

/// What follows once the last session has ended a server that was to end with it: its child is
/// waited for, but not for long.
pub open spec fn last_session_step(waited: u64, running: bool) -> Action {
    if running && waited < LAST_CHILD_GRACE {
        Action::Wait { ms: POLL_INTERVAL }
    } else {
        Action::Exit { status: 0 }
    }
}

/// What follows once the last session has ended a server that was to end with it, given the
/// milliseconds since then and whether the session's child still runs.
pub fn after_last_session(waited: u64, running: bool) -> (r: Action)
    ensures
        r == last_session_step(waited, running),
{
    if running && waited < LAST_CHILD_GRACE {
        Action::Wait { ms: POLL_INTERVAL }
    } else {
        Action::Exit { status: 0 }
    }
}

/// Where a server stands after some events.
pub open spec fn after(cfg: ConfigView, events: Seq<Event>) -> WindDown
    decreases events.len(),
{
    if events.len() == 0 {
        serving(cfg)
    } else {
        wind_down_step(after(cfg, events.drop_last()), events.last()).0
    }
}

/// What is done on event `i`.
pub open spec fn action_at(cfg: ConfigView, events: Seq<Event>, i: int) -> Action {
    wind_down_step(after(cfg, events.take(i)), events[i]).1
}

/// The number of signals among some events.
pub open spec fn signals(events: Seq<Event>) -> nat
    decreases events.len(),
{
    if events.len() == 0 {
        0
    } else {
        signals(events.drop_last()) + if events.last() is Signal {
            1nat
        } else {
            0
        }
    }
}

/// The server stands where the number of signals has brought it: it serves without one, and is over
/// with two.
proof fn lemma_phase(cfg: ConfigView, events: Seq<Event>)
    ensures
        after(cfg, events).signal == cfg.sig_code,
        after(cfg, events).phase is Serving <==> signals(events) == 0,
        signals(events) >= 2 ==> after(cfg, events).phase is Over,
    decreases events.len(),
{
    if events.len() > 0 {
        lemma_phase(cfg, events.drop_last());
    }
}

/// The first signal, and nothing else, winds the server down: the children get the configured
/// signal then, and only then.
pub proof fn law_the_first_signal_winds_down(cfg: ConfigView, events: Seq<Event>, i: int)
    requires
        0 <= i < events.len(),
    ensures
        action_at(cfg, events, i) is Begin <==> events[i] is Signal && signals(events.take(i)) == 0,
        action_at(cfg, events, i) matches Action::Begin { signal } ==> signal == cfg.sig_code,
{
    lemma_phase(cfg, events.take(i));
}

/// A second signal ends a server that has not ended, at once and with status 1, and nothing else
/// gives that status.
pub proof fn law_a_second_signal_ends_at_once(cfg: ConfigView, events: Seq<Event>, i: int)
    requires
        0 <= i < events.len(),
    ensures
        action_at(cfg, events, i) == (Action::Exit { status: 1 }) <==> events[i] is Signal && signals(
            events.take(i),
        ) > 0 && !(after(cfg, events.take(i)).phase is Over),
        action_at(cfg, events, i) matches Action::Exit { status } ==> status == 0 || status == 1,
{
    lemma_phase(cfg, events.take(i));
}

/// Once the process was told to exit, nothing more is done.
pub proof fn law_the_exit_is_final(w: WindDown, event: Event, next: Event)
    requires
        wind_down_step(w, event).1 is Exit,
    ensures
        wind_down_step(w, event).0.phase is Over,
        wind_down_step(wind_down_step(w, event).0, next) == (
            wind_down_step(w, event).0,
            Action::Nothing,
        ),
{
}

/// Event `i` is the signal on which the server winds down.
pub open spec fn is_told_at(events: Seq<Event>, i: int) -> bool {
    0 <= i < events.len() && events[i] is Signal && signals(events.take(i)) == 0
}

/// At event `k` the sessions of a server that was told to end at event `i` need not be waited for
/// any more: nobody is connected, or they had their time.
pub open spec fn is_released_at(events: Seq<Event>, i: int, k: int) -> bool {
    &&& 0 <= i < k < events.len()
    &&& events[i] matches Event::Signal { now: told }
    &&& events[k] matches Event::Tick { now, clients }
    &&& clients <= 0 || now >= later(told, SESSION_GRACE)
}

/// What the phase says about the events before.
spec fn explained(events: Seq<Event>, phase: Phase) -> bool {
    match phase {
        Phase::Waiting { until } => exists|i: int| #[trigger]
            is_told_at(events, i) && (events[i] matches Event::Signal { now } && until == later(
                now,
                SESSION_GRACE,
            )),
        Phase::Settling { until } => exists|i: int, k: int|
            #![trigger is_told_at(events, i), is_released_at(events, i, k)]
            is_told_at(events, i) && is_released_at(events, i, k) && (events[k] matches Event::Tick {
                now,
                ..
            } && until == later(now, SETTLE_TIME)),
        _ => true,
    }
}

/// What was so of the events so far stays so with more of them.
proof fn lemma_more_events(events: Seq<Event>, i: int, k: int)
    requires
        events.len() > 0,
    ensures
        is_told_at(events.drop_last(), i) ==> is_told_at(events, i) && events[i]
            == events.drop_last()[i],
        is_released_at(events.drop_last(), i, k) ==> is_released_at(events, i, k) && events[k]
            == events.drop_last()[k],
{
    if is_told_at(events.drop_last(), i) {
        assert(events.take(i) =~= events.drop_last().take(i));
    }
}

/// The phase tells when the server was told to end, and when its sessions were given up on.
proof fn lemma_explained(cfg: ConfigView, events: Seq<Event>)
    ensures
        explained(events, after(cfg, events).phase),
    decreases events.len(),
{
    if events.len() > 0 {
        let before = events.drop_last();
        let n = before.len() as int;
        lemma_explained(cfg, before);
        lemma_phase(cfg, before);
        assert(events.take(n) =~= before);
        match after(cfg, before).phase {
            Phase::Serving => {
                assert(events.last() is Signal ==> is_told_at(events, n));
            },
            Phase::Waiting { until } => {
                let i = choose|i: int| #[trigger]
                    is_told_at(before, i) && (before[i] matches Event::Signal { now } && until
                        == later(now, SESSION_GRACE));
                lemma_more_events(events, i, 0);
                if after(cfg, events).phase is Settling {
                    assert(is_released_at(events, i, n));
                }
            },
            Phase::Settling { until } => {
                let (i, k) = choose|i: int, k: int|
                    #![trigger is_told_at(before, i), is_released_at(before, i, k)]
                    is_told_at(before, i) && is_released_at(before, i, k) && (
                    before[k] matches Event::Tick { now, .. } && until == later(now, SETTLE_TIME));
                lemma_more_events(events, i, k);
            },
            Phase::Over => {},
        }
    }
}

/// The sessions are waited for: a server exits with status 0 only after it was told to end, after
/// its last client was gone or three seconds had passed since, and after its children were left
/// another moment.
pub proof fn law_sessions_are_waited_for(cfg: ConfigView, events: Seq<Event>, j: int)
    requires
        0 <= j < events.len(),
        action_at(cfg, events, j) == (Action::Exit { status: 0 }),
    ensures
        exists|i: int, k: int|
            #![trigger is_told_at(events, i), is_released_at(events, i, k)]
            is_told_at(events, i) && is_released_at(events, i, k) && k < j && (
            events[k] matches Event::Tick { now: released, .. } && events[j] matches Event::Tick {
                now,
                ..
            } && now >= later(released, SETTLE_TIME)),
{
    let before = events.take(j);
    lemma_explained(cfg, before);
    let (i, k) = choose|i: int, k: int|
        #![trigger is_told_at(before, i), is_released_at(before, i, k)]
        is_told_at(before, i) && is_released_at(before, i, k) && (before[k] matches Event::Tick {
            now,
            ..
        } && after(cfg, before).phase == (Phase::Settling { until: later(now, SETTLE_TIME) }));
    assert(events.take(i) =~= before.take(i));
    assert(is_told_at(events, i));
    assert(is_released_at(events, i, k));
}

/// The wait comes to an end: two ticks after the time for sessions is over, the second of them once
/// the children had theirs, end a server that was told to, however many clients stay connected.
pub proof fn law_the_wait_ends(w: WindDown, until: u64, now: u64, end: u64, clients: i64, more: i64)
    requires
        w.phase == (Phase::Waiting { until }),
        now >= until,
        end >= later(now, SETTLE_TIME),
    ensures
        ({
            let settling = wind_down_step(w, Event::Tick { now, clients }).0;
            wind_down_step(settling, Event::Tick { now: end, clients: more }).1 == (Action::Exit {
                status: 0,
            })
        }),
{
}

/// A server that is to end with its last session does so with status 0, as soon as the child of that
/// session is gone, and after five seconds in any case.
pub proof fn law_the_last_session_ends_the_server(waited: u64, running: bool)
    ensures
        last_session_step(waited, running) is Exit <==> !running || waited >= LAST_CHILD_GRACE,
        last_session_step(waited, running) matches Action::Exit { status } ==> status == 0,
{
}

/// Before the first signal nothing is done, however often the server is looked at.
pub proof fn law_nothing_is_done_before_a_signal(cfg: ConfigView, events: Seq<Event>, i: int)
    requires
        0 <= i < events.len(),
        signals(events.take(i)) == 0,
        events[i] is Tick,
    ensures
        action_at(cfg, events, i) is Nothing,
        wind_down_step(after(cfg, events.take(i)), events[i]).0 == after(cfg, events.take(i)),
{
    lemma_phase(cfg, events.take(i));
}

/// Sessions are waited for no longer than there are any, or than three seconds; children are left a
/// moment behind that. While there is something to wait for, the next look is never far.
pub proof fn law_the_wait_is_no_longer_than_needed(w: WindDown, until: u64, now: u64, clients: i64)
    ensures
        w.phase == (Phase::Serving) ==> wind_down_step(w, Event::Signal { now }).0.phase
            == (Phase::Waiting { until: later(now, 3000) }),
        w.phase == (Phase::Waiting { until }) ==> {
            let (next, action) = wind_down_step(w, Event::Tick { now, clients });
            if clients > 0 && now < until {
                next == w && action == (Action::Wait { ms: 20 })
            } else {
                next == (WindDown { phase: Phase::Settling { until: later(now, 150) }, ..w })
                    && action == (Action::Wait { ms: 150 })
            }
        },
        w.phase == (Phase::Settling { until }) ==> {
            let (next, action) = wind_down_step(w, Event::Tick { now, clients });
            if now < until {
                next == w && (action matches Action::Wait { ms } && now + ms == until)
            } else {
                next.phase is Over && action == (Action::Exit { status: 0 })
            }
        },
        later(now, 3000) == now + 3000 || now > u64::MAX - 3000,
        last_session_step(now, true) is Wait <==> now < 5000,
{
}

/// A later time is as much later as it is said to be, as far as the clock goes.
pub proof fn law_later(now: u64, ms: u64)
    ensures
        now + ms <= u64::MAX ==> later(now, ms) == now + ms,
        now + ms > u64::MAX ==> later(now, ms) == u64::MAX,
{
}

} // verus!
