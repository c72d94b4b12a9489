use ttyd::cli::Config;
use ttyd::shutdown::{after_last_session, Action, Event, Phase, WindDown};

fn told(signal: i32, now: u64) -> WindDown {
    let mut cfg = Config::default();
    cfg.sig_code = signal;
    let mut w = WindDown::new(&cfg);
    assert_eq!(w.take(Event::Tick { now: 0, clients: 3 }), Action::Nothing);
    assert_eq!(w.take(Event::Signal { now }), Action::Begin { signal });
    w
}

#[test]
fn the_first_signal_winds_the_server_down() {
    let mut w = told(15, 1000);
    assert_eq!(w.phase, Phase::Waiting { until: 4000 });
    let wait = Action::Wait { ms: 20 };
    assert_eq!(w.take(Event::Tick { now: 1000, clients: 2 }), wait);
    assert_eq!(w.take(Event::Tick { now: 1020, clients: 1 }), wait);
    let settle = Action::Wait { ms: 150 };
    assert_eq!(w.take(Event::Tick { now: 1040, clients: 0 }), settle);
    let rest = Action::Wait { ms: 1 };
    assert_eq!(w.take(Event::Tick { now: 1189, clients: 0 }), rest);
    let exit = Action::Exit { status: 0 };
    assert_eq!(w.take(Event::Tick { now: 1190, clients: 0 }), exit);
    assert_eq!(w.take(Event::Signal { now: 1191 }), Action::Nothing);
    assert_eq!(w.take(Event::Tick { now: 1192, clients: 0 }), Action::Nothing);
}

#[test]
fn a_second_signal_gives_up_waiting() {
    let mut w = told(1, 0);
    assert_eq!(w.take(Event::Tick { now: 0, clients: 1 }), Action::Wait { ms: 20 });
    assert_eq!(w.take(Event::Signal { now: 10 }), Action::Exit { status: 1 });
    assert_eq!(w.phase, Phase::Over);

    let mut w = told(1, 0);
    assert_eq!(w.take(Event::Tick { now: 0, clients: 0 }), Action::Wait { ms: 150 });
    assert_eq!(w.take(Event::Signal { now: 10 }), Action::Exit { status: 1 });
}

#[test]
fn sessions_are_given_three_seconds() {
    let mut w = told(9, 500);
    assert_eq!(w.take(Event::Tick { now: 3499, clients: 1 }), Action::Wait { ms: 20 });
    assert_eq!(w.take(Event::Tick { now: 3500, clients: 1 }), Action::Wait { ms: 150 });
    assert_eq!(w.phase, Phase::Settling { until: 3650 });
    assert_eq!(w.take(Event::Tick { now: 3650, clients: 1 }), Action::Exit { status: 0 });
}

#[test]
fn the_end_of_the_clock_is_no_obstacle() {
    let mut w = told(9, u64::MAX - 1);
    assert_eq!(w.phase, Phase::Waiting { until: u64::MAX });
    let last = Event::Tick { now: u64::MAX, clients: 1 };
    assert_eq!(w.take(last), Action::Wait { ms: 150 });
    assert_eq!(w.take(last), Action::Exit { status: 0 });
}

#[test]
fn the_last_session_takes_the_server_with_it() {
    assert_eq!(after_last_session(0, true), Action::Wait { ms: 20 });
    assert_eq!(after_last_session(4999, true), Action::Wait { ms: 20 });
    assert_eq!(after_last_session(5000, true), Action::Exit { status: 0 });
    assert_eq!(after_last_session(0, false), Action::Exit { status: 0 });
}
