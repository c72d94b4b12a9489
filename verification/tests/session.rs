use ttyd::cli::{AuthMode, Config};
use ttyd::protocol::OpenMessage;
use ttyd::pty::{ExitInfo, Pty};
use ttyd::ws::session::{
    announce, ping_period, server_ends, Action, ChildSignal, EndReason, Event, Session,
};

fn config(mutate: impl FnOnce(&mut Config)) -> Config {
    let mut cfg = Config {
        argv: vec!["bash".into()],
        command: "bash".into(),
        ..Default::default()
    };
    mutate(&mut cfg);
    cfg
}

fn message(now: u64, data: &[u8]) -> Event {
    Event::Message {
        now,
        data: data.to_vec(),
    }
}

fn opening(token: Option<&str>) -> Event {
    Event::Opening(OpenMessage {
        columns: 100,
        rows: 30,
        auth_token: token.map(|t| t.to_string()),
    })
}

fn open_session(cfg: &Config) -> Session {
    let mut s = Session::new();
    assert!(matches!(s.take(cfg, opening(None)), Action::Spawn { .. }));
    assert!(matches!(
        s.take(cfg, Event::Started { now: 1000 }),
        Action::Announce
    ));
    s
}

#[test]
fn a_session_opens_step_by_step() {
    let cfg = config(|_| {});
    let mut s = Session::new();
    assert!(matches!(s.take(&cfg, message(1, b"")), Action::Nothing));
    assert!(matches!(s.take(&cfg, message(2, b"1{}")), Action::Nothing));
    match s.take(&cfg, message(3, b"{\"columns\":1}")) {
        Action::ReadOpening(data) => assert_eq!(data, b"{\"columns\":1}"),
        other => panic!("{other:?}"),
    }
    match s.take(&cfg, opening(None)) {
        Action::Spawn { columns, rows } => assert_eq!((columns, rows), (100, 30)),
        other => panic!("{other:?}"),
    }
    assert!(s.admitted && !s.open);
    assert!(matches!(
        s.take(&cfg, Event::Started { now: 9 }),
        Action::Announce
    ));
    assert!(s.open);
    assert_eq!(s.last_seen, 9);
}

#[test]
fn a_wrong_token_ends_the_session() {
    let cfg = config(|c| {
        c.auth = AuthMode::Basic {
            credential: "dXNlcjpwYXNz".into(),
        }
    });
    for token in [None, Some(""), Some("dXNlcjpwYXNZ"), Some("dXNlcjpwYXN")] {
        let mut s = Session::new();
        assert!(matches!(
            s.take(&cfg, opening(token)),
            Action::End(EndReason::WrongToken)
        ));
        assert!(s.over);
        assert!(matches!(
            s.take(&cfg, Event::Started { now: 1 }),
            Action::Nothing
        ));
    }
    let mut s = Session::new();
    assert!(matches!(
        s.take(&cfg, opening(Some("dXNlcjpwYXNz"))),
        Action::Spawn { .. }
    ));
}

#[test]
fn anything_but_an_opening_message_is_refused_when_a_token_is_required() {
    let cfg = config(|c| {
        c.auth = AuthMode::Basic {
            credential: "x".into(),
        }
    });
    let mut s = Session::new();
    assert!(matches!(
        s.take(&cfg, message(1, b"1{}")),
        Action::End(EndReason::NotAuthenticated)
    ));
}

#[test]
fn input_before_the_terminal_ends_a_writable_session() {
    let mut writable = Session::new();
    assert!(matches!(
        writable.take(&config(|c| c.writable = true), message(1, b"0ls")),
        Action::End(EndReason::InputTooEarly)
    ));
    let mut readonly = Session::new();
    assert!(matches!(
        readonly.take(&config(|_| {}), message(1, b"0ls")),
        Action::Nothing
    ));
}

#[test]
fn nothing_is_sent_before_a_terminal_is_open() {
    let cfg = config(|_| {});
    let mut s = Session::new();
    assert!(matches!(
        s.take(&cfg, Event::PingDue { now: 99_999_999 }),
        Action::Nothing
    ));
    assert!(matches!(
        s.take(&cfg, Event::Output(b"x".to_vec())),
        Action::Nothing
    ));
    assert!(matches!(
        s.take(&cfg, Event::Started { now: 1 }),
        Action::Nothing
    ));
    let waits = s.interest(&cfg, false);
    assert!(waits.client && !waits.output && !waits.ping && !waits.exit);
}

#[test]
fn input_is_written_only_when_writable() {
    let readonly = config(|_| {});
    let mut s = open_session(&readonly);
    assert!(matches!(
        s.take(&readonly, message(5, b"0ls\n")),
        Action::Nothing
    ));
    let writable = config(|c| c.writable = true);
    let mut s = open_session(&writable);
    match s.take(&writable, message(5, b"0ls\n")) {
        Action::Write(data) => assert_eq!(data, b"ls\n"),
        other => panic!("{other:?}"),
    }
    assert!(matches!(
        s.take(&writable, Event::WriterGone),
        Action::End(EndReason::WriterGone)
    ));
}

#[test]
fn messages_are_told_apart_by_their_first_byte() {
    let cfg = config(|_| {});
    let mut s = open_session(&cfg);
    match s.take(&cfg, message(5, b"1{\"columns\":9}")) {
        Action::Resize(data) => assert_eq!(data, b"{\"columns\":9}"),
        other => panic!("{other:?}"),
    }
    assert!(matches!(
        s.take(&cfg, message(6, b"{\"columns\":9}")),
        Action::Nothing
    ));
    assert!(matches!(
        s.take(&cfg, message(7, b"zzz")),
        Action::Ignored(b'z')
    ));
    assert!(matches!(s.take(&cfg, message(8, b"")), Action::Nothing));
    assert_eq!(s.last_seen, 8);
    s.take(&cfg, Event::OtherMessage { now: 11 });
    assert_eq!(s.last_seen, 11);
}

#[test]
fn pause_stops_output_until_resume() {
    let cfg = config(|_| {});
    let mut s = open_session(&cfg);
    assert!(s.interest(&cfg, false).output);
    s.take(&cfg, message(5, b"2"));
    assert!(!s.interest(&cfg, false).output);
    s.take(&cfg, Event::OtherMessage { now: 6 });
    assert!(!s.interest(&cfg, false).output);
    s.take(&cfg, message(7, b"3"));
    assert!(s.interest(&cfg, false).output);
}

#[test]
fn a_full_backlog_stops_reading_from_the_client() {
    let cfg = config(|c| c.writable = true);
    let s = open_session(&cfg);
    assert!(s.interest(&cfg, false).client);
    assert!(!s.interest(&cfg, true).client);
    assert!(s.interest(&cfg, true).output);
}

#[test]
fn output_is_framed_and_its_end_ends_the_session() {
    let cfg = config(|_| {});
    let mut s = open_session(&cfg);
    match s.take(&cfg, Event::Output(b"hi".to_vec())) {
        Action::Send(frame) => assert_eq!(frame, b"0hi"),
        other => panic!("{other:?}"),
    }
    assert!(matches!(
        s.take(&cfg, Event::OutputEnded),
        Action::End(EndReason::OutputEnded)
    ));
    assert!(s.awaits_exit());
    s.note_exit(ExitInfo {
        code: 0,
        signal: None,
    });
    assert!(!s.awaits_exit());
    assert_eq!(s.close_code(), Some(1000));
}

#[test]
fn only_a_clean_exit_closes_with_a_code() {
    let cfg = config(|_| {});
    for (code, signal, expected) in [
        (0, None, Some(1000)),
        (1, None, None),
        (129, Some(1), None),
        (0, Some(1), None),
    ] {
        let mut s = open_session(&cfg);
        s.take(
            &cfg,
            Event::Reaped {
                now: 2000,
                exit: Some(ExitInfo { code, signal }),
            },
        );
        assert_eq!(s.drain_until, Some(2250));
        assert!(!s.interest(&cfg, false).exit);
        assert!(matches!(
            s.take(&cfg, Event::DrainOver),
            Action::End(EndReason::Drained)
        ));
        assert_eq!(s.close_code(), expected);
    }
    let s = open_session(&cfg);
    assert_eq!(s.close_code(), None);
}

#[test]
fn a_silent_client_is_hung_up_on_after_the_interval_and_seven_seconds() {
    let cfg = config(|c| c.ping_interval = 5);
    let mut s = open_session(&cfg);
    assert!(matches!(
        s.take(&cfg, Event::PingDue { now: 13_000 }),
        Action::Ping
    ));
    assert!(matches!(
        s.take(&cfg, Event::PingDue { now: 13_001 }),
        Action::End(EndReason::Idle)
    ));
    let quiet = config(|c| c.ping_interval = 0);
    assert!(!open_session(&quiet).interest(&quiet, false).ping);
}

#[test]
fn a_session_ends_for_each_reason_and_stays_ended() {
    let cfg = config(|_| {});
    for (event, reason) in [
        (Event::ClientGone, EndReason::ClientGone),
        (Event::Shutdown, EndReason::Shutdown),
        (Event::SendFailed, EndReason::SendFailed),
    ] {
        let mut s = open_session(&cfg);
        match s.take(&cfg, event) {
            Action::End(r) => assert_eq!(r, reason),
            other => panic!("{other:?}"),
        }
        assert!(matches!(
            s.take(&cfg, Event::Output(b"x".to_vec())),
            Action::Nothing
        ));
        assert!(!s.interest(&cfg, false).client);
    }
    let mut s = Session::new();
    s.take(&cfg, opening(None));
    assert!(matches!(
        s.take(&cfg, Event::SpawnFailed),
        Action::End(EndReason::SpawnFailed)
    ));
}

#[test]
fn a_terminal_is_announced_with_its_title_and_preferences() {
    let cfg = config(|c| c.prefs_json = "{ \"a\": 1 }".into());
    let (title, prefs) = announce(&cfg, "box");
    assert_eq!(title, b"1bash (box)");
    assert_eq!(prefs, b"2{ \"a\": 1 }");
    let titled = config(|c| c.title = Some("T".into()));
    assert_eq!(announce(&titled, "box").0, b"1T");
}

#[test]
fn the_server_ends_with_its_last_client_when_told_to() {
    assert!(!server_ends(&config(|_| {}), 0));
    assert!(server_ends(&config(|c| c.once = true), 0));
    assert!(server_ends(&config(|c| c.exit_no_conn = true), 0));
    assert!(!server_ends(&config(|c| c.exit_no_conn = true), 1));
}

#[test]
fn a_session_starts_one_child() {
    let cfg = config(|_| {});
    let mut s = open_session(&cfg);
    assert!(matches!(s.take(&cfg, message(2000, b"{}")), Action::Nothing));
    assert!(matches!(s.take(&cfg, opening(None)), Action::Nothing));
    assert!(matches!(
        s.take(&cfg, Event::Started { now: 3000 }),
        Action::Nothing
    ));
    assert_eq!(s.last_seen, 2000);
}

#[test]
fn output_is_still_sent_once_the_child_was_waited_for() {
    let cfg = config(|_| {});
    let mut s = open_session(&cfg);
    let exit = Some(ExitInfo {
        code: 0,
        signal: None,
    });
    assert!(matches!(
        s.take(&cfg, Event::Reaped { now: 5000, exit }),
        Action::Nothing
    ));
    assert!(!s.over);
    let waits = s.interest(&cfg, false);
    assert!(waits.output && !waits.exit);
    assert_eq!(waits.drain_until, Some(5250));
    match s.take(&cfg, Event::Output(b"bye".to_vec())) {
        Action::Send(frame) => assert_eq!(frame, b"0bye"),
        other => panic!("{other:?}"),
    }
}

#[test]
fn a_status_that_was_lost_is_not_waited_for() {
    let cfg = config(|_| {});
    let mut s = open_session(&cfg);
    s.take(&cfg, Event::OutputEnded);
    assert!(s.awaits_exit());

    let mut lost = open_session(&cfg);
    lost.take(
        &cfg,
        Event::Reaped {
            now: 2000,
            exit: None,
        },
    );
    assert!(!lost.interest(&cfg, false).exit);
    lost.take(&cfg, Event::OutputEnded);
    assert!(!lost.awaits_exit());
}

#[test]
fn a_running_child_gets_the_configured_signal_at_the_end() {
    let cfg = config(|c| c.sig_code = 15);
    let mut s = open_session(&cfg);
    s.take(&cfg, Event::ClientGone);
    let mut child = Pty::new(77, 80, 24);

    let ending = s.ending(&cfg, &child, true);
    assert_eq!(ending.close, None);
    assert_eq!(
        ending.signal,
        Some(ChildSignal {
            target: -77,
            number: 15
        })
    );
    assert_eq!(s.ending(&cfg, &child, false).signal, None);
    assert_eq!(s.ending(&cfg, &Pty::new(0, 80, 24), true).signal, None);
    child.note_reaped();
    assert_eq!(s.ending(&cfg, &child, true).signal, None);
}

#[test]
fn a_child_that_ended_well_is_announced_and_not_signalled() {
    let cfg = config(|_| {});
    let mut s = open_session(&cfg);
    let mut child = Pty::new(77, 80, 24);
    child.note_reaped();
    s.take(
        &cfg,
        Event::Reaped {
            now: 1,
            exit: Some(ExitInfo {
                code: 0,
                signal: None,
            }),
        },
    );
    let ending = s.ending(&cfg, &child, true);
    assert_eq!(ending.close, Some(1000));
    assert_eq!(ending.signal, None);
}

#[test]
fn the_ping_period_is_the_interval_and_never_nothing() {
    assert_eq!(ping_period(&config(|_| {})), 5);
    assert_eq!(ping_period(&config(|c| c.ping_interval = 30)), 30);
    assert_eq!(ping_period(&config(|c| c.ping_interval = 0)), 1);
}
