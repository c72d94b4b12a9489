use ttyd::cli::Config;
use ttyd::pty::{
    after_read, spawn_request, AfterRead, AfterWrite, ExitInfo, InputChunk, Pty, Transfer,
    WaitStatus, MAX_QUEUED_INPUT,
};

#[test]
fn exit_statuses_follow_the_shell() {
    let clean = ExitInfo::from_wait(WaitStatus::Exited(Some(0)));
    assert!(clean.success());
    let failed = ExitInfo::from_wait(WaitStatus::Exited(Some(3)));
    assert_eq!((failed.code, failed.signal), (3, None));
    assert!(!failed.success());
    let killed = ExitInfo::from_wait(WaitStatus::Signalled(15));
    assert_eq!((killed.code, killed.signal), (143, Some(15)));
    assert!(!killed.success());
    let lost = ExitInfo::from_wait(WaitStatus::Failed);
    assert_eq!((lost.code, lost.signal), (-1, None));
    assert_eq!(ExitInfo::from_wait(WaitStatus::Exited(None)).code, 0);
}

#[test]
fn the_backlog_fills_and_drains() {
    let mut pty = Pty::new(42, 80, 24);
    assert!(!pty.input_backlog_is_full());
    assert!(pty.write(MAX_QUEUED_INPUT - 1, true));
    assert!(!pty.input_backlog_is_full());
    assert!(pty.write(1, true));
    assert!(pty.input_backlog_is_full());
    pty.written(1);
    assert!(!pty.input_backlog_is_full());
    assert_eq!(pty.queued_input, MAX_QUEUED_INPUT - 1);
}

#[test]
fn bytes_that_nobody_will_write_are_not_counted() {
    let mut pty = Pty::new(42, 80, 24);
    assert!(pty.write(10, true));
    assert!(!pty.write(5, false));
    assert_eq!(pty.queued_input, 10);
    pty.written(100);
    assert_eq!(pty.queued_input, 0);
    assert!(pty.write(7, true));
    pty.writer_stopped();
    assert_eq!(pty.queued_input, 0);
}

#[test]
fn a_size_with_a_zero_is_ignored() {
    let mut pty = Pty::new(42, 80, 24);
    assert!(!pty.resize(0, 10));
    assert!(!pty.resize(10, 0));
    assert_eq!((pty.columns, pty.rows), (80, 24));
    assert!(pty.resize(120, 40));
    assert_eq!((pty.columns, pty.rows), (120, 40));
}

#[test]
fn signals_go_to_the_group_until_the_child_is_gone() {
    let mut pty = Pty::new(42, 80, 24);
    assert_eq!(pty.kill_target(), Some(-42));
    assert!(pty.is_running(true));
    assert!(!pty.is_running(false));
    pty.note_reaped();
    assert_eq!(pty.kill_target(), None);
    assert!(!pty.is_running(true));
    assert_eq!(Pty::new(0, 80, 24).kill_target(), None);
}

#[test]
fn a_child_gets_the_command_the_terminal_and_the_user() {
    let cfg = Config {
        argv: vec!["sh".into(), "-c".into()],
        cwd: Some("/srv".into()),
        ..Default::default()
    };
    let request = spawn_request(&cfg, &Some("alice".into()), &["x y".to_string()], 0, 40);
    assert_eq!(request.argv, vec!["sh", "-c", "x y"]);
    assert_eq!(
        request.env,
        vec![
            ("TERM".to_string(), "xterm-256color".to_string()),
            ("TTYD_USER".to_string(), "alice".to_string())
        ]
    );
    assert_eq!(request.cwd.as_deref(), Some("/srv"));
    assert_eq!((request.columns, request.rows), (80, 40));
    assert_eq!(request.read_chunk, 4096);

    let anonymous = spawn_request(&cfg, &Some(String::new()), &[], 100, 0);
    assert_eq!(anonymous.env.len(), 1);
    assert_eq!((anonymous.columns, anonymous.rows), (100, 24));
}

#[test]
fn the_first_argument_is_the_program() {
    let cfg = Config {
        argv: vec!["sh".into(), "-c".into(), "ls".into()],
        ..Default::default()
    };
    let (program, args) = spawn_request(&cfg, &None, &[], 0, 0).command().unwrap();
    assert_eq!(program, "sh");
    assert_eq!(args, vec!["-c", "ls"]);

    let nothing = spawn_request(&Config::default(), &None, &[], 0, 0);
    assert_eq!(
        nothing.command(),
        Err("cannot spawn a process without a command".to_string())
    );
}

#[test]
fn output_ends_with_an_empty_read_or_an_error() {
    assert_eq!(after_read(Transfer::Moved(7)), AfterRead::Deliver(7));
    assert_eq!(after_read(Transfer::Moved(0)), AfterRead::End);
    assert_eq!(after_read(Transfer::Failed), AfterRead::End);
    assert_eq!(after_read(Transfer::NotReady), AfterRead::Wait);
}

#[test]
fn a_piece_of_input_is_written_until_nothing_is_left() {
    let mut chunk = InputChunk::new(10);
    assert!(!chunk.is_done());
    assert_eq!(chunk.advance(Transfer::Moved(4)), AfterWrite::More);
    assert_eq!(chunk.advance(Transfer::NotReady), AfterWrite::More);
    assert_eq!(chunk.written, 4);
    assert_eq!(chunk.advance(Transfer::Moved(6)), AfterWrite::Done);
    assert!(chunk.is_done());

    let mut refused = InputChunk::new(3);
    assert_eq!(refused.advance(Transfer::Moved(0)), AfterWrite::Stop);
    assert_eq!(refused.advance(Transfer::Failed), AfterWrite::Stop);
    assert!(!refused.is_done());
    assert!(InputChunk::new(0).is_done());
}

#[test]
fn gated_input_stays_below_the_limit_and_one_piece() {
    let mut pty = Pty::new(42, 80, 24);
    while !pty.input_backlog_is_full() {
        assert!(pty.write(65_537, true));
    }
    assert!(pty.queued_input < MAX_QUEUED_INPUT + 65_537);
}
