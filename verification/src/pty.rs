//! The child process behind a terminal: how it is started, fed, resized, signalled and how it
//! ended.

use crate::cli::config::{Config, ConfigView};
use crate::text::{append_texts, copy_texts, opt_text, texts};
use vstd::prelude::*;

verus! {

/// The most terminal output that is read at once where no other size is configured.
pub const DEFAULT_READ_CHUNK: usize = 65536;

/// How much terminal input may wait for a child before its client is made to wait.
pub const MAX_QUEUED_INPUT: usize = 4_194_304;

/// The terminal width until the browser reports one.
pub const DEFAULT_COLUMNS: u16 = 80;

/// The terminal height until the browser reports one.
pub const DEFAULT_ROWS: u16 = 24;

/// How a child process ended.
#[derive(Debug, Clone, Copy, PartialEq, Eq, Structural)]
pub struct ExitInfo {
    /// The exit status, or 128 and the signal when a signal ended the child.
    pub code: i32,
    pub signal: Option<i32>,
}

/// What is known of a child that was waited for.
#[derive(Debug, Clone, Copy, PartialEq, Eq, Structural)]
pub enum WaitStatus {
    /// It exited, with this status if there is one.
    Exited(Option<i32>),
    /// A signal ended it.
    Signalled(i32),
    /// Waiting for it failed.
    Failed,
}

/// How a child that was waited for has ended. A signal number is below 2^31 - 128, so that adding
/// 128 stays a status.
pub open spec fn ended(status: WaitStatus) -> ExitInfo {
    match status {
        WaitStatus::Signalled(sig) => ExitInfo { code: (128 + sig) as i32, signal: Some(sig) },
        WaitStatus::Exited(Some(code)) => ExitInfo { code, signal: None },
        WaitStatus::Exited(None) => ExitInfo { code: 0, signal: None },
        WaitStatus::Failed => ExitInfo { code: (-1) as i32, signal: None },
    }
}

/// A child ended well: no signal ended it, and its status is zero.
pub open spec fn ended_well(info: ExitInfo) -> bool {
    info.signal is None && info.code == 0
}

impl ExitInfo {
    /// Whether the child ended well.
    pub fn success(&self) -> (r: bool)
        ensures
            r == ended_well(*self),
    {
        self.signal.is_none() && self.code == 0
    }

    /// How a child that was waited for has ended.
    pub fn from_wait(status: WaitStatus) -> (r: ExitInfo)
        requires
            status matches WaitStatus::Signalled(sig) ==> sig <= i32::MAX - 128,
        ensures
            r == ended(status),
    {
        match status {
            WaitStatus::Signalled(sig) => ExitInfo { code: 128 + sig, signal: Some(sig) },
            WaitStatus::Exited(Some(code)) => ExitInfo { code, signal: None },
            WaitStatus::Exited(None) => ExitInfo { code: 0, signal: None },
            WaitStatus::Failed => ExitInfo { code: -1, signal: None },
        }
    }
}

/// What the session knows of its child process and its terminal.
#[derive(Debug, Clone, Copy, PartialEq, Eq, Structural)]
pub struct Pty {
    pub pid: i32,
    /// The child was waited for. From then on its process id may belong to a stranger.
    pub reaped: bool,
    /// Bytes that were accepted for the child and have not reached its terminal.
    pub queued_input: usize,
    pub columns: u16,
    pub rows: u16,
}

/// A child with `len` more bytes waiting. The count wraps, as a counter of the machine does.
pub open spec fn queued(pty: Pty, len: usize) -> Pty {
    Pty {
        queued_input: if pty.queued_input + len <= usize::MAX {
            (pty.queued_input + len) as usize
        } else {
            (pty.queued_input + len - usize::MAX - 1) as usize
        },
        ..pty
    }
}

/// A child with `len` bytes fewer waiting, never less than none.
pub open spec fn drained(pty: Pty, len: usize) -> Pty {
    Pty {
        queued_input: if pty.queued_input >= len {
            (pty.queued_input - len) as usize
        } else {
            0
        },
        ..pty
    }
}

/// A child still runs: there is one, it was not waited for, and its process answers.
pub open spec fn runs(pty: Pty, answers: bool) -> bool {
    pty.pid > 0 && !pty.reaped && answers
}

/// A child that was waited for.
pub open spec fn waited_for(pty: Pty) -> Pty {
    Pty { reaped: true, ..pty }
}

/// A child is so far behind with its input that its client has to wait.
pub open spec fn is_behind(pty: Pty) -> bool {
    pty.queued_input >= MAX_QUEUED_INPUT
}

/// A child after `len` bytes were handed to its writer. Bytes that it did not take do not wait.
pub open spec fn handed_over(pty: Pty, len: usize, taken: bool) -> Pty {
    if taken {
        queued(pty, len)
    } else {
        drained(queued(pty, len), len)
    }
}

/// A child with a terminal of a new size. A size with a zero in it is ignored.
pub open spec fn resized(pty: Pty, columns: u16, rows: u16) -> Pty {
    if columns > 0 && rows > 0 {
        Pty { columns, rows, ..pty }
    } else {
        pty
    }
}

impl Pty {
    /// A child that has just been started.
    pub fn new(pid: i32, columns: u16, rows: u16) -> (r: Pty)
        ensures
            r == (Pty { pid, reaped: false, queued_input: 0, columns, rows }),
    {
        Pty { pid, reaped: false, queued_input: 0, columns, rows }
    }

    /// Counts `len` bytes that were handed to the writer. Bytes that it did not take are counted
    /// off again at once, since nothing will ever write them. The result is whether they were
    /// taken.
    pub fn write(&mut self, len: usize, taken: bool) -> (r: bool)
        ensures
            r == taken,
            *final(self) == handed_over(*old(self), len, taken),
    {
        self.queued_input = self.queued_input.wrapping_add(len);
        if !taken {
            self.written(len);
        }
        taken
    }

    /// Counts off `len` bytes that have reached the terminal.
    pub fn written(&mut self, len: usize)
        ensures
            *final(self) == drained(*old(self), len),
    {
        self.queued_input = if self.queued_input >= len {
            self.queued_input - len
        } else {
            0
        };
    }

    /// Counts off everything that waits: the writer has stopped and will write none of it.
    pub fn writer_stopped(&mut self)
        ensures
            *final(self) == drained(*old(self), old(self).queued_input),
    {
        self.queued_input = 0;
    }

    /// Whether the child is so far behind that its client has to wait.
    pub fn input_backlog_is_full(&self) -> (r: bool)
        ensures
            r == is_behind(*self),
    {
        self.queued_input >= MAX_QUEUED_INPUT
    }

    /// Takes over a new terminal size. A size with a zero in it is ignored; the result is whether
    /// the terminal is to be told.
    pub fn resize(&mut self, columns: u16, rows: u16) -> (r: bool)
        ensures
            r == (columns > 0 && rows > 0),
            *final(self) == resized(*old(self), columns, rows),
    {
        if columns == 0 || rows == 0 {
            return false;
        }
        self.columns = columns;
        self.rows = rows;
        true
    }

    /// The process that a signal for the child goes to: its whole group, named by the negated id.
    /// None when there is no child to signal any more.
    pub fn kill_target(&self) -> (r: Option<i32>)
        ensures
            r == kill_target_of(*self),
    {
        if self.pid <= 0 || self.reaped {
            None
        } else {
            Some(-self.pid)
        }
    }

    /// Whether the child still runs, given whether its process answers.
    pub fn is_running(&self, answers: bool) -> (r: bool)
        ensures
            r == runs(*self, answers),
    {
        self.pid > 0 && !self.reaped && answers
    }

    /// Notes that the child was waited for.
    pub fn note_reaped(&mut self)
        ensures
            *final(self) == waited_for(*old(self)),
    {
        self.reaped = true;
    }
}

/// A child process to start.
#[derive(Debug, Clone)]
pub struct SpawnRequest {
    pub argv: Vec<String>,
    /// Variables that are set in the child's environment.
    pub env: Vec<(String, String)>,
    pub cwd: Option<String>,
    pub columns: u16,
    pub rows: u16,
    /// The most terminal output that is read, and so sent, at once.
    pub read_chunk: usize,
}

/// What a request to start a child holds.
#[verifier::ext_equal]
pub struct SpawnRequestView {
    pub argv: Seq<Seq<char>>,
    pub env: Seq<(Seq<char>, Seq<char>)>,
    pub cwd: Option<Seq<char>>,
    pub columns: u16,
    pub rows: u16,
    pub read_chunk: usize,
}

/// Pairs of texts.
pub open spec fn pairs_view(pairs: Seq<(String, String)>) -> Seq<(Seq<char>, Seq<char>)> {
    pairs.map_values(|p: (String, String)| (p.0@, p.1@))
}

impl View for SpawnRequest {
    type V = SpawnRequestView;

    open spec fn view(&self) -> SpawnRequestView {
        SpawnRequestView {
            argv: texts(self.argv@),
            env: pairs_view(self.env@),
            cwd: opt_text(self.cwd),
            columns: self.columns,
            rows: self.rows,
            read_chunk: self.read_chunk,
        }
    }
}

/// The environment of a child: its terminal type, and the user if one is known.
pub open spec fn child_env(terminal_type: Seq<char>, user: Option<Seq<char>>) -> Seq<
    (Seq<char>, Seq<char>),
> {
    let term = seq![("TERM"@, terminal_type)];
    match user {
        Some(name) => if name.len() > 0 {
            term.push(("TTYD_USER"@, name))
        } else {
            term
        },
        None => term,
    }
}

/// The child that a session starts: the configured command with the arguments from the URL behind
/// it, in a terminal of the size that was asked for.
pub open spec fn child_for(
    cfg: ConfigView,
    user: Option<Seq<char>>,
    url_args: Seq<Seq<char>>,
    columns: u16,
    rows: u16,
) -> SpawnRequestView {
    SpawnRequestView {
        argv: cfg.argv + url_args,
        env: child_env(cfg.terminal_type, user),
        cwd: cfg.cwd,
        columns: if columns > 0 {
            columns
        } else {
            DEFAULT_COLUMNS
        },
        rows: if rows > 0 {
            rows
        } else {
            DEFAULT_ROWS
        },
        read_chunk: if cfg.srv_buf_size > 0 {
            cfg.srv_buf_size
        } else {
            1
        },
    }
}

/// The child that a session starts.
pub fn spawn_request(
    cfg: &Config,
    user: &Option<String>,
    url_args: &[String],
    columns: u16,
    rows: u16,
) -> (r: SpawnRequest)
    ensures
        r@ == child_for(cfg@, opt_text(*user), texts(url_args@), columns, rows),
{
    let mut argv = copy_texts(&cfg.argv);
    append_texts(&mut argv, copy_texts(url_args));
    let mut env: Vec<(String, String)> = Vec::new();
    env.push(("TERM".to_owned(), cfg.terminal_type.clone()));
    match user {
        Some(name) => {
            if !name.as_str().is_empty() {
                env.push(("TTYD_USER".to_owned(), name.clone()));
            }
        },
        None => {},
    }
    assert(pairs_view(env@) =~= child_env(cfg@.terminal_type, opt_text(*user)));
    SpawnRequest {
        argv,
        env,
        cwd: cfg.cwd.clone(),
        columns: if columns > 0 {
            columns
        } else {
            DEFAULT_COLUMNS
        },
        rows: if rows > 0 {
            rows
        } else {
            DEFAULT_ROWS
        },
        read_chunk: if cfg.srv_buf_size > 0 {
            cfg.srv_buf_size
        } else {
            1
        },
    }
}

/// The program to start and its arguments, or the complaint that there is none.
pub open spec fn command_of(argv: Seq<Seq<char>>) -> Result<(Seq<char>, Seq<Seq<char>>), Seq<char>> {
    if argv.len() == 0 {
        Err("cannot spawn a process without a command"@)
    } else {
        Ok((argv[0], argv.drop_first()))
    }
}

impl SpawnRequest {
    /// The program to start and its arguments, or the complaint that there is none.
    pub fn command(&self) -> (r: Result<(String, Vec<String>), String>)
        ensures
            match r {
                Ok((program, args)) => command_of(self@.argv) == Ok::<
                    (Seq<char>, Seq<Seq<char>>),
                    Seq<char>,
                >((program@, texts(args@))),
                Err(message) => command_of(self@.argv) == Err::<
                    (Seq<char>, Seq<Seq<char>>),
                    Seq<char>,
                >(message@),
            },
    {
        if self.argv.len() == 0 {
            return Err("cannot spawn a process without a command".to_owned());
        }
        let program = self.argv[0].clone();
        let rest = vstd::slice::slice_subrange(self.argv.as_slice(), 1, self.argv.len());
        let args = copy_texts(rest);
        assert(texts(args@) =~= texts(self.argv@).drop_first());
        Ok((program, args))
    }
}

/// What came of one read from the terminal, or one write to it.
#[derive(Debug, Clone, Copy, PartialEq, Eq, Structural)]
pub enum Transfer {
    /// This many bytes went over.
    Moved(usize),
    /// The terminal was not ready after all.
    NotReady,
    /// It failed.
    Failed,
}

/// What is done after a read from the terminal.
#[derive(Debug, Clone, Copy, PartialEq, Eq, Structural)]
pub enum AfterRead {
    /// The first bytes of the buffer, this many, are output.
    Deliver(usize),
    /// Wait until the terminal is ready.
    Wait,
    /// The output has ended.
    End,
}

/// What is done after a read from the terminal. A terminal whose last user has closed it answers
/// with nothing or with an error; either is the end of its output.
pub open spec fn read_on(outcome: Transfer) -> AfterRead {
    match outcome {
        Transfer::Moved(n) => if n == 0 {
            AfterRead::End
        } else {
            AfterRead::Deliver(n)
        },
        Transfer::NotReady => AfterRead::Wait,
        Transfer::Failed => AfterRead::End,
    }
}

/// What is done after a read from the terminal. A terminal whose last user has closed it answers
/// with nothing or with an error; either is the end of its output.
pub fn after_read(outcome: Transfer) -> (r: AfterRead)
    ensures
        r == read_on(outcome),
{
    match outcome {
        Transfer::Moved(n) => if n == 0 {
            AfterRead::End
        } else {
            AfterRead::Deliver(n)
        },
        Transfer::NotReady => AfterRead::Wait,
        Transfer::Failed => AfterRead::End,
    }
}

/// A piece of input on its way to the terminal.
#[derive(Debug, Clone, Copy, PartialEq, Eq, Structural)]
pub struct InputChunk {
    pub len: usize,
    pub written: usize,
}

/// What is done about a piece of input.
#[derive(Debug, Clone, Copy, PartialEq, Eq, Structural)]
pub enum AfterWrite {
    /// Write what is left, once the terminal is ready.
    More,
    /// All of it has reached the terminal.
    Done,
    /// The terminal takes no more input.
    Stop,
}

/// A piece of input after a write, and what is done about it. A terminal that takes nothing takes
/// no more input.
pub open spec fn written_on(chunk: InputChunk, outcome: Transfer) -> (InputChunk, AfterWrite) {
    match outcome {
        Transfer::Moved(n) => if n == 0 {
            (chunk, AfterWrite::Stop)
        } else if n >= chunk.len - chunk.written {
            (InputChunk { written: chunk.len, ..chunk }, AfterWrite::Done)
        } else {
            (
                InputChunk { written: (chunk.written + n) as usize, ..chunk },
                AfterWrite::More,
            )
        },
        Transfer::NotReady => (chunk, AfterWrite::More),
        Transfer::Failed => (chunk, AfterWrite::Stop),
    }
}

impl InputChunk {
    /// A piece of input of which nothing was written.
    pub fn new(len: usize) -> (r: InputChunk)
        ensures
            r == (InputChunk { len, written: 0 }),
    {
        InputChunk { len, written: 0 }
    }

    /// Whether all of it was written.
    pub fn is_done(&self) -> (r: bool)
        ensures
            r == (self.written == self.len),
    {
        self.written == self.len
    }

    /// Takes what came of a write.
    pub fn advance(&mut self, outcome: Transfer) -> (r: AfterWrite)
        requires
            old(self).written <= old(self).len,
        ensures
            (*final(self), r) == written_on(*old(self), outcome),
            final(self).written <= final(self).len,
    {
        match outcome {
            Transfer::Moved(n) => {
                if n == 0 {
                    AfterWrite::Stop
                } else if n >= self.len - self.written {
                    self.written = self.len;
                    AfterWrite::Done
                } else {
                    self.written = self.written + n;
                    AfterWrite::More
                }
            },
            Transfer::NotReady => AfterWrite::More,
            Transfer::Failed => AfterWrite::Stop,
        }
    }
}

/// What was counted for the child and has reached its terminal, or was refused by the writer,
/// leaves the backlog as it was.
pub proof fn law_backlog_drains(before: Pty, len: usize)
    requires
        before.queued_input + len <= usize::MAX,
    ensures
        drained(queued(before, len), len) == before,
{
}

/// Input that is handed over only while the backlog is not full never exceeds its limit by as much
/// as one more piece, however much comes, and counting bytes off never makes it grow.
pub proof fn law_gated_input_is_bounded(before: Pty, len: usize, largest: usize)
    requires
        before.queued_input < MAX_QUEUED_INPUT,
        len <= largest,
        MAX_QUEUED_INPUT + largest <= usize::MAX,
    ensures
        queued(before, len).queued_input < MAX_QUEUED_INPUT + largest,
        forall|n: usize| (#[trigger] drained(before, n)).queued_input <= before.queued_input,
{
}

/// A child that was waited for is never signalled again, and a signal goes to the child's own
/// process group.
pub proof fn law_signals_reach_only_the_own_group(pty: Pty)
    ensures
        pty.reaped ==> kill_target_of(pty) is None,
        match kill_target_of(pty) {
            Some(target) => target < 0 && target == -pty.pid,
            None => true,
        },
{
}

/// The process that a signal for a child goes to.
pub open spec fn kill_target_of(pty: Pty) -> Option<i32> {
    if pty.pid <= 0 || pty.reaped {
        None
    } else {
        Some((-pty.pid) as i32)
    }
}

/// A child that was started and not waited for can be signalled, with its whole group.
pub proof fn law_a_child_can_be_signalled(pty: Pty)
    ensures
        pty.pid > 0 && !pty.reaped ==> (kill_target_of(pty) matches Some(target) && target + pty.pid
            == 0),
        pty.pid <= 0 ==> kill_target_of(pty) is None,
{
}

/// The values that a variable is bound to in an environment, in order.
pub open spec fn bound(env: Seq<(Seq<char>, Seq<char>)>, name: Seq<char>) -> Seq<Seq<char>>
    decreases env.len(),
{
    if env.len() == 0 {
        Seq::empty()
    } else if env.last().0 == name {
        bound(env.drop_last(), name).push(env.last().1)
    } else {
        bound(env.drop_last(), name)
    }
}

/// The child finds the configured terminal type in `TERM`, and the user in `TTYD_USER` if one is known
/// by name; each is set once, and nothing else is set.
pub proof fn law_the_child_knows_its_terminal_and_user(
    cfg: ConfigView,
    user: Option<Seq<char>>,
    url_args: Seq<Seq<char>>,
    columns: u16,
    rows: u16,
)
    ensures
        ({
            let env = child_for(cfg, user, url_args, columns, rows).env;
            &&& bound(env, "TERM"@) == seq![cfg.terminal_type]
            &&& (user matches Some(name) && name.len() > 0) ==> bound(env, "TTYD_USER"@) == seq![
                user->0,
            ]
            &&& !(user matches Some(name) && name.len() > 0) ==> bound(env, "TTYD_USER"@).len() == 0
            &&& forall|i: int|
                0 <= i < env.len() ==> (#[trigger] env[i]).0 == "TERM"@ || env[i].0 == "TTYD_USER"@
        }),
{
    reveal_with_fuel(bound, 3);
    reveal_strlit("TERM");
    reveal_strlit("TTYD_USER");
    assert("TERM"@.len() != "TTYD_USER"@.len());
    let env = child_for(cfg, user, url_args, columns, rows).env;
    let term = seq![env[0]];
    assert(term.drop_last() =~= Seq::empty());
    if env.len() == 1 {
        assert(env =~= term);
    } else {
        assert(env.drop_last() =~= term);
    }
    assert(Seq::<Seq<char>>::empty().push(cfg.terminal_type) =~= seq![cfg.terminal_type]);
    match user {
        Some(name) => {
            assert(Seq::<Seq<char>>::empty().push(name) =~= seq![name]);
        },
        None => {},
    }
}

/// Children under different terminal types find different types in `TERM`.
pub proof fn law_terminal_types_are_told_apart(
    cfg: ConfigView,
    other: ConfigView,
    user: Option<Seq<char>>,
    url_args: Seq<Seq<char>>,
    columns: u16,
    rows: u16,
)
    requires
        cfg.terminal_type != other.terminal_type,
    ensures
        bound(child_for(cfg, user, url_args, columns, rows).env, "TERM"@) != bound(
            child_for(other, user, url_args, columns, rows).env,
            "TERM"@,
        ),
{
    law_the_child_knows_its_terminal_and_user(cfg, user, url_args, columns, rows);
    law_the_child_knows_its_terminal_and_user(other, user, url_args, columns, rows);
    assert(seq![cfg.terminal_type][0] != seq![other.terminal_type][0]);
}

/// The child is the configured command: its words stand first, in order, and the arguments from the URL
/// behind them. It runs in the configured directory.
pub proof fn law_the_child_runs_the_command(
    cfg: ConfigView,
    user: Option<Seq<char>>,
    url_args: Seq<Seq<char>>,
    columns: u16,
    rows: u16,
)
    ensures
        ({
            let child = child_for(cfg, user, url_args, columns, rows);
            &&& child.argv.len() == cfg.argv.len() + url_args.len()
            &&& forall|i: int| 0 <= i < cfg.argv.len() ==> #[trigger] child.argv[i] == cfg.argv[i]
            &&& forall|i: int|
                0 <= i < url_args.len() ==> child.argv[cfg.argv.len() + i] == #[trigger] url_args[i]
            &&& child.cwd == cfg.cwd
        }),
{
}

/// The terminal has the size that was asked for, a dimension that was not asked for is the usual one,
/// and no more output is read at once than the configured buffer holds, but always something.
pub proof fn law_the_terminal_has_the_size_asked_for(
    cfg: ConfigView,
    user: Option<Seq<char>>,
    url_args: Seq<Seq<char>>,
    columns: u16,
    rows: u16,
)
    ensures
        ({
            let child = child_for(cfg, user, url_args, columns, rows);
            &&& columns > 0 ==> child.columns == columns
            &&& rows > 0 ==> child.rows == rows
            &&& columns == 0 ==> child.columns == 80
            &&& rows == 0 ==> child.rows == 24
            &&& cfg.srv_buf_size > 0 ==> child.read_chunk == cfg.srv_buf_size
            &&& child.read_chunk > 0
            &&& child.read_chunk <= cfg.srv_buf_size || child.read_chunk == 1
        }),
{
}

/// A new size is taken over as it is, and changes nothing else; without both dimensions the terminal
/// stays as it is.
pub proof fn law_sizes_are_taken_over(pty: Pty, columns: u16, rows: u16)
    ensures
        columns > 0 && rows > 0 ==> resized(pty, columns, rows).columns == columns && resized(
            pty,
            columns,
            rows,
        ).rows == rows,
        columns == 0 || rows == 0 ==> resized(pty, columns, rows) == pty,
        resized(pty, columns, rows).pid == pty.pid,
        resized(pty, columns, rows).reaped == pty.reaped,
        resized(pty, columns, rows).queued_input == pty.queued_input,
{
}

/// How a child ended is told as a shell tells it: its status, or 128 and the signal that ended it; a
/// child about which nothing could be learned did not end well.
pub proof fn law_how_a_child_ended(status: WaitStatus)
    requires
        status matches WaitStatus::Signalled(sig) ==> sig <= i32::MAX - 128,
    ensures
        ({
            let info = ended(status);
            &&& status matches WaitStatus::Exited(Some(code)) ==> info.code == code
                && info.signal is None
            &&& status matches WaitStatus::Exited(None) ==> info.code == 0 && info.signal is None
            &&& status matches WaitStatus::Signalled(sig) ==> info.code == sig + 128 && info.signal
                == Some(sig)
            &&& status is Failed ==> info.code == -1 && info.signal is None
        }),
{
}

/// What is queued for a child is what is handed to it, and what has landed is counted off, never below
/// nothing; nothing else about the child changes.
pub proof fn law_input_is_counted(pty: Pty, len: usize)
    ensures
        pty.queued_input + len <= usize::MAX ==> queued(pty, len).queued_input == pty.queued_input
            + len,
        pty.queued_input >= len ==> drained(pty, len).queued_input + len == pty.queued_input,
        pty.queued_input < len ==> drained(pty, len).queued_input == 0,
        queued(pty, len) == (Pty { queued_input: queued(pty, len).queued_input, ..pty }),
        drained(pty, len) == (Pty { queued_input: drained(pty, len).queued_input, ..pty }),
{
}

/// A read gives output exactly if it gave bytes, and all of them; a terminal that was not ready is
/// waited for, and anything else is the end.
pub proof fn law_reads_give_output(outcome: Transfer, n: usize)
    ensures
        read_on(outcome) == AfterRead::Deliver(n) <==> n > 0 && outcome == Transfer::Moved(n),
        read_on(outcome) is Wait <==> outcome is NotReady,
        outcome is Failed || outcome == Transfer::Moved(0) ==> read_on(outcome) is End,
{
}

/// A piece of input is written out: every write counts what it moved, the piece is done exactly when
/// all of it was moved, and a terminal that takes nothing, or fails, stops it where it stands.
pub proof fn law_input_is_written_out(chunk: InputChunk, outcome: Transfer)
    requires
        chunk.written <= chunk.len,
    ensures
        ({
            let (next, doing) = written_on(chunk, outcome);
            &&& next.len == chunk.len
            &&& chunk.written <= next.written <= next.len
            &&& outcome matches Transfer::Moved(n) ==> {
                &&& n > 0 && chunk.written + n < chunk.len ==> next.written == chunk.written + n
                    && doing is More
                &&& n > 0 && chunk.written + n >= chunk.len ==> next.written == chunk.len
                    && doing is Done
                &&& n == 0 ==> next == chunk && doing is Stop
            }
            &&& outcome is NotReady ==> next == chunk && doing is More
            &&& outcome is Failed ==> next == chunk && doing is Stop
        }),
{
}

/// Bytes that were taken wait for the child, and bytes that were not leave it as it was.
pub proof fn law_only_what_was_taken_waits(pty: Pty, len: usize)
    requires
        pty.queued_input + len <= usize::MAX,
    ensures
        handed_over(pty, len, true).queued_input == pty.queued_input + len,
        handed_over(pty, len, false) == pty,
{
}

/// The first word of a command is the program and the others are its arguments, in order; without a word
/// nothing is started.
pub proof fn law_the_first_word_is_the_program(argv: Seq<Seq<char>>)
    ensures
        command_of(argv) is Err <==> argv.len() == 0,
        command_of(argv) matches Ok((program, args)) ==> argv == seq![program] + args,
{
    if argv.len() > 0 {
        assert(argv =~= seq![argv[0]] + argv.drop_first());
    }
}

/// A client has to wait exactly while four mebibytes or more wait for its child, and no longer once they
/// were counted off.
pub proof fn law_who_has_to_wait(pty: Pty)
    ensures
        is_behind(pty) <==> pty.queued_input >= 4 * 1024 * 1024,
        !is_behind(drained(pty, pty.queued_input)),
{
}

/// A child runs only while it can be signalled and its process answers. One that was waited for runs no
/// more, whatever answers under its process id, and is otherwise as it was.
pub proof fn law_a_child_that_was_waited_for_runs_no_more(pty: Pty, answers: bool)
    ensures
        runs(pty, answers) <==> kill_target_of(pty) is Some && answers,
        !runs(waited_for(pty), answers),
        waited_for(pty).reaped,
        waited_for(pty).pid == pty.pid,
        waited_for(pty).queued_input == pty.queued_input,
        waited_for(pty).columns == pty.columns && waited_for(pty).rows == pty.rows,
{
}

/// Only a child that exited of itself with status zero has ended well.
pub proof fn law_who_has_ended_well(status: WaitStatus)
    requires
        status matches WaitStatus::Signalled(sig) ==> sig <= i32::MAX - 128,
    ensures
        ended_well(ended(status)) <==> status == WaitStatus::Exited(Some(0)) || status
            == WaitStatus::Exited(None),
{
}

} // verus!
