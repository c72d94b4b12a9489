//! The `tty` WebSocket subprotocol.
//!
//! Every frame begins with one command byte. What follows is the payload, and its meaning depends
//! on that byte.

use vstd::prelude::*;

verus! {

/// The name of the subprotocol that is agreed on in the handshake.
pub const SUBPROTOCOL: &'static str = "tty";

/// From the client: keystrokes for the terminal, `0`.
pub const INPUT: u8 = 48;

/// From the client: a new terminal size as JSON, `1`.
pub const RESIZE_TERMINAL: u8 = 49;

/// From the client: stop sending output, `2`.
pub const PAUSE: u8 = 50;

/// From the client: go on sending output, `3`.
pub const RESUME: u8 = 51;

/// From the client: the opening message, `{`. It is JSON and is its own command byte.
pub const JSON_DATA: u8 = 123;

/// From the server: terminal output, `0`.
pub const OUTPUT: u8 = 48;

/// From the server: the window title, `1`.
pub const SET_WINDOW_TITLE: u8 = 49;

/// From the server: the client preferences as JSON, `2`.
pub const SET_PREFERENCES: u8 = 50;

/// The close code for a child process that ended well.
pub const CLOSE_NORMAL: u16 = 1000;

/// A frame: the command byte and the payload behind it.
pub open spec fn framed(command: u8, payload: Seq<u8>) -> Seq<u8> {
    seq![command] + payload
}

/// Builds a frame from a command byte and its payload.
pub fn frame(command: u8, payload: &[u8]) -> (r: Vec<u8>)
    ensures
        r@ == framed(command, payload@),
{
    let mut out: Vec<u8> = Vec::new();
    out.push(command);
    out.extend_from_slice(payload);
    assert(out@ =~= framed(command, payload@));
    out
}

/// A terminal size as the browser reports it. Zero means that a dimension was not reported.
#[derive(Debug, Clone, Copy, PartialEq, Eq, Structural)]
pub struct WindowSize {
    pub columns: u16,
    pub rows: u16,
}

impl Default for WindowSize {
    fn default() -> (r: WindowSize)
        ensures
            r == (WindowSize { columns: 0, rows: 0 }),
    {
        WindowSize { columns: 0, rows: 0 }
    }
}

/// The message with which the browser opens a terminal.
#[derive(Debug, Clone)]
pub struct OpenMessage {
    pub columns: u16,
    pub rows: u16,
    pub auth_token: Option<String>,
}

impl Default for OpenMessage {
    fn default() -> (r: OpenMessage)
        ensures
            r.columns == 0,
            r.rows == 0,
            r.auth_token is None,
    {
        OpenMessage { columns: 0, rows: 0, auth_token: None }
    }
}

/// A dimension that a message holds. What is missing, no whole number, or too large for a terminal
/// counts as not reported.
pub open spec fn dimension(value: Option<u64>) -> u16 {
    match value {
        Some(n) => if n <= u16::MAX {
            n as u16
        } else {
            0
        },
        None => 0,
    }
}

/// The dimension that a message holds, or zero.
fn read_dimension(value: Option<u64>) -> (r: u16)
    ensures
        r == dimension(value),
{
    match value {
        Some(n) => if n <= u16::MAX as u64 {
            n as u16
        } else {
            0
        },
        None => 0,
    }
}

/// The size in a message that holds these whole numbers for the columns and the rows.
pub open spec fn size_reported(columns: Option<u64>, rows: Option<u64>) -> WindowSize {
    WindowSize { columns: dimension(columns), rows: dimension(rows) }
}

/// A reported size over a current one: a dimension that was not reported stays as it is.
pub open spec fn size_over(new: WindowSize, current: WindowSize) -> WindowSize {
    WindowSize {
        columns: if new.columns > 0 {
            new.columns
        } else {
            current.columns
        },
        rows: if new.rows > 0 {
            new.rows
        } else {
            current.rows
        },
    }
}

impl WindowSize {
    /// The size in a message that holds these whole numbers for the columns and the rows.
    pub fn reported(columns: Option<u64>, rows: Option<u64>) -> (r: WindowSize)
        ensures
            r == size_reported(columns, rows),
    {
        WindowSize { columns: read_dimension(columns), rows: read_dimension(rows) }
    }

    /// This size over a current one: a dimension that was not reported stays as it is.
    pub fn over(self, current: WindowSize) -> (r: WindowSize)
        ensures
            r == size_over(self, current),
    {
        WindowSize {
            columns: if self.columns > 0 {
                self.columns
            } else {
                current.columns
            },
            rows: if self.rows > 0 {
                self.rows
            } else {
                current.rows
            },
        }
    }
}

/// A frame gives back what it was built from: its first byte is the command, the rest is the
/// payload, and two frames are the same only if both are.
pub proof fn law_frames_read_back(command: u8, payload: Seq<u8>, other: u8, other_payload: Seq<u8>)
    ensures
        framed(command, payload)[0] == command,
        framed(command, payload).drop_first() == payload,
        framed(command, payload) == framed(other, other_payload) ==> command == other && payload
            == other_payload,
{
    assert(framed(command, payload).drop_first() =~= payload);
    assert(framed(other, other_payload).drop_first() =~= other_payload);
    assert(framed(other, other_payload)[0] == other);
}

/// A dimension that fits a terminal is taken as it was sent; anything else counts as not reported. The
/// columns are the width and the rows the height, whatever the other one is.
pub proof fn law_dimensions(value: Option<u64>, other: Option<u64>)
    ensures
        size_reported(value, other).columns == dimension(value),
        size_reported(other, value).rows == dimension(value),
        value matches Some(n) ==> (if n < 65536 {
            dimension(value) == n
        } else {
            dimension(value) == 0
        }),
        value is None ==> dimension(value) == 0,
{
}

/// Each dimension that was reported is taken over, and each one that was not stays as it is.
pub proof fn law_dimensions_are_taken_over_one_by_one(new: WindowSize, current: WindowSize)
    ensures
        new.columns > 0 ==> size_over(new, current).columns == new.columns,
        new.columns == 0 ==> size_over(new, current).columns == current.columns,
        new.rows > 0 ==> size_over(new, current).rows == new.rows,
        new.rows == 0 ==> size_over(new, current).rows == current.rows,
{
}

/// The commands of each direction are told apart.
pub proof fn law_commands_are_told_apart()
    ensures
        INPUT != RESIZE_TERMINAL && INPUT != PAUSE && INPUT != RESUME && INPUT != JSON_DATA,
        RESIZE_TERMINAL != PAUSE && RESIZE_TERMINAL != RESUME && RESIZE_TERMINAL != JSON_DATA,
        PAUSE != RESUME && PAUSE != JSON_DATA && RESUME != JSON_DATA,
        OUTPUT != SET_WINDOW_TITLE && OUTPUT != SET_PREFERENCES,
        SET_WINDOW_TITLE != SET_PREFERENCES,
{
}

} // verus!
