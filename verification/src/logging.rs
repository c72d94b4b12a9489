//! The log level.

use vstd::prelude::*;

verus! {

/// How much is logged.
#[derive(Debug, Clone, Copy, PartialEq, Eq, Structural)]
pub enum LogLevel {
    Error,
    Warn,
    Info,
    Debug,
    Trace,
}

/// The level for a `--debug` value: the highest bit that is set among the five lowest decides.
/// Nothing is logged when none of them is.
pub open spec fn level_for(debug_level: i32) -> Option<LogLevel> {
    if debug_level & 16 != 0 {
        Some(LogLevel::Trace)
    } else if debug_level & 8 != 0 {
        Some(LogLevel::Debug)
    } else if debug_level & 4 != 0 {
        Some(LogLevel::Info)
    } else if debug_level & 2 != 0 {
        Some(LogLevel::Warn)
    } else if debug_level & 1 != 0 {
        Some(LogLevel::Error)
    } else {
        None
    }
}

/// The level for a `--debug` value.
pub fn log_level(debug_level: i32) -> (r: Option<LogLevel>)
    ensures
        r == level_for(debug_level),
{
    if debug_level & 16 != 0 {
        Some(LogLevel::Trace)
    } else if debug_level & 8 != 0 {
        Some(LogLevel::Debug)
    } else if debug_level & 4 != 0 {
        Some(LogLevel::Info)
    } else if debug_level & 2 != 0 {
        Some(LogLevel::Warn)
    } else if debug_level & 1 != 0 {
        Some(LogLevel::Error)
    } else {
        None
    }
}

/// How much a level logs, from nothing to everything.
pub open spec fn verbosity(level: Option<LogLevel>) -> int {
    match level {
        None => 0,
        Some(LogLevel::Error) => 1,
        Some(LogLevel::Warn) => 2,
        Some(LogLevel::Info) => 3,
        Some(LogLevel::Debug) => 4,
        Some(LogLevel::Trace) => 5,
    }
}

/// Only the five lowest bits of a `--debug` value matter, and setting more bits never logs less.
pub proof fn law_more_bits_log_no_less(debug_level: i32, more: i32)
    ensures
        level_for(debug_level & 31) == level_for(debug_level),
        verbosity(level_for(debug_level | more)) >= verbosity(level_for(debug_level)),
{
    let d = debug_level;
    let m = more;
    assert((d & 31) & 16 == d & 16) by (bit_vector);
    assert((d & 31) & 8 == d & 8) by (bit_vector);
    assert((d & 31) & 4 == d & 4) by (bit_vector);
    assert((d & 31) & 2 == d & 2) by (bit_vector);
    assert((d & 31) & 1 == d & 1) by (bit_vector);
    assert(d & 16 != 0 ==> (d | m) & 16 != 0) by (bit_vector);
    assert(d & 8 != 0 ==> (d | m) & 8 != 0) by (bit_vector);
    assert(d & 4 != 0 ==> (d | m) & 4 != 0) by (bit_vector);
    assert(d & 2 != 0 ==> (d | m) & 2 != 0) by (bit_vector);
    assert(d & 1 != 0 ==> (d | m) & 1 != 0) by (bit_vector);
}

/// The highest of the five lowest bits that is set names the level, and without any of them nothing is
/// logged.
pub proof fn law_the_highest_bit_names_the_level(d: i32)
    ensures
        level_for(d) == Some(LogLevel::Trace) <==> d & 16 != 0,
        level_for(d) == Some(LogLevel::Debug) <==> d & 16 == 0 && d & 8 != 0,
        level_for(d) == Some(LogLevel::Info) <==> d & 16 == 0 && d & 8 == 0 && d & 4 != 0,
        level_for(d) == Some(LogLevel::Warn) <==> d & 16 == 0 && d & 8 == 0 && d & 4 == 0 && d & 2
            != 0,
        level_for(d) == Some(LogLevel::Error) <==> d & 30 == 0 && d & 1 != 0,
        level_for(d) is None <==> d & 31 == 0,
{
    assert(d & 30 == 0 <==> d & 16 == 0 && d & 8 == 0 && d & 4 == 0 && d & 2 == 0) by (bit_vector);
    assert(d & 31 == 0 <==> d & 30 == 0 && d & 1 == 0) by (bit_vector);
}

} // verus!
