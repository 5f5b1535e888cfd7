//! The daemon's log lines: `[<seconds>] [<LEVEL>] [<tag>] <message>`, warnings
//! and errors to standard error, the rest to standard output.
use vstd::prelude::*;

use crate::text::{push_str, string_of};

verus! {

/// How serious a log message is.
#[derive(Debug, Clone, Copy, PartialEq, Eq, Structural)]
pub enum LogLevel {
    Debug,
    Info,
    Warn,
    Error,
}

pub open spec fn level_text(level: LogLevel) -> Seq<char> {
    match level {
        LogLevel::Debug => "DEBUG"@,
        LogLevel::Info => "INFO"@,
        LogLevel::Warn => "WARN"@,
        LogLevel::Error => "ERROR"@,
    }
}

/// The label a level is written with.
pub fn level_label(level: LogLevel) -> (s: &'static str)
    ensures
        s@ == level_text(level),
{
    match level {
        LogLevel::Debug => "DEBUG",
        LogLevel::Info => "INFO",
        LogLevel::Warn => "WARN",
        LogLevel::Error => "ERROR",
    }
}

/// Whether a level goes to standard error.
pub fn goes_to_stderr(level: LogLevel) -> (r: bool)
    ensures
        r == (level == LogLevel::Warn || level == LogLevel::Error),
{
    match level {
        LogLevel::Warn | LogLevel::Error => true,
        LogLevel::Debug | LogLevel::Info => false,
    }
}

pub open spec fn log_text(timestamp: Seq<char>, level: LogLevel, tag: Seq<char>, message: Seq<char>) -> Seq<
    char,
> {
    "["@ + timestamp + "] ["@ + level_text(level) + "] ["@ + tag + "] "@ + message
}

/// A log line, given the time stamp already written as seconds with three decimals.
pub fn log_line(timestamp: &str, level: LogLevel, tag: &str, message: &str) -> (out: String)
    ensures
        out@ == log_text(timestamp@, level, tag@, message@),
{
    let mut cs: Vec<char> = Vec::new();
    push_str(&mut cs, "[");
    push_str(&mut cs, timestamp);
    push_str(&mut cs, "] [");
    push_str(&mut cs, level_label(level));
    push_str(&mut cs, "] [");
    push_str(&mut cs, tag);
    push_str(&mut cs, "] ");
    push_str(&mut cs, message);
    assert(cs@ =~= log_text(timestamp@, level, tag@, message@));
    string_of(&cs)
}

} // verus!
