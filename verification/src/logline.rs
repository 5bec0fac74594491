//! The line a custom logger prints for a record:
//! ``[zuolar]<path> <LEVEL> | <message>` ``.

use vstd::prelude::*;

verus! {

/// The severity of a log record, most severe first.
#[derive(Clone, Copy, Debug, PartialEq, Eq)]
pub enum LogLevel {
    Error,
    Warn,
    Info,
    Debug,
    Trace,
}

/// How a level is displayed: its name in capitals.
pub open spec fn level_name(level: LogLevel) -> Seq<char> {
    match level {
        LogLevel::Error => "ERROR"@,
        LogLevel::Warn => "WARN"@,
        LogLevel::Info => "INFO"@,
        LogLevel::Debug => "DEBUG"@,
        LogLevel::Trace => "TRACE"@,
    }
}

/// ``[zuolar]<path> <LEVEL> | <message>` `` (the line ends in a backtick).
pub open spec fn log_line_text(path: Seq<char>, level: LogLevel, message: Seq<char>) -> Seq<char> {
    "[zuolar]"@ + path + " "@ + level_name(level) + " | "@ + message + "`"@
}

/// The name of a level, in capitals.
pub fn level_text(level: LogLevel) -> (s: &'static str)
    ensures
        s@ == level_name(level),
{
    match level {
        LogLevel::Error => "ERROR",
        LogLevel::Warn => "WARN",
        LogLevel::Info => "INFO",
        LogLevel::Debug => "DEBUG",
        LogLevel::Trace => "TRACE",
    }
}

/// The line the logger writing to `path` prints for a record of `level` whose
/// formatted arguments are `message`.
pub fn log_line(path: &str, level: LogLevel, message: &str) -> (line: String)
    ensures
        line@ == log_line_text(path@, level, message@),
{
    let mut line = String::new();
    line.append("[zuolar]");
    line.append(path);
    line.append(" ");
    line.append(level_text(level));
    line.append(" | ");
    line.append(message);
    line.append("`");
    line
}

} // verus!
