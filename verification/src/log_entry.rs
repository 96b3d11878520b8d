//! Severity levels of generated log entries and the plain-text part of an entry.

use vstd::prelude::*;

verus! {

/// Severity of a log entry.
#[derive(Clone, Copy, Debug, PartialEq, Eq, Structural, Hash)]
pub enum LogLevel {
    Debug,
    Info,
    Warn,
    Error,
}

/// The name a level is displayed under (dashboard keys, stdout sink).
pub open spec fn level_display(level: LogLevel) -> Seq<char> {
    match level {
        LogLevel::Debug => "DEBUG"@,
        LogLevel::Info => "INFO"@,
        LogLevel::Warn => "WARN"@,
        LogLevel::Error => "ERROR"@,
    }
}

/// The name a level is stored under by the search and database sinks.
pub open spec fn level_debug_name(level: LogLevel) -> Seq<char> {
    match level {
        LogLevel::Debug => "Debug"@,
        LogLevel::Info => "Info"@,
        LogLevel::Warn => "Warn"@,
        LogLevel::Error => "Error"@,
    }
}

/// Position of a level in the order Debug, Info, Warn, Error.
pub open spec fn level_index(level: LogLevel) -> int {
    match level {
        LogLevel::Debug => 0,
        LogLevel::Info => 1,
        LogLevel::Warn => 2,
        LogLevel::Error => 3,
    }
}

impl LogLevel {
    /// Upper-case display name: `DEBUG`, `INFO`, `WARN` or `ERROR`.
    pub fn as_str(&self) -> (s: &'static str)
        ensures
            s@ == level_display(*self),
    {
        match self {
            LogLevel::Debug => "DEBUG",
            LogLevel::Info => "INFO",
            LogLevel::Warn => "WARN",
            LogLevel::Error => "ERROR",
        }
    }

    /// Variant name: `Debug`, `Info`, `Warn` or `Error`.
    pub fn debug_name(&self) -> (s: &'static str)
        ensures
            s@ == level_debug_name(*self),
    {
        match self {
            LogLevel::Debug => "Debug",
            LogLevel::Info => "Info",
            LogLevel::Warn => "Warn",
            LogLevel::Error => "Error",
        }
    }

    /// Position in the order Debug, Info, Warn, Error.
    pub fn index(&self) -> (i: usize)
        ensures
            i == level_index(*self),
    {
        match self {
            LogLevel::Debug => 0,
            LogLevel::Info => 1,
            LogLevel::Warn => 2,
            LogLevel::Error => 3,
        }
    }
}

/// The text fields of a log entry (its timestamp and embedding are kept by the caller).
pub struct LogRecord {
    pub id: String,
    pub service: String,
    pub level: LogLevel,
    pub message: String,
}

} // verus!
