//! Severities, ordered from least to most verbose: `Off < Error < Warn < Info < Debug < Trace`.

use vstd::prelude::*;
use crate::text::same_text;

verus! {

/// The severity of an event.
#[derive(Clone, Copy, Debug, PartialEq, Eq, PartialOrd, Ord, Hash, Structural)]
pub enum LogLevel {
    Error,
    Warn,
    Info,
    Debug,
    Trace,
}

/// A severity threshold: the least severe level that is still admitted. `Off` admits nothing.
#[derive(Clone, Copy, Debug, PartialEq, Eq, PartialOrd, Ord, Hash, Structural)]
pub enum LogLevelFilter {
    Off,
    Error,
    Warn,
    Info,
    Debug,
    Trace,
}

impl LogLevel {
    /// The place of the level in the order of severities; a smaller rank is more severe.
    pub open spec fn rank(self) -> nat {
        match self {
            LogLevel::Error => 1,
            LogLevel::Warn => 2,
            LogLevel::Info => 3,
            LogLevel::Debug => 4,
            LogLevel::Trace => 5,
        }
    }

    /// The name of the level, as written in a rendered record.
    pub open spec fn name(self) -> Seq<char> {
        match self {
            LogLevel::Error => "Error"@,
            LogLevel::Warn => "Warn"@,
            LogLevel::Info => "Info"@,
            LogLevel::Debug => "Debug"@,
            LogLevel::Trace => "Trace"@,
        }
    }

    /// The place of the level in the order of severities.
    pub fn severity(self) -> (rank: u8)
        ensures
            rank == self.rank(),
    {
        match self {
            LogLevel::Error => 1,
            LogLevel::Warn => 2,
            LogLevel::Info => 3,
            LogLevel::Debug => 4,
            LogLevel::Trace => 5,
        }
    }

    /// The name of the level.
    pub fn as_str(self) -> (name: &'static str)
        ensures
            name@ == self.name(),
    {
        match self {
            LogLevel::Error => "Error",
            LogLevel::Warn => "Warn",
            LogLevel::Info => "Info",
            LogLevel::Debug => "Debug",
            LogLevel::Trace => "Trace",
        }
    }
}

impl LogLevelFilter {
    /// The place of the threshold in the order of severities.
    pub open spec fn rank(self) -> nat {
        match self {
            LogLevelFilter::Off => 0,
            LogLevelFilter::Error => 1,
            LogLevelFilter::Warn => 2,
            LogLevelFilter::Info => 3,
            LogLevelFilter::Debug => 4,
            LogLevelFilter::Trace => 5,
        }
    }

    /// Whether an event of the given level is at least as severe as this threshold.
    pub open spec fn admits(self, level: LogLevel) -> bool {
        level.rank() <= self.rank()
    }

    /// The threshold with the given name. The names are `Off`, `Error`, `Warn`, `Info`, `Debug`
    /// and `Trace`, written exactly so.
    pub open spec fn named(name: Seq<char>) -> Option<LogLevelFilter> {
        if name == "Off"@ {
            Some(LogLevelFilter::Off)
        } else if name == "Error"@ {
            Some(LogLevelFilter::Error)
        } else if name == "Warn"@ {
            Some(LogLevelFilter::Warn)
        } else if name == "Info"@ {
            Some(LogLevelFilter::Info)
        } else if name == "Debug"@ {
            Some(LogLevelFilter::Debug)
        } else if name == "Trace"@ {
            Some(LogLevelFilter::Trace)
        } else {
            None
        }
    }

    /// The place of the threshold in the order of severities.
    pub fn severity(self) -> (rank: u8)
        ensures
            rank == self.rank(),
    {
        match self {
            LogLevelFilter::Off => 0,
            LogLevelFilter::Error => 1,
            LogLevelFilter::Warn => 2,
            LogLevelFilter::Info => 3,
            LogLevelFilter::Debug => 4,
            LogLevelFilter::Trace => 5,
        }
    }

    /// Whether an event of the given level passes the threshold.
    pub fn passes(self, level: LogLevel) -> (pass: bool)
        ensures
            pass == self.admits(level),
    {
        level.severity() <= self.severity()
    }

    /// Reads a threshold from its name; `None` for any other text.
    pub fn from_name(name: &str) -> (level: Option<LogLevelFilter>)
        ensures
            level == LogLevelFilter::named(name@),
    {
        if same_text(name, "Off") {
            Some(LogLevelFilter::Off)
        } else if same_text(name, "Error") {
            Some(LogLevelFilter::Error)
        } else if same_text(name, "Warn") {
            Some(LogLevelFilter::Warn)
        } else if same_text(name, "Info") {
            Some(LogLevelFilter::Info)
        } else if same_text(name, "Debug") {
            Some(LogLevelFilter::Debug)
        } else if same_text(name, "Trace") {
            Some(LogLevelFilter::Trace)
        } else {
            None
        }
    }
}

} // verus!
