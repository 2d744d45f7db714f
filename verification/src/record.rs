//! The events that a logger is handed.

use vstd::prelude::*;
use crate::level::LogLevel;

verus! {

/// One log event: where it came from, how severe it is and what it says.
#[derive(Debug, Clone, PartialEq, Eq)]
pub struct LogRecord {
    /// The severity of the event.
    pub level: LogLevel,
    /// The category of the event, which tags are matched against.
    pub target: String,
    /// The module that logged the event.
    pub module: String,
    /// The source file that logged the event.
    pub file: String,
    /// The source line that logged the event.
    pub line: u32,
    /// The message, with its arguments already filled in.
    pub message: String,
}

} // verus!
