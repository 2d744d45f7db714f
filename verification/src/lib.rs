//! A file logger: a compiler from format specs to rendering programs, and a filtered sink that
//! renders log events through such a program.
//!
//! A format spec such as `[{level}] {timestamp} {module_path}:{file}:{line} - {message}` is
//! compiled by [`Formatter::compile`] into a program of directives. A [`Logger`], assembled by a
//! [`LoggerBuilder`], decides by a severity threshold and an optional tag whether an event is
//! eligible, renders eligible events through its program, and applies its failure policy where
//! rendering fails. Rendered records are appended to a buffer; writing the buffer to the
//! destination, under a lock where emitters run concurrently, is left to the caller.
//!
//! The modules `grammar` and `render` state what compiling and rendering mean; the contracts
//! of the executable functions are written over them.

pub mod clock;
pub mod config;
pub mod error;
pub mod format;
pub mod grammar;
pub mod level;
pub mod logger;
mod reader;
pub mod record;
pub mod render;
pub mod tag;
pub mod text;

pub use clock::Timestamp;
pub use config::{ConfigEntry, ConfigValue, FileTarget};
pub use error::{Error, FormatError, TimeFormatError};
pub use format::{FormatSpecifier, Formatter};
pub use level::{LogLevel, LogLevelFilter};
pub use logger::{LogOutcome, Logger, LoggerBuilder, OnError};
pub use record::LogRecord;
