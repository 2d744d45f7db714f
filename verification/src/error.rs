//! The failures that building and running a logger can report.

use vstd::prelude::*;
use vstd::string::StringExecFns;
use crate::text::{decimal, decimal_text};

verus! {

/// The reason for which the `time` crate refuses to format. Nothing of its inside is known here.
#[verifier::external_type_specification]
#[verifier::external_body]
pub struct ExParseError(time::ParseError);

/// A format spec that does not compile.
#[derive(Debug, Clone, PartialEq, Eq)]
pub struct FormatError {
    /// The format spec as it was given.
    pub format: String,
    /// The byte offset reported for the flaw.
    pub position: usize,
}

/// A time that cannot be formatted.
#[derive(Debug, PartialEq)]
pub enum TimeFormatError {
    /// The pattern is not a strftime pattern.
    Pattern(time::ParseError),
    /// A part of the time lies outside its range.
    Instant,
}

/// Any failure of this library.
#[derive(Debug, PartialEq)]
pub enum Error {
    /// A timestamp could not be formatted.
    Parse(TimeFormatError),
    /// A format spec does not compile.
    Format(FormatError),
    /// A configuration lacks a required key or holds an invalid value.
    Config,
}

/// Writes a `time::ParseError` out as its `Display` does.
///
/// Trusted: nothing is claimed of the text.
#[verifier::external_body]
fn pattern_error_text(e: &time::ParseError) -> String {
    format!("{}", e)
}

/// The short description that `time::ParseError` gives of itself as an error.
///
/// Trusted: nothing is claimed of the text.
#[verifier::external_body]
#[allow(deprecated)]
fn pattern_error_description(e: &time::ParseError) -> String {
    std::error::Error::description(e).to_owned()
}

impl FormatError {
    /// The text of `message`.
    pub open spec fn message_text(&self) -> Seq<char> {
        "Format Error in \""@ + self.format@ + "\" at "@ + decimal(self.position as nat)
    }

    /// Says which format spec failed, and where.
    pub fn message(&self) -> (text: String)
        ensures
            text@ == self.message_text(),
    {
        let mut text = "Format Error in \"".to_owned();
        text.append(self.format.as_str());
        text.append("\" at ");
        text.append(decimal_text(self.position as u64).as_str());
        text
    }

    /// The kind of failure, in two words.
    pub fn description(&self) -> (text: &'static str)
        ensures
            text@ == "format error"@,
    {
        "format error"
    }
}

impl TimeFormatError {
    /// Says why the time could not be formatted.
    pub fn message(&self) -> (text: String)
        ensures
            self is Instant ==> text@ == "Invalid time."@,
    {
        match self {
            TimeFormatError::Pattern(e) => pattern_error_text(e),
            TimeFormatError::Instant => "Invalid time.".to_owned(),
        }
    }

    /// The kind of failure.
    pub fn description(&self) -> (text: String)
        ensures
            self is Instant ==> text@ == "Invalid time."@,
    {
        match self {
            TimeFormatError::Pattern(e) => pattern_error_description(e),
            TimeFormatError::Instant => "Invalid time.".to_owned(),
        }
    }
}

impl Error {
    /// Says what failed: the kind of failure, followed for a time or a format by its own
    /// message.
    pub fn message(&self) -> (text: String)
        ensures
            self is Parse ==> "Parse error: "@.is_prefix_of(text@),
            self matches Error::Parse(TimeFormatError::Instant) ==> text@ == "Parse error: "@
                + "Invalid time."@,
            self matches Error::Format(e) ==> text@ == "Format error: "@ + e.message_text(),
            self is Config ==> text@ == "Config error"@,
    {
        match self {
            Error::Parse(e) => {
                let mut text = "Parse error: ".to_owned();
                text.append(e.message().as_str());
                text
            },
            Error::Format(e) => {
                let mut text = "Format error: ".to_owned();
                text.append(e.message().as_str());
                text
            },
            Error::Config => "Config error".to_owned(),
        }
    }

    /// The kind of failure.
    pub fn description(&self) -> (text: String)
        ensures
            self is Format ==> text@ == "format error"@,
            self is Config ==> text@ == "config error"@,
    {
        match self {
            Error::Parse(e) => e.description(),
            Error::Format(e) => e.description().to_owned(),
            Error::Config => "config error".to_owned(),
        }
    }
}

impl From<time::ParseError> for Error {
    fn from(e: time::ParseError) -> (error: Self) {
        Error::Parse(TimeFormatError::Pattern(e))
    }
}

impl vstd::std_specs::convert::FromSpecImpl<time::ParseError> for Error {
    open spec fn obeys_from_spec() -> bool {
        true
    }

    open spec fn from_spec(e: time::ParseError) -> Self {
        Error::Parse(TimeFormatError::Pattern(e))
    }
}

impl From<FormatError> for Error {
    fn from(e: FormatError) -> (error: Self) {
        Error::Format(e)
    }
}

impl vstd::std_specs::convert::FromSpecImpl<FormatError> for Error {
    open spec fn obeys_from_spec() -> bool {
        true
    }

    open spec fn from_spec(e: FormatError) -> Self {
        Error::Format(e)
    }
}

} // verus!
