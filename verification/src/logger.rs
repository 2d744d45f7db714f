//! The sink: filtering, rendering and the failure policy, and the builder that assembles it.

use vstd::prelude::*;
use regex::Regex;
use crate::clock::{local_now, Timestamp};
use crate::error::Error;
use crate::format::Formatter;
use crate::grammar::Token;
use crate::level::{LogLevel, LogLevelFilter};
use crate::record::LogRecord;
use crate::render::{completes, default_program, program_zone_free, rendered, writes, NEWLINE};
use crate::tag::{tag_gate, tag_passes};

verus! {

/// What a logger does when rendering or writing a record fails.
#[derive(Clone, Copy, Debug, PartialEq, Eq, Structural)]
pub enum OnError {
    /// The failure is fatal: the process is to end.
    Panic,
    /// The event is dropped, without retry.
    Ignore,
}

/// What became of one event.
#[derive(Debug, PartialEq)]
pub enum LogOutcome {
    /// The event did not pass the filter; nothing was rendered.
    Suppressed,
    /// The event was rendered in full.
    Written,
    /// Rendering failed and the policy is to drop the event.
    Ignored(Error),
    /// Rendering failed and the policy is to end the process.
    Abort(Error),
}

/// A sink for log events: a destination, a filter, a format program and a failure policy.
#[derive(Debug)]
pub struct Logger<W> {
    level: LogLevelFilter,
    file: W,
    tag: Option<Regex>,
    format: Formatter,
    on_error: OnError,
}

impl<W> Logger<W> {
    /// The severity threshold.
    pub closed spec fn threshold(&self) -> LogLevelFilter {
        self.level
    }

    /// The tag that targets are searched for, if one is set.
    pub closed spec fn tag_set(&self) -> Option<Regex> {
        self.tag
    }

    /// The format program.
    pub closed spec fn program(&self) -> Seq<Token> {
        self.format@
    }

    /// The failure policy.
    pub closed spec fn policy(&self) -> OnError {
        self.on_error
    }

    /// The destination.
    pub closed spec fn destination(&self) -> W {
        self.file
    }

    /// Whether an event of this level and target is eligible: it must pass the level gate and
    /// the tag gate, both.
    pub open spec fn admits(&self, level: LogLevel, target: Seq<char>) -> bool {
        self.threshold().admits(level) && tag_passes(self.tag_set(), target)
    }

    pub(crate) fn new(
        level: LogLevelFilter,
        tag: Option<Regex>,
        file: W,
        format: Formatter,
        on_error: OnError,
    ) -> (logger: Self)
        ensures
            logger.threshold() == level,
            logger.tag_set() == tag,
            logger.destination() == file,
            logger.program() == format@,
            logger.policy() == on_error,
    {
        Logger { level, file, tag, format, on_error }
    }

    /// Decides whether an event of this level and target is eligible for processing.
    ///
    /// The level gate passes where the level is at least as severe as the threshold. The tag
    /// gate is evaluated only then.
    pub fn enabled(&self, level: LogLevel, target: &str) -> (pass: bool)
        ensures
            pass == self.admits(level, target@),
            self.tag_set() is None ==> pass == self.threshold().admits(level),
            self.threshold().admits(level) ==> pass == tag_passes(self.tag_set(), target@),
            !self.threshold().admits(level) ==> !pass,
    {
        if self.level.passes(level) {
            tag_gate(&self.tag, target)
        } else {
            false
        }
    }

    /// What the failure policy makes of a failure.
    pub fn fail(&self, failure: Error) -> (outcome: LogOutcome)
        ensures
            outcome == match self.policy() {
                OnError::Panic => LogOutcome::Abort(failure),
                OnError::Ignore => LogOutcome::Ignored(failure),
            },
    {
        match self.on_error {
            OnError::Panic => LogOutcome::Abort(failure),
            OnError::Ignore => LogOutcome::Ignored(failure),
        }
    }

    /// Whether `outcome` is what the failure policy makes of a failed rendering at `now`.
    pub open spec fn failed(&self, now: Timestamp, outcome: LogOutcome) -> bool {
        let cause = match outcome {
            LogOutcome::Abort(e) => Some(e),
            LogOutcome::Ignored(e) => Some(e),
            _ => None,
        };
        &&& outcome is Abort <==> self.policy() == OnError::Panic
        &&& outcome is Ignored <==> self.policy() == OnError::Ignore
        &&& cause matches Some(Error::Parse(reason)) && (reason is Instant <==> !now.is_valid())
    }

    /// Whether processing an event with the time `now` turns the buffer `before` into `after`
    /// and ends in `outcome`.
    ///
    /// An event that is not eligible is suppressed and leaves the buffer as it was. An eligible
    /// event is rendered behind what the buffer held; it is written where rendering completes,
    /// and the failure policy decides where it does not.
    pub open spec fn processed(
        &self,
        record: &LogRecord,
        now: Timestamp,
        before: Seq<u8>,
        after: Seq<u8>,
        outcome: LogOutcome,
    ) -> bool {
        if self.admits(record.level, record.target@) {
            &&& writes(self.program(), record, now, before, after)
            &&& program_zone_free(self.program(), now) ==> after == before + rendered(
                self.program(),
                record,
                now,
            )
            &&& if completes(self.program(), record, now) {
                outcome is Written
            } else {
                self.failed(now, outcome)
            }
        } else {
            outcome is Suppressed && after == before
        }
    }

    /// Renders an eligible event into `out` and applies the failure policy.
    fn emit(&self, record: &LogRecord, now: &Timestamp, out: &mut Vec<u8>) -> (outcome: LogOutcome)
        requires
            self.admits(record.level, record.target@),
        ensures
            self.processed(record, *now, old(out)@, final(out)@, outcome),
    {
        match self.format.format(out, record, now) {
            Ok(()) => LogOutcome::Written,
            Err(e) => self.fail(e),
        }
    }

    /// Processes one event whose time has been captured: filters it, renders it into `out`, and
    /// applies the failure policy.
    ///
    /// A suppressed event leaves `out` as it was. A failed rendering leaves in `out` what was
    /// written before the failure.
    pub fn log_at(&self, record: &LogRecord, now: &Timestamp, out: &mut Vec<u8>) -> (outcome:
        LogOutcome)
        ensures
            self.processed(record, *now, old(out)@, final(out)@, outcome),
    {
        if self.enabled(record.level, record.target.as_str()) {
            self.emit(record, now, out)
        } else {
            LogOutcome::Suppressed
        }
    }

    /// Processes one event: filters it, captures the current time once, renders the event into
    /// `out` with that time, and applies the failure policy.
    ///
    /// A suppressed event leaves `out` as it was, and the clock is not read for it. For an
    /// eligible event the outcome is the one of `log_at` for the time that was captured.
    pub fn log(&self, record: &LogRecord, out: &mut Vec<u8>) -> (outcome: LogOutcome)
        ensures
            exists|now: Timestamp| self.processed(record, now, old(out)@, final(out)@, outcome),
            outcome is Suppressed <==> !self.admits(record.level, record.target@),
    {
        if self.enabled(record.level, record.target.as_str()) {
            let now = local_now();
            let outcome = self.emit(record, &now, out);
            assert(self.processed(record, now, old(out)@, out@, outcome));
            outcome
        } else {
            let ghost any = Timestamp {
                second: 0,
                minute: 0,
                hour: 0,
                day: 1,
                month: 0,
                year: 0,
                weekday: 0,
                yearday: 0,
                dst: 0,
                utc_offset: 0,
                nanosecond: 0,
            };
            assert(self.processed(record, any, old(out)@, out@, LogOutcome::Suppressed));
            LogOutcome::Suppressed
        }
    }

    /// The destination that rendered records are written to.
    pub fn file(&self) -> (file: &W)
        ensures
            *file == self.destination(),
    {
        &self.file
    }

    /// The failure policy.
    pub fn on_error(&self) -> (policy: OnError)
        ensures
            policy == self.policy(),
    {
        self.on_error
    }

    /// The severity threshold.
    pub fn level(&self) -> (level: LogLevelFilter)
        ensures
            level == self.threshold(),
    {
        self.level
    }

    /// The tag that targets are searched for, if one is set.
    pub fn tag(&self) -> (tag: Option<&Regex>)
        ensures
            match tag {
                Some(re) => self.tag_set() == Some(*re),
                None => self.tag_set() is None,
            },
    {
        match &self.tag {
            Some(re) => Some(re),
            None => None,
        }
    }

    /// The format program.
    pub fn format(&self) -> (program: &Formatter)
        ensures
            program@ == self.program(),
    {
        &self.format
    }
}

/// Records follow one another whole: where two eligible events are processed one after the
/// other into one buffer and both are written, the buffer holds behind its old content the
/// whole line of the first event and behind that the whole line of the second.
pub proof fn lemma_records_follow_one_another<W>(
    logger: &Logger<W>,
    first: &LogRecord,
    first_time: Timestamp,
    second: &LogRecord,
    second_time: Timestamp,
    before: Seq<u8>,
    between: Seq<u8>,
    after: Seq<u8>,
)
    requires
        program_zone_free(logger.program(), first_time),
        program_zone_free(logger.program(), second_time),
        logger.processed(first, first_time, before, between, LogOutcome::Written),
        logger.processed(second, second_time, between, after, LogOutcome::Written),
    ensures
        after == before + rendered(logger.program(), first, first_time) + rendered(
            logger.program(),
            second,
            second_time,
        ),
        rendered(logger.program(), first, first_time).last() == NEWLINE,
        rendered(logger.program(), second, second_time).last() == NEWLINE,
{
}

/// Collects the parts of a logger. Each part can be set in any order; the last value set wins.
#[derive(Debug)]
pub struct LoggerBuilder<W> {
    level: LogLevelFilter,
    file: W,
    tag: Option<Regex>,
    format: Formatter,
    on_error: OnError,
}

impl<W> LoggerBuilder<W> {
    /// The severity threshold.
    pub closed spec fn threshold(&self) -> LogLevelFilter {
        self.level
    }

    /// The tag that targets are searched for, if one is set.
    pub closed spec fn tag_set(&self) -> Option<Regex> {
        self.tag
    }

    /// The format program.
    pub closed spec fn program(&self) -> Seq<Token> {
        self.format@
    }

    /// The failure policy.
    pub closed spec fn policy(&self) -> OnError {
        self.on_error
    }

    /// The destination.
    pub closed spec fn destination(&self) -> W {
        self.file
    }

    /// Starts a builder for the given destination. Until set otherwise the threshold admits
    /// every level, no tag is set, the program is the default one and a failure is fatal.
    pub fn file(w: W) -> (builder: Self)
        ensures
            builder.destination() == w,
            builder.threshold() == LogLevelFilter::Trace,
            builder.tag_set() is None,
            builder.program() == default_program(),
            builder.policy() == OnError::Panic,
    {
        LoggerBuilder {
            level: LogLevelFilter::Trace,
            file: w,
            tag: None,
            format: Formatter::default(),
            on_error: OnError::Panic,
        }
    }

    /// Sets the tag.
    pub fn tag(self, r: Regex) -> (builder: Self)
        ensures
            builder.tag_set() == Some(r),
            builder.destination() == self.destination(),
            builder.threshold() == self.threshold(),
            builder.program() == self.program(),
            builder.policy() == self.policy(),
    {
        let mut builder = self;
        builder.tag = Some(r);
        builder
    }

    /// Sets the tag to what compiling a pattern gave, or fails with `Error::Config` where the
    /// pattern did not compile.
    pub fn try_tag(self, compiled: Option<Regex>) -> (r: Result<Self, Error>)
        ensures
            match compiled {
                Some(re) => r matches Ok(builder) && builder.tag_set() == Some(re)
                    && builder.destination() == self.destination() && builder.threshold()
                    == self.threshold() && builder.program() == self.program() && builder.policy()
                    == self.policy(),
                None => r matches Err(e) && e == Error::Config,
            },
    {
        match compiled {
            Some(re) => Ok(self.tag(re)),
            None => Err(Error::Config),
        }
    }

    /// Sets the severity threshold.
    pub fn level(self, l: LogLevelFilter) -> (builder: Self)
        ensures
            builder.threshold() == l,
            builder.destination() == self.destination(),
            builder.tag_set() == self.tag_set(),
            builder.program() == self.program(),
            builder.policy() == self.policy(),
    {
        let mut builder = self;
        builder.level = l;
        builder
    }

    /// Sets the format program.
    pub fn format(self, f: Formatter) -> (builder: Self)
        ensures
            builder.program() == f@,
            builder.destination() == self.destination(),
            builder.threshold() == self.threshold(),
            builder.tag_set() == self.tag_set(),
            builder.policy() == self.policy(),
    {
        let mut builder = self;
        builder.format = f;
        builder
    }

    /// Sets the failure policy.
    pub fn on_error(self, e: OnError) -> (builder: Self)
        ensures
            builder.policy() == e,
            builder.destination() == self.destination(),
            builder.threshold() == self.threshold(),
            builder.tag_set() == self.tag_set(),
            builder.program() == self.program(),
    {
        let mut builder = self;
        builder.on_error = e;
        builder
    }

    /// Finishes the builder.
    pub fn build(self) -> (logger: Logger<W>)
        ensures
            logger.destination() == self.destination(),
            logger.threshold() == self.threshold(),
            logger.tag_set() == self.tag_set(),
            logger.program() == self.program(),
            logger.policy() == self.policy(),
    {
        let LoggerBuilder { level, tag, file, format, on_error } = self;
        Logger::new(level, tag, file, format, on_error)
    }

    /// Finishes the builder for registration as the handler of a logging facade: gives the
    /// logger together with the most verbose level that the facade need hand on.
    pub fn init(self) -> (registration: (LogLevelFilter, Logger<W>))
        ensures
            registration.0 == self.threshold(),
            registration.1.destination() == self.destination(),
            registration.1.threshold() == self.threshold(),
            registration.1.tag_set() == self.tag_set(),
            registration.1.program() == self.program(),
            registration.1.policy() == self.policy(),
    {
        let max_log_level = self.level;
        (max_log_level, self.build())
    }
}

} // verus!
