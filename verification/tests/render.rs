use file_logger::format::write_stamp;
use file_logger::{Error, FormatSpecifier, Formatter, LogLevel, LogRecord, TimeFormatError, Timestamp};

fn record(level: LogLevel, message: &str) -> LogRecord {
    LogRecord {
        level,
        target: "app::disk".to_owned(),
        module: "app::disk".to_owned(),
        file: "src/disk.rs".to_owned(),
        line: 42,
        message: message.to_owned(),
    }
}

/// Tuesday, 2 January 2024, 03:04:05.000000006, in UTC.
fn utc() -> Timestamp {
    Timestamp {
        second: 5,
        minute: 4,
        hour: 3,
        day: 2,
        month: 0,
        year: 124,
        weekday: 2,
        yearday: 1,
        dst: 0,
        utc_offset: 0,
        nanosecond: 6,
    }
}

/// The same wall-clock time, nine hours east of UTC.
fn tokyo() -> Timestamp {
    Timestamp { utc_offset: 9 * 3600, ..utc() }
}

fn render(spec: &str, record: &LogRecord, at: &Timestamp) -> (Result<(), Error>, Vec<u8>) {
    let program = Formatter::compile(spec).unwrap();
    let mut out = Vec::new();
    let result = program.format(&mut out, record, at);
    (result, out)
}

fn rendered(spec: &str, record: &LogRecord, at: &Timestamp) -> String {
    let (result, out) = render(spec, record, at);
    assert_eq!(result, Ok(()));
    String::from_utf8(out).unwrap()
}

#[test]
fn level_and_message_of_a_warning() {
    let out = rendered("{level}|{message}", &record(LogLevel::Warn, "disk full"), &utc());
    assert_eq!(out, "Warn|disk full\n");
}

#[test]
fn every_level_has_its_name() {
    let at = utc();
    assert_eq!(rendered("{level}", &record(LogLevel::Error, ""), &at), "Error\n");
    assert_eq!(rendered("{level}", &record(LogLevel::Warn, ""), &at), "Warn\n");
    assert_eq!(rendered("{level}", &record(LogLevel::Info, ""), &at), "Info\n");
    assert_eq!(rendered("{level}", &record(LogLevel::Debug, ""), &at), "Debug\n");
    assert_eq!(rendered("{level}", &record(LogLevel::Trace, ""), &at), "Trace\n");
}

#[test]
fn call_site_comes_from_the_event_as_it_stands() {
    let event = record(LogLevel::Info, "m");
    assert_eq!(rendered("{module_path}", &event, &utc()), "app::disk\n");
    assert_eq!(rendered("{file}", &event, &utc()), "src/disk.rs\n");
    assert_eq!(rendered("{line}", &event, &utc()), "42\n");
    assert_eq!(rendered("{message}", &event, &utc()), "m\n");
}

#[test]
fn line_is_written_in_decimal() {
    let mut event = record(LogLevel::Info, "");
    event.line = 0;
    assert_eq!(rendered("{line}", &event, &utc()), "0\n");
    event.line = 7;
    assert_eq!(rendered("{line}", &event, &utc()), "7\n");
    event.line = 10;
    assert_eq!(rendered("{line}", &event, &utc()), "10\n");
    event.line = 1905;
    assert_eq!(rendered("{line}", &event, &utc()), "1905\n");
    event.line = u32::MAX;
    assert_eq!(rendered("{line}", &event, &utc()), "4294967295\n");
}

#[test]
fn empty_program_renders_the_line_terminator_alone() {
    assert_eq!(rendered("", &record(LogLevel::Info, "m"), &utc()), "\n");
}

#[test]
fn exactly_one_line_terminator_ends_the_record() {
    let out = rendered("{message}", &record(LogLevel::Info, "two\nlines\n"), &utc());
    assert_eq!(out, "two\nlines\n\n");
}

#[test]
fn text_is_written_as_utf8() {
    let out = rendered("\u{2713} {message}", &record(LogLevel::Info, "gr\u{fc}n"), &utc());
    assert_eq!(out.as_bytes(), b"\xe2\x9c\x93 gr\xc3\xbcn\n");
}

#[test]
fn default_program_renders_the_documented_line() {
    let mut out = Vec::new();
    let event = record(LogLevel::Warn, "disk full");
    assert_eq!(Formatter::default().format(&mut out, &event, &tokyo()), Ok(()));
    assert_eq!(
        String::from_utf8(out).unwrap(),
        "[Warn] 2024-01-02 03:04:05+0900 app::disk:src/disk.rs:42 - disk full\n"
    );
}

#[test]
fn timestamp_follows_its_pattern() {
    let event = record(LogLevel::Info, "m");
    assert_eq!(rendered("{timestamp:%Y/%m/%d}", &event, &utc()), "2024/01/02\n");
    assert_eq!(rendered("{timestamp:%H.%M.%S}", &event, &utc()), "03.04.05\n");
    assert_eq!(rendered("{timestamp:%a %b %e}", &event, &utc()), "Tue Jan  2\n");
    assert_eq!(rendered("{timestamp:%j %f}", &event, &utc()), "002 000000006\n");
    assert_eq!(rendered("{timestamp:100%%}", &event, &utc()), "100%\n");
    assert_eq!(rendered("{timestamp:}", &event, &utc()), "\n");
}

#[test]
fn seconds_since_the_epoch_of_a_time_in_utc() {
    assert_eq!(rendered("{timestamp:%s}", &record(LogLevel::Info, "m"), &utc()), "1704164645\n");
}

#[test]
fn every_timestamp_of_one_record_shows_the_same_time() {
    let out = rendered("{timestamp:%T} {timestamp:%T} {timestamp}", &record(LogLevel::Info, "m"), &tokyo());
    assert_eq!(out, "03:04:05 03:04:05 2024-01-02 03:04:05+0900\n");
}

#[test]
fn rejected_pattern_fails_and_keeps_what_was_written() {
    let (result, out) = render("{level} {timestamp:%Q} {message}", &record(LogLevel::Info, "m"), &utc());
    assert_eq!(
        result,
        Err(Error::Parse(TimeFormatError::Pattern(time::ParseError::InvalidFormatSpecifier('Q'))))
    );
    assert_eq!(out, b"Info ");
}

#[test]
fn pattern_that_ends_in_a_percent_sign_is_rejected() {
    let (result, out) = render("{timestamp:%}", &record(LogLevel::Info, "m"), &utc());
    assert_eq!(result, Err(Error::Parse(TimeFormatError::Pattern(time::ParseError::MissingFormatConverter))));
    assert_eq!(out, b"");
}

#[test]
fn time_out_of_range_fails_before_the_pattern_is_read() {
    let event = record(LogLevel::Info, "m");
    for at in [
        Timestamp { second: 61, ..utc() },
        Timestamp { second: -1, ..utc() },
        Timestamp { minute: 60, ..utc() },
        Timestamp { hour: 24, ..utc() },
        Timestamp { day: 0, ..utc() },
        Timestamp { day: 32, ..utc() },
        Timestamp { month: 12, ..utc() },
        Timestamp { month: -1, ..utc() },
        Timestamp { year: 2_000_000_001, ..utc() },
        Timestamp { year: -2_000_000_001, ..utc() },
        Timestamp { weekday: 7, ..utc() },
        Timestamp { yearday: 366, ..utc() },
        Timestamp { utc_offset: 86_400, ..utc() },
        Timestamp { utc_offset: -86_400, ..utc() },
        Timestamp { nanosecond: 1_000_000_000, ..utc() },
        Timestamp { nanosecond: -1, ..utc() },
    ] {
        assert!(!at.check());
        let (result, out) = render("a{timestamp:%Q}", &event, &at);
        assert_eq!(result, Err(Error::Parse(TimeFormatError::Instant)));
        assert_eq!(out, b"a");
    }
}

#[test]
fn time_at_the_ends_of_its_ranges_can_be_formatted() {
    let event = record(LogLevel::Info, "m");
    let late = Timestamp {
        second: 60,
        minute: 59,
        hour: 23,
        day: 31,
        month: 11,
        year: 2_000_000_000,
        weekday: 6,
        yearday: 365,
        dst: 1,
        utc_offset: 86_399,
        nanosecond: 999_999_999,
    };
    assert!(late.check());
    assert_eq!(rendered("{timestamp}", &event, &late), "2000001900-12-31 23:59:60+2359\n");
    let early = Timestamp {
        second: 0,
        minute: 0,
        hour: 0,
        day: 1,
        month: 0,
        year: -2_000_000_000,
        weekday: 0,
        yearday: 0,
        dst: -1,
        utc_offset: -86_399,
        nanosecond: 0,
    };
    assert!(early.check());
    assert_eq!(rendered("{timestamp}", &event, &early), "-1999998100-01-01 00:00:00-2359\n");
    let every = "%A %a %B %b %C %c %D %d %e %F %f %G %g %H %h %I %j %k %l %M %m %n %P %p %R %r %S %T %t %U %u %V %v %W %w %X %x %Y %y %Z %z %+ %%";
    for at in [late, early, utc(), tokyo()] {
        let program = Formatter::compile(&format!("{{timestamp:{}}}", every)).unwrap();
        let mut out = Vec::new();
        assert_eq!(program.format(&mut out, &event, &at), Ok(()));
        assert!(out.ends_with(b"%\n"));
    }
}

#[test]
fn time_out_of_range_does_not_matter_without_a_timestamp() {
    let at = Timestamp { month: 12, ..utc() };
    assert_eq!(rendered("{level}: {message}", &record(LogLevel::Error, "m"), &at), "Error: m\n");
}

#[test]
fn rendering_appends_to_what_the_buffer_holds() {
    let program = Formatter::compile("{message}").unwrap();
    let mut out = b"kept\n".to_vec();
    assert_eq!(program.format(&mut out, &record(LogLevel::Info, "one"), &utc()), Ok(()));
    assert_eq!(program.format(&mut out, &record(LogLevel::Info, "two"), &utc()), Ok(()));
    assert_eq!(out, b"kept\none\ntwo\n");
}

#[test]
fn one_directive_writes_no_line_terminator() {
    let event = record(LogLevel::Debug, "m");
    let mut out = Vec::new();
    assert_eq!(FormatSpecifier::Level.format(&mut out, &event, &utc()), Ok(()));
    assert_eq!(FormatSpecifier::Str(" - ".to_owned()).format(&mut out, &event, &utc()), Ok(()));
    assert_eq!(FormatSpecifier::Line.format(&mut out, &event, &utc()), Ok(()));
    assert_eq!(FormatSpecifier::Timestamp(" %Y".to_owned()).format(&mut out, &event, &utc()), Ok(()));
    assert_eq!(out, b"Debug - 42 2024");
    let failed = FormatSpecifier::Timestamp("%!".to_owned()).format(&mut out, &event, &utc());
    assert_eq!(
        failed,
        Err(Error::Parse(TimeFormatError::Pattern(time::ParseError::InvalidFormatSpecifier('!'))))
    );
    assert_eq!(out, b"Debug - 42 2024");
}

#[test]
fn pushed_directives_render_in_the_order_pushed() {
    let mut program = Formatter::new();
    program.push(FormatSpecifier::Message);
    program.push(FormatSpecifier::Str("@".to_owned()));
    program.push(FormatSpecifier::Line);
    let mut out = Vec::new();
    assert_eq!(program.format(&mut out, &record(LogLevel::Info, "m"), &utc()), Ok(()));
    assert_eq!(out, b"m@42\n");
}

#[test]
fn stamp_is_written_or_its_refusal_handed_on() {
    let mut out = b"at ".to_vec();
    assert_eq!(write_stamp(&mut out, Ok("noon".to_owned())), Ok(()));
    assert_eq!(out, b"at noon");
    assert_eq!(write_stamp(&mut out, Ok(String::new())), Ok(()));
    assert_eq!(out, b"at noon");
    let refused = write_stamp(&mut out, Err(time::ParseError::InvalidFormatSpecifier('Q')));
    assert_eq!(
        refused,
        Err(Error::Parse(TimeFormatError::Pattern(time::ParseError::InvalidFormatSpecifier('Q'))))
    );
    assert_eq!(out, b"at noon");
}
